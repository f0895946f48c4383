use vstd::prelude::*;

verus! {

/// Padding applied to a freshly built [`GridHeader`] when no explicit padding
/// is chosen.
pub const DEFAULT_PAD: usize = 4;

/// Ghost image of a [`GridHeader`]: every field of the column descriptor,
/// with the text as a sequence of characters.
pub struct GridHeaderView {
    pub index: Option<usize>,
    pub text: Seq<char>,
    pub max_pad: Option<usize>,
    pub priority: usize,
    pub max_len: Option<usize>,
}

/// What a column contributes to width computation, selection and rendering:
/// its text, its retention priority and its resolved padding. The scratch
/// fields (`max_len`, `index`) are recomputed on every render and carry no
/// meaning of their own, so they are left out of this model.
pub struct ColumnModel {
    pub text: Seq<char>,
    pub priority: usize,
    pub pad: usize,
}

impl GridHeaderView {
    /// The render-relevant part of this column descriptor.
    pub open spec fn col(self) -> ColumnModel {
        ColumnModel {
            text: self.text,
            priority: self.priority,
            pad: match self.max_pad {
                Some(p) => p,
                None => 0,
            },
        }
    }
}

/// The columns (in declaration order) that a header sequence describes.
pub open spec fn cols(headers: Seq<GridHeaderView>) -> Seq<ColumnModel> {
    headers.map_values(|h: GridHeaderView| h.col())
}

/// One column of the grid: its caption, its retention priority, its padding
/// policy, and two per-render scratch fields (`max_len`, the computed display
/// width, and `index`, the display position when selected).
#[derive(Clone, Copy, Debug, PartialEq, Eq)]
pub struct GridHeader {
    pub(crate) index: Option<usize>,
    pub(crate) text: &'static str,
    pub(crate) max_pad: Option<usize>,
    pub(crate) priority: usize,
    pub(crate) max_len: Option<usize>,
}

impl View for GridHeader {
    type V = GridHeaderView;

    open(crate) spec fn view(&self) -> GridHeaderView {
        GridHeaderView {
            index: self.index,
            text: self.text@,
            max_pad: self.max_pad,
            priority: self.priority,
            max_len: self.max_len,
        }
    }
}

impl Default for GridHeader {
    /// A header with empty text, priority 0 and the default padding.
    fn default() -> (r: Self)
        ensures
            r@.index == Option::<usize>::None,
            r@.text =~= Seq::<char>::empty(),
            r@.max_pad == Some(DEFAULT_PAD),
            r@.priority == 0,
            r@.max_len == Option::<usize>::None,
    {
        proof {
            reveal_strlit("");
        }
        GridHeader { index: None, text: "", max_pad: Some(DEFAULT_PAD), priority: 0, max_len: None }
    }
}

impl GridHeader {
    /// Records the display width computed for this column in the current
    /// render pass.
    pub fn set_max_len(&mut self, len: usize)
        ensures
            final(self)@ == (GridHeaderView { max_len: Some(len), ..old(self)@ }),
    {
        self.max_len = Some(len)
    }

    /// Replaces the caption of this column.
    pub fn set_text(self, text: &'static str) -> (r: Self)
        ensures
            r@ == (GridHeaderView { text: text@, ..self@ }),
    {
        let mut r = self;
        r.text = text;
        r
    }

    /// Replaces the retention priority of this column; columns with higher
    /// priority survive longer when the table must shrink.
    pub fn set_priority(self, priority: usize) -> (r: Self)
        ensures
            r@ == (GridHeaderView { priority: priority, ..self@ }),
    {
        let mut r = self;
        r.priority = priority;
        r
    }

    /// Replaces the padding added to this column's width beyond the fixed
    /// two-column separator.
    pub fn set_max_pad(self, pad: usize) -> (r: Self)
        ensures
            r@ == (GridHeaderView { max_pad: Some(pad), ..self@ }),
    {
        let mut r = self;
        r.max_pad = Some(pad);
        r
    }

    /// Records the display position this column received in the current
    /// render pass.
    pub fn set_index(&mut self, idx: usize)
        ensures
            final(self)@ == (GridHeaderView { index: Some(idx), ..old(self)@ }),
    {
        self.index = Some(idx);
    }

    /// The caption of this column.
    pub fn text(&self) -> (r: &str)
        ensures
            r@ == self@.text,
    {
        self.text
    }

    /// The retention priority of this column.
    pub fn priority(&self) -> (r: usize)
        ensures
            r == self@.priority,
    {
        self.priority
    }

    /// The padding this column adds to its width beyond the fixed two-column
    /// separator.
    pub fn pad(&self) -> (r: usize)
        ensures
            r == self@.col().pad,
    {
        match self.max_pad {
            Some(p) => p,
            None => 0,
        }
    }
}

/// The column registry: the ordered list of the grid's column descriptors.
/// Declaration order is the canonical order and is preserved throughout.
#[derive(Debug)]
pub struct HeaderList(pub(crate) Vec<GridHeader>);

impl View for HeaderList {
    type V = Seq<GridHeaderView>;

    open(crate) spec fn view(&self) -> Seq<GridHeaderView> {
        self.0@.map_values(|h: GridHeader| h@)
    }
}

impl Clone for HeaderList {
    fn clone(&self) -> (r: Self)
        ensures
            r@ == self@,
    {
        let mut out: Vec<GridHeader> = Vec::new();
        let mut i: usize = 0;
        while i < self.0.len()
            invariant
                i <= self.0.len(),
                out@ == self.0@.take(i as int),
            decreases self.0.len() - i,
        {
            out.push(self.0[i]);
            proof {
                assert(out@ =~= self.0@.take(i + 1));
            }
            i += 1;
        }
        proof {
            assert(self.0@.take(self.0.len() as int) =~= self.0@);
            assert(out@.map_values(|h: GridHeader| h@) == self@);
        }
        HeaderList(out)
    }
}

impl HeaderList {
    /// An empty registry.
    pub fn new() -> (r: Self)
        ensures
            r@ =~= Seq::<GridHeaderView>::empty(),
    {
        HeaderList(Vec::new())
    }

    /// True when the registry holds no column.
    pub fn is_empty(&self) -> (r: bool)
        ensures
            r == (self@.len() == 0),
    {
        self.0.len() == 0
    }

    /// The number of columns in the registry.
    pub fn len(&self) -> (r: usize)
        ensures
            r == self@.len(),
    {
        self.0.len()
    }

    /// The column at position `idx` in declaration order, if there is one.
    pub fn get(&self, idx: usize) -> (r: Option<&GridHeader>)
        ensures
            match r {
                Some(h) => idx < self@.len() && h@ == self@[idx as int],
                None => idx >= self@.len(),
            },
    {
        self.0.get(idx)
    }
}

} // verus!
