use vstd::prelude::*;
use vstd::string::StrSliceExecFns;

verus! {

/// Ghost image of a [`GridItem`]: the registry index of its column, its
/// contents as a sequence of characters, and the per-render scratch width.
pub struct GridItemView {
    pub header: usize,
    pub contents: Seq<char>,
    pub max_len: Option<usize>,
}

/// What a cell contributes to width computation and rendering: which column
/// it belongs to and what it holds. The scratch field `max_len` is recomputed
/// on every render and is left out of this model.
pub struct CellModel {
    pub header: usize,
    pub contents: Seq<char>,
}

impl GridItemView {
    /// The render-relevant part of this cell.
    pub open spec fn cell(self) -> CellModel {
        CellModel { header: self.header, contents: self.contents }
    }
}

/// The cells (in cell order) that a row of item views describes.
pub open spec fn row_cells(line: Seq<GridItemView>) -> Seq<CellModel> {
    line.map_values(|it: GridItemView| it.cell())
}

/// The matrix of cells that a sequence of rows describes.
pub open spec fn rows_of(lines: Seq<GridLine>) -> Seq<Seq<CellModel>> {
    lines.map_values(|l: GridLine| row_cells(l@))
}

/// One cell of the grid: the registry index of the column it belongs to, its
/// textual contents, and a per-render scratch field holding the display width
/// it was last padded to.
#[derive(Debug)]
pub struct GridItem {
    pub(crate) header: usize,
    pub(crate) contents: String,
    pub(crate) max_len: Option<usize>,
}

impl View for GridItem {
    type V = GridItemView;

    open(crate) spec fn view(&self) -> GridItemView {
        GridItemView { header: self.header, contents: self.contents@, max_len: self.max_len }
    }
}

impl Clone for GridItem {
    fn clone(&self) -> (r: Self)
        ensures
            r@ == self@,
    {
        GridItem { header: self.header, contents: self.contents.clone(), max_len: self.max_len }
    }
}

impl GridItem {
    /// A cell for the column at registry position `header`, holding
    /// `contents`.
    pub fn new(header: usize, contents: String) -> (r: Self)
        ensures
            r@ == (GridItemView { header: header, contents: contents@, max_len: None }),
    {
        GridItem { header, contents, max_len: None }
    }

    /// The raw display width of this cell: its character count plus one unit
    /// of trailing separator.
    pub fn len(&self) -> (r: usize)
        requires
            self@.contents.len() + 1 <= usize::MAX,
        ensures
            r == self@.contents.len() + 1,
    {
        self.contents.as_str().unicode_len() + 1
    }

    /// The contents of this cell.
    pub fn contents(&self) -> (r: &str)
        ensures
            r@ == self@.contents,
    {
        self.contents.as_str()
    }

    /// The registry index of the column this cell belongs to.
    pub fn header(&self) -> (r: usize)
        ensures
            r == self@.header,
    {
        self.header
    }

    /// Records the display width this cell's column received in the current
    /// render pass.
    pub fn set_max_len(&mut self, max_len: usize)
        ensures
            final(self)@ == (GridItemView { max_len: Some(max_len), ..old(self)@ }),
    {
        self.max_len = Some(max_len)
    }
}

/// One row of the grid, holding one cell per registry column.
#[derive(Debug)]
pub struct GridLine(pub Vec<GridItem>);

impl View for GridLine {
    type V = Seq<GridItemView>;

    open(crate) spec fn view(&self) -> Seq<GridItemView> {
        self.0@.map_values(|it: GridItem| it@)
    }
}

impl Clone for GridLine {
    fn clone(&self) -> (r: Self)
        ensures
            r@ == self@,
    {
        let mut out: Vec<GridItem> = Vec::new();
        let mut i: usize = 0;
        while i < self.0.len()
            invariant
                i <= self.0.len(),
                out@.len() == i,
                forall|k: int| 0 <= k < i ==> out@[k]@ == #[trigger] self.0@[k]@,
            decreases self.0.len() - i,
        {
            out.push(self.0[i].clone());
            i += 1;
        }
        proof {
            assert(out@.map_values(|it: GridItem| it@) =~= self@);
        }
        GridLine(out)
    }
}

} // verus!
