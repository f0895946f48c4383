use vstd::prelude::*;
use vstd::pervasive::VecAdditionalExecFns;
use vstd::string::StringExecFns;
use crate::error::GridError;
use crate::header::{cols, ColumnModel, GridHeader, GridHeaderView, HeaderList};
use crate::line::{row_cells, CellModel, GridItem, GridItemView, GridLine};
use crate::render::{
    build_header_line, build_row_line, fill, grid_text, header_line, push_dashes, push_newline,
    row_line, rows_text,
};
use crate::select::{
    ascending, in_range, prefix_sel, sel_sum, select_columns, spec_select, sum_upto,
};
use crate::widths::{
    all_rows_have, display_width, has_missing, map_lines, prio_total, prio_total_upto, prios_of,
    row_has_cell, width_total, width_total_upto, widths_of,
};

verus! {

/// Ghost image of a [`TTYGrid`]: the registry, the current selection (as
/// registry positions), the accumulated rows, and the width budget.
pub struct TTYGridView {
    pub headers: Seq<GridHeaderView>,
    pub selected: Seq<usize>,
    pub lines: Seq<Seq<GridItemView>>,
    pub width: usize,
}

/// The matrix of cells that the rows of a grid view describe.
pub open spec fn grid_cells(lines: Seq<Seq<GridItemView>>) -> Seq<Seq<CellModel>> {
    lines.map_values(|l: Seq<GridItemView>| row_cells(l))
}

/// The selection decision for a grid model: which columns a render of
/// registry `cs`, rows `rows` and width budget `width` shows.
pub open spec fn grid_selection(
    cs: Seq<ColumnModel>,
    rows: Seq<Seq<CellModel>>,
    width: usize,
) -> Option<Seq<usize>> {
    spec_select(widths_of(cs, rows), prios_of(cs), width)
}

/// The table: the column registry, the accumulated rows, the width budget,
/// and the selection of the most recent render.
pub struct TTYGrid {
    pub(crate) headers: HeaderList,
    pub(crate) selected: Vec<usize>,
    pub(crate) lines: Vec<GridLine>,
    pub(crate) width: usize,
}

impl View for TTYGrid {
    type V = TTYGridView;

    open(crate) spec fn view(&self) -> TTYGridView {
        TTYGridView {
            headers: self.headers@,
            selected: self.selected@,
            lines: self.lines@.map_values(|l: GridLine| l@),
            width: self.width,
        }
    }
}

impl Clone for TTYGrid {
    /// A grid with the same registry, rows, selection and width budget.
    #[verifier::loop_isolation(false)]
    fn clone(&self) -> (r: Self)
        ensures
            r@ == self@,
    {
        let mut selected: Vec<usize> = Vec::new();
        let mut i: usize = 0;
        while i < self.selected.len()
            invariant
                i <= self.selected@.len(),
                selected@ == self.selected@.take(i as int),
            decreases self.selected@.len() - i,
        {
            selected.push(self.selected[i]);
            proof {
                assert(selected@ =~= self.selected@.take(i + 1));
            }
            i += 1;
        }
        let mut lines: Vec<GridLine> = Vec::new();
        let mut k: usize = 0;
        while k < self.lines.len()
            invariant
                k <= self.lines@.len(),
                lines@.len() == k,
                forall|t: int| 0 <= t < k ==> (#[trigger] lines@[t])@ == self.lines@[t]@,
            decreases self.lines@.len() - k,
        {
            lines.push(self.lines[k].clone());
            k += 1;
        }
        let r = TTYGrid { headers: self.headers.clone(), selected, lines, width: self.width };
        proof {
            assert(self.selected@.take(self.selected@.len() as int) =~= self.selected@);
            assert(r@.lines =~= self@.lines);
        }
        r
    }
}

impl TTYGrid {
    /// The columns this grid renders: what each registry entry contributes
    /// to widths, selection and text.
    pub open spec fn columns(&self) -> Seq<ColumnModel> {
        cols(self@.headers)
    }

    /// The cells this grid renders, row by row.
    pub open spec fn cells(&self) -> Seq<Seq<CellModel>> {
        grid_cells(self@.lines)
    }

    /// The machine bounds a render needs: every computable column width, the
    /// combined width of the registry, and the combined priority must fit in
    /// `usize`.
    pub open spec fn fits(&self) -> bool {
        &&& forall|j: int|
            0 <= j < self.columns().len() && all_rows_have(self.cells(), j) ==> display_width(
                self.columns(),
                self.cells(),
                j,
            ) <= usize::MAX
        &&& !has_missing(self.columns().len() as int, self.cells()) ==> width_total(
            self.columns(),
            self.cells(),
        ) <= usize::MAX
        &&& prio_total(self.columns()) <= usize::MAX
    }

    /// A grid over the given columns with no rows, no selection, and `width`
    /// as its width budget.
    pub fn new(headers: Vec<GridHeader>, width: usize) -> (r: Self)
        ensures
            r@.headers == headers@.map_values(|h: GridHeader| h@),
            r@.selected =~= Seq::<usize>::empty(),
            r@.lines =~= Seq::<Seq<GridItemView>>::empty(),
            r@.width == width,
    {
        let r = TTYGrid { headers: HeaderList(headers), selected: Vec::new(), lines: Vec::new(), width };
        proof {
            assert(r@.lines =~= Seq::<Seq<GridItemView>>::empty());
        }
        r
    }

    /// The grid's width budget.
    pub fn width(&self) -> (r: usize)
        ensures
            r == self@.width,
    {
        self.width
    }

    /// Replaces the width budget, typically with a freshly queried terminal
    /// width before a render.
    pub fn set_width(&mut self, width: usize)
        ensures
            final(self)@ == (TTYGridView { width: width, ..old(self)@ }),
    {
        self.width = width;
    }

    /// The number of accumulated rows.
    pub fn line_count(&self) -> (r: usize)
        ensures
            r == self@.lines.len(),
    {
        self.lines.len()
    }

    /// The row at position `idx`, if there is one.
    pub fn get_line(&self, idx: usize) -> (r: Option<&GridLine>)
        ensures
            match r {
                Some(l) => idx < self@.lines.len() && l@ == self@.lines[idx as int],
                None => idx >= self@.lines.len(),
            },
    {
        let r = self.lines.get(idx);
        proof {
            if idx < self.lines@.len() {
                assert(self@.lines[idx as int] == self.lines@[idx as int]@);
            }
        }
        r
    }

    /// Appends a row. A row is accepted only when it carries exactly one
    /// cell per registry column; otherwise it is rejected and the grid is
    /// left unchanged.
    pub fn add_line(&mut self, item: GridLine) -> (r: Result<(), GridError>)
        ensures
            item@.len() == old(self)@.headers.len() ==> r == Ok::<(), GridError>(())
                && final(self)@ == (TTYGridView {
                lines: old(self)@.lines.push(item@),
                ..old(self)@
            }),
            item@.len() != old(self)@.headers.len() ==> r == Err::<(), GridError>(
                GridError::RowArityMismatch,
            ) && final(self)@ == old(self)@,
    {
        if item.0.len() != self.headers.len() {
            return Err(GridError::RowArityMismatch);
        }
        let ghost it = item@;
        self.lines.push(item);
        proof {
            assert(self@.lines =~= old(self)@.lines.push(it));
        }
        Ok(())
    }

    /// Removes every accumulated row.
    pub fn clear_lines(&mut self)
        ensures
            final(self)@ == (TTYGridView {
                lines: Seq::<Seq<GridItemView>>::empty(),
                ..old(self)@
            }),
    {
        self.lines.clear();
        proof {
            assert(self@.lines =~= Seq::<Seq<GridItemView>>::empty());
        }
    }

    /// A copy of the column registry.
    pub fn headers(&self) -> (r: HeaderList)
        ensures
            r@ == self@.headers,
    {
        self.headers.clone()
    }

    /// Marks the column at registry position `header` as selected, giving it
    /// display position `idx`.
    pub fn select(&mut self, header: usize, idx: usize)
        requires
            header < old(self)@.headers.len(),
        ensures
            final(self)@.headers == old(self)@.headers.update(
                header as int,
                (GridHeaderView { index: Some(idx), ..old(self)@.headers[header as int] }),
            ),
            final(self)@.selected == old(self)@.selected.push(header),
            final(self)@.lines == old(self)@.lines,
            final(self)@.width == old(self)@.width,
    {
        let mut h = self.headers.0[header];
        h.set_index(idx);
        self.headers.0[header] = h;
        self.selected.push(header);
        proof {
            assert(self@.headers =~= old(self)@.headers.update(
                header as int,
                (GridHeaderView { index: Some(idx), ..old(self)@.headers[header as int] }),
            ));
        }
    }

    /// True when the column at registry position `header` is in the current
    /// selection.
    #[verifier::loop_isolation(false)]
    pub fn is_selected(&self, header: usize) -> (r: bool)
        ensures
            r == self@.selected.contains(header),
    {
        let mut k: usize = 0;
        while k < self.selected.len()
            invariant
                k <= self.selected.len(),
                forall|t: int| 0 <= t < k ==> (#[trigger] self.selected@[t]) != header,
            decreases self.selected.len() - k,
        {
            if self.selected[k] == header {
                return true;
            }
            k += 1;
        }
        proof {
            assert(!self@.selected.contains(header));
        }
        false
    }

    /// Selects every registry column, in declaration order.
    pub fn select_all_headers(&mut self)
        ensures
            final(self)@ == (TTYGridView {
                selected: prefix_sel(old(self)@.headers.len() as int),
                ..old(self)@
            }),
    {
        let n = self.headers.len();
        self.selected = crate::select::build_prefix(n);
    }

    /// Empties the selection.
    pub fn deselect_all_headers(&mut self)
        ensures
            final(self)@ == (TTYGridView { selected: Seq::<usize>::empty(), ..old(self)@ }),
    {
        self.selected.clear();
        proof {
            assert(self@.selected =~= Seq::<usize>::empty());
        }
    }
}


/// A cell with its per-render width scratch set.
pub open spec fn item_with_len(it: GridItemView, ml: usize) -> GridItemView {
    GridItemView { max_len: Some(ml), ..it }
}

/// True when `newl` is `oldl` after the width pass: each cell standing at a
/// column position holds that column's display width, and cells beyond the
/// registry are untouched.
pub open spec fn line_scratched(
    oldl: Seq<GridItemView>,
    ws: Seq<usize>,
    newl: Seq<GridItemView>,
) -> bool {
    &&& newl.len() == oldl.len()
    &&& forall|k: int|
        0 <= k < newl.len() ==> #[trigger] newl[k] == if k < ws.len() {
            item_with_len(oldl[k], ws[k])
        } else {
            oldl[k]
        }
}

/// The rows of a grid's line vector and the cells of its view describe the
/// same matrix.
proof fn lemma_grid_rows(g: &TTYGrid)
    ensures
        crate::line::rows_of(g.lines@) == g.cells(),
{
    let a = crate::line::rows_of(g.lines@);
    let b = g.cells();
    assert(g@.lines.len() == g.lines@.len());
    assert(forall|i: int| 0 <= i < g.lines@.len() ==> #[trigger] g@.lines[i] == g.lines@[i]@);
    assert(forall|i: int| 0 <= i < a.len() ==> #[trigger] a[i] == row_cells(g.lines@[i]@));
    assert(forall|i: int| 0 <= i < b.len() ==> #[trigger] b[i] == row_cells(g@.lines[i]));
    assert(a =~= b);
}

impl TTYGrid {
    /// Computes every column's display width from the accumulated rows,
    /// records it in each header's and each positioned cell's scratch field,
    /// and returns the per-render width cache.
    #[verifier::loop_isolation(false)]
    fn set_grid_max_len(&mut self) -> (r: Result<Vec<usize>, GridError>)
        requires
            forall|j: int|
                0 <= j < old(self).columns().len() && all_rows_have(old(self).cells(), j)
                    ==> display_width(old(self).columns(), old(self).cells(), j) <= usize::MAX,
        ensures
            match r {
                Ok(ws) => {
                    &&& !has_missing(old(self).columns().len() as int, old(self).cells())
                    &&& ws@.len() == old(self)@.headers.len()
                    &&& forall|j: int|
                        0 <= j < ws@.len() ==> ws@[j] as int == display_width(
                            old(self).columns(),
                            old(self).cells(),
                            j,
                        )
                    &&& final(self)@.headers.len() == old(self)@.headers.len()
                    &&& forall|j: int|
                        0 <= j < ws@.len() ==> final(self)@.headers[j] == (GridHeaderView {
                            max_len: Some(ws@[j]),
                            ..old(self)@.headers[j]
                        })
                    &&& final(self)@.lines.len() == old(self)@.lines.len()
                    &&& forall|i: int|
                        0 <= i < final(self)@.lines.len() ==> line_scratched(
                            old(self)@.lines[i],
                            ws@,
                            #[trigger] final(self)@.lines[i],
                        )
                    &&& final(self)@.selected == old(self)@.selected
                    &&& final(self)@.width == old(self)@.width
                },
                Err(e) => {
                    &&& e == GridError::MissingColumn
                    &&& has_missing(old(self).columns().len() as int, old(self).cells())
                    &&& final(self)@ == old(self)@
                },
            },
    {
        proof {
            lemma_grid_rows(self);
            assert(crate::header::cols(self.headers@) == old(self).columns());
        }
        let ws = match map_lines(&self.headers, &self.lines) {
            Ok(ws) => ws,
            Err(e) => {
                return Err(e);
            },
        };
        let n = self.headers.len();
        let mut j: usize = 0;
        while j < n
            invariant
                j <= n,
                n == old(self)@.headers.len(),
                ws@.len() == n,
                self.headers.0@.len() == n,
                forall|t: int|
                    0 <= t < j ==> (#[trigger] self.headers.0@[t])@ == (GridHeaderView {
                        max_len: Some(ws@[t]),
                        ..old(self).headers.0@[t]@
                    }),
                forall|t: int|
                    j <= t < n ==> (#[trigger] self.headers.0@[t]) == old(self).headers.0@[t],
                self.lines == old(self).lines,
                self.selected == old(self).selected,
                self.width == old(self).width,
            decreases n - j,
        {
            let mut h = self.headers.0[j];
            h.set_max_len(ws[j]);
            self.headers.0[j] = h;
            j += 1;
        }
        let mut i: usize = 0;
        while i < self.lines.len()
            invariant
                i <= self.lines@.len(),
                self.lines@.len() == old(self).lines@.len(),
                forall|t: int|
                    0 <= t < i ==> line_scratched(
                        old(self).lines@[t]@,
                        ws@,
                        (#[trigger] self.lines@[t])@,
                    ),
                forall|t: int|
                    i <= t < self.lines@.len() ==> (#[trigger] self.lines@[t]) == old(
                        self,
                    ).lines@[t],
                self.headers.0@.len() == old(self)@.headers.len(),
                ws@.len() == old(self)@.headers.len(),
                forall|t: int|
                    0 <= t < ws@.len() ==> (#[trigger] self.headers.0@[t])@ == (GridHeaderView {
                        max_len: Some(ws@[t]),
                        ..old(self).headers.0@[t]@
                    }),
                self.selected == old(self).selected,
                self.width == old(self).width,
            decreases self.lines@.len() - i,
        {
            let ghost gl = self.lines@[i as int]@;
            let mut line = GridLine(Vec::new());
            self.lines.set_and_swap(i, &mut line);
            let mut k: usize = 0;
            while k < line.0.len()
                invariant
                    k <= line.0@.len(),
                    line.0@.len() == gl.len(),
                    forall|t: int|
                        0 <= t < k ==> (#[trigger] line.0@[t])@ == if t < ws@.len() {
                            item_with_len(gl[t], ws@[t])
                        } else {
                            gl[t]
                        },
                    forall|t: int| k <= t < gl.len() ==> (#[trigger] line.0@[t])@ == gl[t],
                decreases line.0@.len() - k,
            {
                if k < ws.len() {
                    let mut it = GridItem::new(0, String::new());
                    line.0.set_and_swap(k, &mut it);
                    it.set_max_len(ws[k]);
                    line.0.set_and_swap(k, &mut it);
                }
                k += 1;
            }
            proof {
                assert(line_scratched(gl, ws@, line@)) by {
                    assert(forall|t: int| 0 <= t < line.0@.len()
                        ==> #[trigger] line@[t] == line.0@[t]@);
                }
            }
            self.lines.set_and_swap(i, &mut line);
            i += 1;
        }
        proof {
            assert forall|t: int| 0 <= t < ws@.len() implies self@.headers[t] == (GridHeaderView {
                max_len: Some(ws@[t]),
                ..old(self)@.headers[t]
            }) by {
                assert(self@.headers[t] == self.headers.0@[t]@);
                assert(old(self)@.headers[t] == old(self).headers.0@[t]@);
            }
            assert forall|t: int| 0 <= t < self@.lines.len() implies line_scratched(
                old(self)@.lines[t],
                ws@,
                #[trigger] self@.lines[t],
            ) by {
                assert(self@.lines[t] == self.lines@[t]@);
                assert(old(self)@.lines[t] == old(self).lines@[t]@);
            }
            assert(self@.selected == old(self)@.selected);
        }
        Ok(ws)
    }
}


/// A width cache that matches the per-column display widths sums to the
/// combined width of the registry.
proof fn lemma_cache_sum_widths(
    ws: Seq<usize>,
    cs: Seq<ColumnModel>,
    rows: Seq<Seq<CellModel>>,
    hi: int,
)
    requires
        0 <= hi,
        forall|j: int| 0 <= j < hi ==> (#[trigger] ws[j]) as int == display_width(cs, rows, j),
    ensures
        sum_upto(ws, hi) == width_total_upto(cs, rows, hi),
    decreases hi,
{
    if hi > 0 {
        lemma_cache_sum_widths(ws, cs, rows, hi - 1);
    }
}

/// A priority cache that matches the per-column priorities sums to the
/// combined priority of the registry.
proof fn lemma_cache_sum_prios(ps: Seq<usize>, cs: Seq<ColumnModel>, hi: int)
    requires
        0 <= hi,
        forall|j: int| 0 <= j < hi ==> (#[trigger] ps[j]) == cs[j].priority,
    ensures
        sum_upto(ps, hi) == prio_total_upto(cs, hi),
    decreases hi,
{
    if hi > 0 {
        lemma_cache_sum_prios(ps, cs, hi - 1);
    }
}


/// Writing the width scratch changes neither the columns nor the cells of
/// the model.
proof fn lemma_scratch_preserves_model(oldv: TTYGridView, ws: Seq<usize>, newv: TTYGridView)
    requires
        newv.headers.len() == oldv.headers.len(),
        ws.len() == oldv.headers.len(),
        forall|j: int|
            0 <= j < ws.len() ==> (#[trigger] newv.headers[j]) == (GridHeaderView {
                max_len: Some(ws[j]),
                ..oldv.headers[j]
            }),
        newv.lines.len() == oldv.lines.len(),
        forall|i: int|
            0 <= i < newv.lines.len() ==> line_scratched(oldv.lines[i], ws, #[trigger] newv.lines[i]),
    ensures
        cols(newv.headers) == cols(oldv.headers),
        grid_cells(newv.lines) == grid_cells(oldv.lines),
{
    assert(cols(newv.headers) =~= cols(oldv.headers)) by {
        assert(forall|t: int| 0 <= t < newv.headers.len()
            ==> #[trigger] cols(newv.headers)[t] == newv.headers[t].col());
        assert(forall|t: int| 0 <= t < oldv.headers.len()
            ==> #[trigger] cols(oldv.headers)[t] == oldv.headers[t].col());
    }
    assert(grid_cells(newv.lines) =~= grid_cells(oldv.lines)) by {
        assert forall|i: int| 0 <= i < newv.lines.len() implies #[trigger] grid_cells(
            newv.lines,
        )[i] == grid_cells(oldv.lines)[i] by {
            assert(grid_cells(newv.lines)[i] == row_cells(newv.lines[i]));
            assert(grid_cells(oldv.lines)[i] == row_cells(oldv.lines[i]));
            assert(row_cells(newv.lines[i]) =~= row_cells(oldv.lines[i])) by {
                assert(forall|k: int| 0 <= k < newv.lines[i].len()
                    ==> #[trigger] row_cells(newv.lines[i])[k] == newv.lines[i][k].cell());
                assert(forall|k: int| 0 <= k < oldv.lines[i].len()
                    ==> #[trigger] row_cells(oldv.lines[i])[k] == oldv.lines[i][k].cell());
            }
        }
    }
}

impl TTYGrid {
    /// Computes the width cache and decides the selection for the current
    /// render: on success the chosen columns stand in the selection in
    /// registry order, each with its display position, and the cache is
    /// returned for the renderer.
    #[verifier::loop_isolation(false)]
    fn determine_headers(&mut self) -> (r: Result<Vec<usize>, GridError>)
        requires
            old(self).fits(),
        ensures
            match r {
                Ok(ws) => {
                    &&& !has_missing(old(self).columns().len() as int, old(self).cells())
                    &&& ws@ == widths_of(old(self).columns(), old(self).cells())
                    &&& grid_selection(old(self).columns(), old(self).cells(), old(self)@.width)
                        == Some(final(self)@.selected)
                    &&& ascending(final(self)@.selected)
                    &&& in_range(final(self)@.selected, old(self)@.headers.len() as int)
                    &&& sel_sum(ws@, final(self)@.selected) <= old(self)@.width
                    &&& final(self).columns() == old(self).columns()
                    &&& final(self).cells() == old(self).cells()
                    &&& final(self)@.width == old(self)@.width
                    &&& final(self)@.headers.len() == old(self)@.headers.len()
                    &&& final(self)@.lines.len() == old(self)@.lines.len()
                    &&& forall|j: int|
                        0 <= j < ws@.len() ==> (#[trigger] final(self)@.headers[j]).max_len
                            == Some(ws@[j])
                },
                Err(e) => {
                    &&& final(self).columns() == old(self).columns()
                    &&& final(self).cells() == old(self).cells()
                    &&& final(self)@.width == old(self)@.width
                    &&& e == GridError::MissingColumn || e == GridError::TerminalTooSmall
                    &&& e == GridError::MissingColumn ==> has_missing(
                        old(self).columns().len() as int,
                        old(self).cells(),
                    ) && final(self)@ == old(self)@
                    &&& e == GridError::TerminalTooSmall ==> {
                        &&& !has_missing(old(self).columns().len() as int, old(self).cells())
                        &&& grid_selection(
                            old(self).columns(),
                            old(self).cells(),
                            old(self)@.width,
                        ) == None::<Seq<usize>>
                        &&& final(self)@.selected =~= Seq::<usize>::empty()
                    }
                },
            },
    {
        let ghost gcols = old(self).columns();
        let ghost grows = old(self).cells();
        let ws = match self.set_grid_max_len() {
            Ok(ws) => ws,
            Err(e) => {
                return Err(e);
            },
        };
        proof {
            lemma_scratch_preserves_model(old(self)@, ws@, self@);
            assert(self.columns() == gcols);
            assert(self.cells() == grows);
        }
        let n = self.headers.len();
        proof {
            assert forall|t: int| 0 <= t < n implies (#[trigger] self.headers.0@[t])@.priority
                == gcols[t].priority by {
                assert(self@.headers[t] == self.headers.0@[t]@);
                assert(gcols[t] == cols(self@.headers)[t]);
                assert(cols(self@.headers)[t] == self@.headers[t].col());
            }
        }
        let mut prios: Vec<usize> = Vec::new();
        let mut j: usize = 0;
        while j < n
            invariant
                j <= n,
                n == self.headers.0@.len(),
                prios@.len() == j,
                forall|t: int| 0 <= t < j ==> (#[trigger] prios@[t]) == gcols[t].priority,
                gcols.len() == n,
                forall|t: int|
                    0 <= t < n ==> (#[trigger] self.headers.0@[t])@.priority == gcols[t].priority,
            decreases n - j,
        {
            prios.push(self.headers.0[j].priority());
            j += 1;
        }
        
        proof {
            assert(prios@ =~= prios_of(gcols));
            crate::widths::lemma_width_total_bounds(gcols, grows, gcols.len() as int);
            assert(ws@ =~= widths_of(gcols, grows));
            lemma_cache_sum_widths(ws@, gcols, grows, n as int);
            lemma_cache_sum_prios(prios@, gcols, n as int);
        }
        let sel = match select_columns(&ws, &prios, self.width) {
            Some(sel) => sel,
            None => {
                self.deselect_all_headers();
                proof {
                    assert(self.columns() == gcols);
                    assert(self.cells() == grows);
                }
                return Err(GridError::TerminalTooSmall);
            },
        };
        self.deselect_all_headers();
        let ghost mid = self@;
        let mut k: usize = 0;
        while k < sel.len()
            invariant
                k <= sel@.len(),
                self@.selected == sel@.take(k as int),
                self@.headers.len() == mid.headers.len(),
                mid.headers.len() == n,
                in_range(sel@, n as int),
                forall|t: int|
                    0 <= t < n ==> (#[trigger] self@.headers[t]).col() == mid.headers[t].col(),
                forall|t: int|
                    0 <= t < n ==> (#[trigger] self@.headers[t]).max_len == mid.headers[t].max_len,
                self@.lines == mid.lines,
                self@.width == mid.width,
            decreases sel@.len() - k,
        {
            let ghost prev = self@;
            self.select(sel[k], k);
            proof {
                assert(self@.selected =~= sel@.take(k + 1));
                assert forall|t: int| 0 <= t < n implies (#[trigger] self@.headers[t]).col()
                    == mid.headers[t].col() && self@.headers[t].max_len
                    == mid.headers[t].max_len by {
                    if t != sel@[k as int] as int {
                        assert(self@.headers[t] == prev.headers[t]);
                    }
                }
            }
            k += 1;
        }
        proof {
            assert(sel@.take(sel@.len() as int) =~= sel@);
            assert(self.columns() =~= gcols);
            assert(self.cells() =~= grows) by {
                assert(forall|i: int| 0 <= i < self@.lines.len()
                    ==> #[trigger] self.cells()[i] == row_cells(self@.lines[i]));
                assert(forall|i: int| 0 <= i < mid.lines.len()
                    ==> #[trigger] grid_cells(mid.lines)[i] == row_cells(mid.lines[i]));
                assert(forall|i: int| 0 <= i < grows.len() ==> {
                    &&& #[trigger] grows[i] == grid_cells(mid.lines)[i]
                });
            }
        }
        Ok(ws)
    }
}


/// The parts of a rendered grid: the header line, the separator line, and
/// one string per row. None of the parts carries its trailing newline, so a
/// caller that styles each part can still produce byte-identical text.
#[derive(Debug)]
pub struct GridText {
    pub header: String,
    pub delimiter: String,
    pub lines: Vec<String>,
}

impl TTYGrid {
    /// Renders the grid into its parts: recomputes widths, decides the
    /// selection, and builds the header line, the separator, and one line
    /// per row.
    #[verifier::loop_isolation(false)]
    pub fn render(&mut self) -> (r: Result<GridText, GridError>)
        requires
            old(self).fits(),
        ensures
            match r {
                Ok(t) => {
                    &&& !has_missing(old(self).columns().len() as int, old(self).cells())
                    &&& grid_selection(old(self).columns(), old(self).cells(), old(self)@.width)
                        == Some(final(self)@.selected)
                    &&& ascending(final(self)@.selected)
                    &&& in_range(final(self)@.selected, old(self)@.headers.len() as int)
                    &&& t.header@ == header_line(
                        old(self).columns(),
                        widths_of(old(self).columns(), old(self).cells()),
                        final(self)@.selected,
                    )
                    &&& t.delimiter@ == fill(old(self)@.width as int, '-')
                    &&& t.lines@.len() == old(self).cells().len()
                    &&& forall|i: int|
                        0 <= i < t.lines@.len() ==> (#[trigger] t.lines@[i])@ == row_line(
                            old(self).cells()[i],
                            widths_of(old(self).columns(), old(self).cells()),
                            final(self)@.selected,
                        )
                    &&& final(self).columns() == old(self).columns()
                    &&& final(self).cells() == old(self).cells()
                    &&& final(self)@.width == old(self)@.width
                },
                Err(e) => {
                    &&& final(self).columns() == old(self).columns()
                    &&& final(self).cells() == old(self).cells()
                    &&& final(self)@.width == old(self)@.width
                    &&& e == GridError::MissingColumn || e == GridError::TerminalTooSmall
                    &&& e == GridError::MissingColumn ==> has_missing(
                        old(self).columns().len() as int,
                        old(self).cells(),
                    ) && final(self)@ == old(self)@
                    &&& e == GridError::TerminalTooSmall ==> {
                        &&& !has_missing(old(self).columns().len() as int, old(self).cells())
                        &&& grid_selection(
                            old(self).columns(),
                            old(self).cells(),
                            old(self)@.width,
                        ) == None::<Seq<usize>>
                        &&& final(self)@.selected =~= Seq::<usize>::empty()
                    }
                },
            },
    {
        let ghost cs = old(self).columns();
        let ghost rows = old(self).cells();
        let ws = match self.determine_headers() {
            Ok(ws) => ws,
            Err(e) => {
                return Err(e);
            },
        };
        let ghost sel = self@.selected;
        proof {
            assert(crate::header::cols(self.headers@) == cs);
        }
        let header = build_header_line(&self.headers, &ws, &self.selected);
        let mut delimiter = String::new();
        push_dashes(&mut delimiter, self.width);
        let mut outlines: Vec<String> = Vec::new();
        let mut i: usize = 0;
        while i < self.lines.len()
            invariant
                i <= self.lines@.len(),
                outlines@.len() == i,
                forall|t: int|
                    0 <= t < i ==> (#[trigger] outlines@[t])@ == row_line(rows[t], ws@, sel),
            decreases self.lines@.len() - i,
        {
            let line = &self.lines[i];
            proof {
                assert(rows[i as int] == row_cells(line@)) by {
                    assert(self.cells()[i as int] == row_cells(self@.lines[i as int]));
                    assert(self@.lines[i as int] == self.lines@[i as int]@);
                }
                assert forall|k: int| 0 <= k < self.selected@.len() implies row_has_cell(
                    row_cells(line@),
                    (#[trigger] self.selected@[k]) as int,
                ) by {
                    let j = self.selected@[k] as int;
                    assert(all_rows_have(rows, j));
                    assert(row_has_cell(rows[i as int], j));
                }
            }
            let s = build_row_line(line, &ws, &self.selected);
            outlines.push(s);
            i += 1;
        }
        proof {
            assert(rows.len() == self.lines@.len()) by {
                assert(self.cells().len() == self@.lines.len());
            }
        }
        Ok(GridText { header, delimiter, lines: outlines })
    }

    /// Renders the grid to a single string: the header line, the separator
    /// line, and one line per row, each line ending in a newline.
    #[verifier::loop_isolation(false)]
    pub fn display(&mut self) -> (r: Result<String, GridError>)
        requires
            old(self).fits(),
        ensures
            match r {
                Ok(s) => {
                    &&& !has_missing(old(self).columns().len() as int, old(self).cells())
                    &&& grid_selection(old(self).columns(), old(self).cells(), old(self)@.width)
                        == Some(final(self)@.selected)
                    &&& ascending(final(self)@.selected)
                    &&& s@ == grid_text(
                        old(self).columns(),
                        old(self).cells(),
                        final(self)@.selected,
                        old(self)@.width,
                    )
                    &&& final(self).columns() == old(self).columns()
                    &&& final(self).cells() == old(self).cells()
                    &&& final(self)@.width == old(self)@.width
                },
                Err(e) => {
                    &&& final(self).columns() == old(self).columns()
                    &&& final(self).cells() == old(self).cells()
                    &&& final(self)@.width == old(self)@.width
                    &&& e == GridError::MissingColumn || e == GridError::TerminalTooSmall
                    &&& e == GridError::MissingColumn ==> has_missing(
                        old(self).columns().len() as int,
                        old(self).cells(),
                    ) && final(self)@ == old(self)@
                    &&& e == GridError::TerminalTooSmall ==> {
                        &&& !has_missing(old(self).columns().len() as int, old(self).cells())
                        &&& grid_selection(
                            old(self).columns(),
                            old(self).cells(),
                            old(self)@.width,
                        ) == None::<Seq<usize>>
                        &&& final(self)@.selected =~= Seq::<usize>::empty()
                    }
                },
            },
    {
        let ghost cs = old(self).columns();
        let ghost rows = old(self).cells();
        let ghost width = old(self)@.width;
        let parts = match self.render() {
            Ok(t) => t,
            Err(e) => {
                return Err(e);
            },
        };
        let ghost sel = self@.selected;
        let ghost ws = widths_of(cs, rows);
        let mut out = parts.header;
        push_newline(&mut out);
        out.append(parts.delimiter.as_str());
        push_newline(&mut out);
        let ghost head = header_line(cs, ws, sel) + seq!['\n'] + fill(width as int, '-')
            + seq!['\n'];
        proof {
            assert(out@ =~= head + rows_text(rows, ws, sel, 0));
        }
        let mut i: usize = 0;
        while i < parts.lines.len()
            invariant
                i <= parts.lines@.len(),
                out@ == head + rows_text(rows, ws, sel, i as int),
            decreases parts.lines@.len() - i,
        {
            let li = &parts.lines[i];
            out.append(li.as_str());
            push_newline(&mut out);
            proof {
                assert(out@ =~= head + rows_text(rows, ws, sel, i + 1));
            }
            i += 1;
        }
        proof {
            assert(out@ =~= grid_text(cs, rows, sel, width));
        }
        Ok(out)
    }
}

/// Identical registry, rows and width budget always yield an identical
/// selection and identical rendered text: both are functions of the model
/// alone.
pub proof fn lemma_render_deterministic(a: &TTYGrid, b: &TTYGrid)
    requires
        a.columns() == b.columns(),
        a.cells() == b.cells(),
        a@.width == b@.width,
    ensures
        grid_selection(a.columns(), a.cells(), a@.width) == grid_selection(
            b.columns(),
            b.cells(),
            b@.width,
        ),
        match grid_selection(a.columns(), a.cells(), a@.width) {
            Some(sel) => grid_text(a.columns(), a.cells(), sel, a@.width) == grid_text(
                b.columns(),
                b.cells(),
                sel,
                b@.width,
            ),
            None => true,
        },
{
}

/// When the whole registry fits the width budget, the selection is every
/// column, in original order.
pub proof fn lemma_grid_fits_all(cs: Seq<ColumnModel>, rows: Seq<Seq<CellModel>>, width: usize)
    requires
        cs.len() <= usize::MAX,
        width_total(cs, rows) <= width,
    ensures
        grid_selection(cs, rows, width) == Some(prefix_sel(cs.len() as int)),
{
    let n = cs.len() as int;
    crate::widths::lemma_width_total_bounds(cs, rows, n);
    assert(forall|j: int|
        0 <= j < n ==> (#[trigger] widths_of(cs, rows)[j]) as int == display_width(cs, rows, j));
    lemma_cache_sum_widths(widths_of(cs, rows), cs, rows, n);
    crate::select::lemma_select_fits_all(widths_of(cs, rows), prios_of(cs), width);
}

/// Whenever selection succeeds, the chosen columns are a sub-sequence of the
/// registry in original declared order, and their combined display width
/// fits the width budget.
pub proof fn lemma_grid_selection_sound(cs: Seq<ColumnModel>, rows: Seq<Seq<CellModel>>, width: usize)
    requires
        cs.len() <= usize::MAX,
        width_total(cs, rows) <= usize::MAX,
    ensures
        match grid_selection(cs, rows, width) {
            Some(sel) => {
                &&& ascending(sel)
                &&& in_range(sel, cs.len() as int)
                &&& sel_sum(widths_of(cs, rows), sel) <= width
            },
            None => true,
        },
{
    let n = cs.len() as int;
    crate::widths::lemma_width_total_bounds(cs, rows, n);
    assert(forall|j: int|
        0 <= j < n ==> (#[trigger] widths_of(cs, rows)[j]) as int == display_width(cs, rows, j));
    crate::select::lemma_select_budget_and_order(widths_of(cs, rows), prios_of(cs), width);
}

/// When every column's display width alone exceeds the width budget — in
/// particular the single highest-priority column's — selection fails and the
/// render reports that the terminal is too small.
pub proof fn lemma_grid_infeasible(cs: Seq<ColumnModel>, rows: Seq<Seq<CellModel>>, width: usize)
    requires
        0 < cs.len() <= usize::MAX,
        forall|j: int| 0 <= j < cs.len() ==> #[trigger] display_width(cs, rows, j) <= usize::MAX,
        forall|j: int| 0 <= j < cs.len() ==> #[trigger] display_width(cs, rows, j) > width,
    ensures
        grid_selection(cs, rows, width) == None::<Seq<usize>>,
{
    let n = cs.len() as int;
    crate::widths::lemma_width_total_bounds(cs, rows, n);
    assert(forall|j: int|
        0 <= j < n ==> (#[trigger] widths_of(cs, rows)[j]) as int == display_width(cs, rows, j));
    crate::select::lemma_select_infeasible(widths_of(cs, rows), prios_of(cs), width);
}

} // verus!
