use vstd::prelude::*;
use vstd::math::max;
use vstd::string::StrSliceExecFns;
use crate::error::GridError;
use crate::header::{cols, ColumnModel, GridHeader, HeaderList};
use crate::line::{rows_of, CellModel, GridLine};

verus! {

/// The position of the first cell of column `j` in a row, or `-1` when the
/// row carries no cell for that column.
pub open spec fn cell_pos(row: Seq<CellModel>, j: int) -> int
    decreases row.len(),
{
    if row.len() == 0 {
        -1
    } else if row[0].header as int == j {
        0
    } else {
        let rest = cell_pos(row.drop_first(), j);
        if rest == -1 {
            -1
        } else {
            rest + 1
        }
    }
}

/// True when the row carries a cell for column `j`.
pub open spec fn row_has_cell(row: Seq<CellModel>, j: int) -> bool {
    cell_pos(row, j) >= 0
}

/// The character count of the row's cell for column `j`.
pub open spec fn cell_len(row: Seq<CellModel>, j: int) -> int {
    row[cell_pos(row, j)].contents.len() as int
}

/// True when every row carries a cell for column `j`.
pub open spec fn all_rows_have(rows: Seq<Seq<CellModel>>, j: int) -> bool {
    forall|i: int| 0 <= i < rows.len() ==> #[trigger] row_has_cell(rows[i], j)
}

/// True when some row lacks a cell for one of the first `n` columns.
pub open spec fn has_missing(n: int, rows: Seq<Seq<CellModel>>) -> bool {
    exists|j: int| 0 <= j < n && !(#[trigger] all_rows_have(rows, j))
}

/// The raw width of column `j`: the maximum over all rows of that column's
/// cell width, a cell's width being its character count plus one unit of
/// trailing separator. Zero when there are no rows.
pub open spec fn raw_width(rows: Seq<Seq<CellModel>>, j: int) -> int
    decreases rows.len(),
{
    if rows.len() == 0 {
        0
    } else {
        max(raw_width(rows.drop_last(), j), cell_len(rows.last(), j) + 1)
    }
}

/// The display width of a column described by `c`: its raw width, plus the
/// column's padding, plus a fixed minimum separator of two. With no rows the
/// caption's character count stands in for the raw width, so an empty table
/// still shows every caption followed by at least two blank columns.
pub open spec fn col_width(c: ColumnModel, rows: Seq<Seq<CellModel>>, j: int) -> int {
    let base = if rows.len() == 0 {
        c.text.len() as int
    } else {
        raw_width(rows, j)
    };
    base + c.pad + 2
}

/// The display width of column `j` of the registry described by `cs`.
pub open spec fn display_width(cs: Seq<ColumnModel>, rows: Seq<Seq<CellModel>>, j: int) -> int {
    col_width(cs[j], rows, j)
}

/// The combined display width of the first `hi` columns.
pub open spec fn width_total_upto(cs: Seq<ColumnModel>, rows: Seq<Seq<CellModel>>, hi: int) -> int
    decreases hi,
{
    if hi <= 0 {
        0
    } else {
        width_total_upto(cs, rows, hi - 1) + display_width(cs, rows, hi - 1)
    }
}

/// The combined display width of the whole registry.
pub open spec fn width_total(cs: Seq<ColumnModel>, rows: Seq<Seq<CellModel>>) -> int {
    width_total_upto(cs, rows, cs.len() as int)
}

/// The combined priority of the first `hi` columns.
pub open spec fn prio_total_upto(cs: Seq<ColumnModel>, hi: int) -> int
    decreases hi,
{
    if hi <= 0 {
        0
    } else {
        prio_total_upto(cs, hi - 1) + cs[hi - 1].priority
    }
}

/// The combined priority of the whole registry.
pub open spec fn prio_total(cs: Seq<ColumnModel>) -> int {
    prio_total_upto(cs, cs.len() as int)
}

/// The display widths of every column, derived from registry and rows.
pub open spec fn widths_of(cs: Seq<ColumnModel>, rows: Seq<Seq<CellModel>>) -> Seq<usize> {
    Seq::new(cs.len(), |j: int| display_width(cs, rows, j) as usize)
}

/// The priorities of every column, in declaration order.
pub open spec fn prios_of(cs: Seq<ColumnModel>) -> Seq<usize> {
    Seq::new(cs.len(), |j: int| cs[j].priority)
}

/// Every column's display width is nonnegative and bounded by the combined
/// width of the first `hi` columns.
pub proof fn lemma_width_total_bounds(cs: Seq<ColumnModel>, rows: Seq<Seq<CellModel>>, hi: int)
    requires
        0 <= hi <= cs.len(),
    ensures
        width_total_upto(cs, rows, hi) >= 0,
        forall|j: int| 0 <= j < hi ==> display_width(cs, rows, j) <= width_total_upto(cs, rows, hi),
        forall|j: int| 0 <= j < hi ==> display_width(cs, rows, j) >= 0,
    decreases hi,
{
    if hi > 0 {
        lemma_width_total_bounds(cs, rows, hi - 1);
        lemma_raw_width_nonneg(rows, hi - 1);
    }
}

/// `cell_pos` finds the first cell of column `j`: a nonnegative result is in
/// range, names a cell of that column and is preceded by no such cell; a
/// negative result means the row holds no such cell.
pub proof fn lemma_cell_pos(row: Seq<CellModel>, j: int)
    ensures
        cell_pos(row, j) == -1 || 0 <= cell_pos(row, j) < row.len(),
        row_has_cell(row, j) ==> {
            let p = cell_pos(row, j);
            &&& 0 <= p < row.len()
            &&& row[p].header as int == j
            &&& forall|t: int| 0 <= t < p ==> (#[trigger] row[t].header) as int != j
        },
        !row_has_cell(row, j) ==> forall|t: int|
            0 <= t < row.len() ==> (#[trigger] row[t].header) as int != j,
    decreases row.len(),
{
    if row.len() == 0 {
    } else if row[0].header as int == j {
    } else {
        let rest = row.drop_first();
        lemma_cell_pos(rest, j);
        assert(forall|t: int| 0 <= t < rest.len() ==> #[trigger] rest[t] == row[t + 1]);
        if cell_pos(rest, j) != -1 {
            let p = cell_pos(rest, j) + 1;
            assert(cell_pos(row, j) == p);
            assert(rest[p - 1] == row[p]);
            assert forall|t: int| 0 <= t < p implies (#[trigger] row[t].header) as int != j by {
                if t > 0 {
                    assert(rest[t - 1] == row[t]);
                }
            }
        } else {
            assert(cell_pos(row, j) == -1);
            assert forall|t: int| 0 <= t < row.len() implies (#[trigger] row[t].header) as int
                != j by {
                if t > 0 {
                    assert(rest[t - 1] == row[t]);
                }
            }
        }
    }
}

/// The raw width of a column is never negative.
pub proof fn lemma_raw_width_nonneg(rows: Seq<Seq<CellModel>>, j: int)
    ensures
        raw_width(rows, j) >= 0,
    decreases rows.len(),
{
    if rows.len() > 0 {
        lemma_raw_width_nonneg(rows.drop_last(), j);
    }
}

/// Finds the position of the row's first cell for column `j`, scanning in
/// cell order.
#[verifier::loop_isolation(false)]
pub(crate) fn find_cell(line: &GridLine, j: usize) -> (r: Option<usize>)
    ensures
        match r {
            Some(k) => {
                &&& row_has_cell(crate::line::row_cells(line@), j as int)
                &&& cell_pos(crate::line::row_cells(line@), j as int) == k as int
                &&& k < line.0@.len()
            },
            None => !row_has_cell(crate::line::row_cells(line@), j as int),
        },
{
    let ghost row = crate::line::row_cells(line@);
    proof {
        assert(row.len() == line.0@.len());
        assert(forall|t: int| 0 <= t < line@.len() ==> #[trigger] row[t] == line@[t].cell());
        assert(forall|t: int| 0 <= t < line.0@.len() ==> #[trigger] line@[t] == line.0@[t]@);
    }
    let mut k: usize = 0;
    while k < line.0.len()
        invariant
            k <= line.0.len(),
            forall|t: int| 0 <= t < k ==> (#[trigger] row[t].header) as int != j,
        decreases line.0.len() - k,
    {
        if line.0[k].header() == j {
            proof {
                assert(row[k as int].header as int == j);
                lemma_cell_pos(row, j as int);
                assert(row_has_cell(row, j as int));
                let p = cell_pos(row, j as int);
                assert(0 <= p < row.len());
                if p < k as int {
                    assert(row[p].header as int != j);
                }
                if p > k as int {
                    assert(row[k as int].header as int != j);
                }
                assert(p == k as int);
            }
            return Some(k);
        }
        k += 1;
    }
    proof {
        lemma_cell_pos(row, j as int);
        if row_has_cell(row, j as int) {
            let p = cell_pos(row, j as int);
            assert(row[p].header as int != j);
        }
    }
    None
}

/// Computes the display width of column `j` from its descriptor and the
/// accumulated rows, or reports the first row that lacks a cell for it.
#[verifier::loop_isolation(false)]
pub(crate) fn max_len_for_column(header: &GridHeader, lines: &Vec<GridLine>, j: usize) -> (r: Result<
    usize,
    GridError,
>)
    requires
        all_rows_have(rows_of(lines@), j as int) ==> col_width(
            header@.col(),
            rows_of(lines@),
            j as int,
        ) <= usize::MAX,
    ensures
        match r {
            Ok(w) => all_rows_have(rows_of(lines@), j as int) && w == col_width(
                header@.col(),
                rows_of(lines@),
                j as int,
            ),
            Err(e) => e == GridError::MissingColumn && !all_rows_have(rows_of(lines@), j as int),
        },
{
    let ghost rows = rows_of(lines@);
    proof {
        assert(rows.len() == lines@.len());
    }
    let mut m: usize = 0;
    let mut i: usize = 0;
    while i < lines.len()
        invariant
            i <= lines.len(),
            forall|t: int| 0 <= t < i ==> #[trigger] row_has_cell(rows[t], j as int),
            i == 0 ==> m == 0,
            i > 0 ==> m + 1 == raw_width(rows.take(i as int), j as int),
        decreases lines.len() - i,
    {
        let line = &lines[i];
        proof {
            assert(rows[i as int] == crate::line::row_cells(line@));
            assert(forall|t: int| 0 <= t < line@.len()
                ==> #[trigger] rows[i as int][t] == line@[t].cell());
            assert(forall|t: int| 0 <= t < line.0@.len()
                ==> #[trigger] line@[t] == line.0@[t]@);
        }
        let fk = match find_cell(line, j) {
            Some(k) => k,
            None => {
                return Err(GridError::MissingColumn);
            },
        };
        let l = line.0[fk].contents().unicode_len();
        proof {
            assert(cell_len(rows[i as int], j as int) == l as int);
            assert(rows.take(i + 1).drop_last() =~= rows.take(i as int));
            assert(rows.take(i + 1).last() == rows[i as int]);
            if i > 0 {
                lemma_raw_width_nonneg(rows.take(i as int), j as int);
            }
        }
        if l > m {
            m = l;
        }
        proof {
            let t1 = rows.take(i + 1);
            assert(t1.len() == i + 1);
            assert(raw_width(t1, j as int) == max(
                raw_width(t1.drop_last(), j as int),
                cell_len(t1.last(), j as int) + 1,
            ));
            assert(t1.drop_last() =~= rows.take(i as int));
            assert(raw_width(t1.drop_last(), j as int) == raw_width(rows.take(i as int), j as int));
            assert(t1.last() == rows[i as int]);
            assert(cell_len(t1.last(), j as int) == l as int);
            assert(m + 1 == raw_width(rows.take(i + 1), j as int));
        }
        i += 1;
    }
    proof {
        assert(rows.take(rows.len() as int) =~= rows);
        assert(all_rows_have(rows, j as int));
    }
    let pad = header.pad();
    if lines.len() == 0 {
        let base = header.text().unicode_len();
        Ok(base + pad + 2)
    } else {
        Ok(m + 1 + pad + 2)
    }
}

/// Computes the display width of every registry column from the accumulated
/// rows — the per-render width cache — or reports a missing cell.
#[verifier::loop_isolation(false)]
pub(crate) fn map_lines(headers: &HeaderList, lines: &Vec<GridLine>) -> (r: Result<
    Vec<usize>,
    GridError,
>)
    requires
        forall|j: int|
            0 <= j < headers@.len() && all_rows_have(rows_of(lines@), j) ==> display_width(
                cols(headers@),
                rows_of(lines@),
                j,
            ) <= usize::MAX,
    ensures
        match r {
            Ok(ws) => {
                &&& ws@.len() == headers@.len()
                &&& forall|j: int|
                    0 <= j < ws@.len() ==> ws@[j] as int == display_width(
                        cols(headers@),
                        rows_of(lines@),
                        j,
                    )
                &&& !has_missing(headers@.len() as int, rows_of(lines@))
            },
            Err(e) => e == GridError::MissingColumn && has_missing(
                headers@.len() as int,
                rows_of(lines@),
            ),
        },
{
    let ghost cs = cols(headers@);
    let ghost rows = rows_of(lines@);
    let mut ws: Vec<usize> = Vec::new();
    let mut j: usize = 0;
    while j < headers.0.len()
        invariant
            j <= headers.0.len(),
            ws@.len() == j,
            forall|t: int| 0 <= t < j ==> ws@[t] as int == display_width(cs, rows, t),
            forall|t: int| 0 <= t < j ==> all_rows_have(rows, t),
        decreases headers.0.len() - j,
    {
        proof {
            assert(cs[j as int] == headers@[j as int].col());
        }
        match max_len_for_column(&headers.0[j], lines, j) {
            Ok(w) => {
                ws.push(w);
            },
            Err(e) => {
                proof {
                    assert(!all_rows_have(rows, j as int));
                    assert(has_missing(headers@.len() as int, rows));
                }
                return Err(e);
            },
        }
        j += 1;
    }
    proof {
        assert(!has_missing(headers@.len() as int, rows));
    }
    Ok(ws)
}

} // verus!
