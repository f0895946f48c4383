use vstd::prelude::*;
use vstd::string::StrSliceExecFns;
use vstd::string::StringExecFns;
use crate::header::{cols, ColumnModel, HeaderList};
use crate::line::{row_cells, CellModel, GridLine};
use crate::select::in_range;
use crate::widths::{cell_pos, find_cell, row_has_cell, widths_of};

verus! {

/// `n` copies of the character `c`.
pub open spec fn fill(n: int, c: char) -> Seq<char>
    decreases n,
{
    if n <= 0 {
        Seq::empty()
    } else {
        fill(n - 1, c).push(c)
    }
}

/// `s` left-aligned in a field of `w` columns: padded with spaces on the
/// right, and never truncated when it is already wider.
pub open spec fn pad_to(s: Seq<char>, w: int) -> Seq<char> {
    if s.len() >= w {
        s
    } else {
        s + fill(w - s.len(), ' ')
    }
}

/// The header line: each selected column's caption, in selection order,
/// padded to that column's display width.
pub open spec fn header_line(cs: Seq<ColumnModel>, ws: Seq<usize>, sel: Seq<usize>) -> Seq<char>
    decreases sel.len(),
{
    if sel.len() == 0 {
        Seq::empty()
    } else {
        header_line(cs, ws, sel.drop_last()) + pad_to(
            cs[sel.last() as int].text,
            ws[sel.last() as int] as int,
        )
    }
}

/// One rendered row: the row's cell for each selected column, in selection
/// order, padded to that column's display width.
pub open spec fn row_line(row: Seq<CellModel>, ws: Seq<usize>, sel: Seq<usize>) -> Seq<char>
    decreases sel.len(),
{
    if sel.len() == 0 {
        Seq::empty()
    } else {
        row_line(row, ws, sel.drop_last()) + pad_to(
            row[cell_pos(row, sel.last() as int)].contents,
            ws[sel.last() as int] as int,
        )
    }
}

/// The first `upto` rendered rows, each followed by a newline.
pub open spec fn rows_text(
    rows: Seq<Seq<CellModel>>,
    ws: Seq<usize>,
    sel: Seq<usize>,
    upto: int,
) -> Seq<char>
    decreases upto,
{
    if upto <= 0 {
        Seq::empty()
    } else {
        rows_text(rows, ws, sel, upto - 1) + row_line(rows[upto - 1], ws, sel) + seq!['\n']
    }
}

/// The full rendered grid: the header line, a separator of `width` fill
/// characters, and one line per row, each line ending in a newline.
pub open spec fn grid_text(
    cs: Seq<ColumnModel>,
    rows: Seq<Seq<CellModel>>,
    sel: Seq<usize>,
    width: usize,
) -> Seq<char> {
    let ws = widths_of(cs, rows);
    header_line(cs, ws, sel) + seq!['\n'] + fill(width as int, '-') + seq!['\n'] + rows_text(
        rows,
        ws,
        sel,
        rows.len() as int,
    )
}

/// Appends `n` spaces.
#[verifier::loop_isolation(false)]
fn push_spaces(out: &mut String, n: usize)
    ensures
        final(out)@ == old(out)@ + fill(n as int, ' '),
{
    let mut i: usize = 0;
    while i < n
        invariant
            i <= n,
            out@ == old(out)@ + fill(i as int, ' '),
        decreases n - i,
    {
        out.append(" ");
        proof {
            reveal_strlit(" ");
            assert(" "@ =~= seq![' ']);
            assert(out@ =~= old(out)@ + fill(i + 1, ' '));
        }
        i += 1;
    }
}

/// Appends `n` separator dashes.
#[verifier::loop_isolation(false)]
pub(crate) fn push_dashes(out: &mut String, n: usize)
    ensures
        final(out)@ == old(out)@ + fill(n as int, '-'),
{
    let mut i: usize = 0;
    while i < n
        invariant
            i <= n,
            out@ == old(out)@ + fill(i as int, '-'),
        decreases n - i,
    {
        out.append("-");
        proof {
            reveal_strlit("-");
            assert("-"@ =~= seq!['-']);
            assert(out@ =~= old(out)@ + fill(i + 1, '-'));
        }
        i += 1;
    }
}

/// Appends a newline.
pub(crate) fn push_newline(out: &mut String)
    ensures
        final(out)@ == old(out)@ + seq!['\n'],
{
    out.append("\n");
    proof {
        reveal_strlit("\n");
        assert("\n"@ =~= seq!['\n']);
        assert(out@ =~= old(out)@ + seq!['\n']);
    }
}

/// Appends `s` left-aligned in a field of `w` columns.
fn push_padded(out: &mut String, s: &str, w: usize)
    ensures
        final(out)@ == old(out)@ + pad_to(s@, w as int),
{
    let l = s.unicode_len();
    out.append(s);
    if l < w {
        push_spaces(out, w - l);
        proof {
            assert(final(out)@ =~= old(out)@ + pad_to(s@, w as int));
        }
    }
}

/// Builds the header line for the selected columns.
#[verifier::loop_isolation(false)]
pub(crate) fn build_header_line(headers: &HeaderList, widths: &Vec<usize>, sel: &Vec<usize>) -> (r:
    String)
    requires
        widths@.len() == headers@.len(),
        in_range(sel@, headers@.len() as int),
    ensures
        r@ == header_line(cols(headers@), widths@, sel@),
{
    let ghost cs = cols(headers@);
    let mut out = String::new();
    let mut k: usize = 0;
    while k < sel.len()
        invariant
            k <= sel.len(),
            out@ == header_line(cs, widths@, sel@.take(k as int)),
        decreases sel.len() - k,
    {
        let j = sel[k];
        proof {
            assert(cs[j as int] == headers@[j as int].col());
        }
        push_padded(&mut out, headers.0[j].text(), widths[j]);
        proof {
            assert(sel@.take(k + 1).drop_last() =~= sel@.take(k as int));
            assert(sel@.take(k + 1).last() == sel@[k as int]);
            assert(out@ == header_line(cs, widths@, sel@.take(k + 1)));
        }
        k += 1;
    }
    proof {
        assert(sel@.take(sel@.len() as int) =~= sel@);
    }
    out
}

/// Builds one rendered row for the selected columns.
#[verifier::loop_isolation(false)]
pub(crate) fn build_row_line(line: &GridLine, widths: &Vec<usize>, sel: &Vec<usize>) -> (r: String)
    requires
        in_range(sel@, widths@.len() as int),
        forall|k: int|
            0 <= k < sel@.len() ==> row_has_cell(row_cells(line@), (#[trigger] sel@[k]) as int),
    ensures
        r@ == row_line(row_cells(line@), widths@, sel@),
{
    let ghost row = row_cells(line@);
    let mut out = String::new();
    let mut k: usize = 0;
    while k < sel.len()
        invariant
            k <= sel.len(),
            out@ == row_line(row, widths@, sel@.take(k as int)),
        decreases sel.len() - k,
    {
        let j = sel[k];
        match find_cell(line, j) {
            Some(p) => {
                proof {
                    assert(forall|t: int| 0 <= t < line@.len()
                        ==> #[trigger] row[t] == line@[t].cell());
                    assert(forall|t: int| 0 <= t < line.0@.len()
                        ==> #[trigger] line@[t] == line.0@[t]@);
                    assert(row[p as int].contents == line.0@[p as int]@.contents);
                }
                push_padded(&mut out, line.0[p].contents(), widths[j]);
            },
            None => {
                proof {
                    assert(false);
                }
            },
        }
        proof {
            assert(sel@.take(k + 1).drop_last() =~= sel@.take(k as int));
            assert(sel@.take(k + 1).last() == sel@[k as int]);
            assert(out@ == row_line(row, widths@, sel@.take(k + 1)));
        }
        k += 1;
    }
    proof {
        assert(sel@.take(sel@.len() as int) =~= sel@);
    }
    out
}

} // verus!
