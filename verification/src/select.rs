use vstd::prelude::*;

verus! {

/// True when the candidate lists registry positions in strictly increasing
/// order — that is, when it is a sub-sequence of the registry in original
/// declaration order.
pub open spec fn ascending(sel: Seq<usize>) -> bool {
    forall|a: int, b: int| 0 <= a < b < sel.len() ==> sel[a] < sel[b]
}

/// True when every candidate position indexes a registry of `n` columns.
pub open spec fn in_range(sel: Seq<usize>, n: int) -> bool {
    forall|k: int| 0 <= k < sel.len() ==> (#[trigger] sel[k]) < n
}

/// The sum of the cached per-column values at the candidate's positions.
pub open spec fn sel_sum(vals: Seq<usize>, sel: Seq<usize>) -> int
    decreases sel.len(),
{
    if sel.len() == 0 {
        0
    } else {
        sel_sum(vals, sel.drop_last()) + vals[sel.last() as int]
    }
}

/// The sum of the first `hi` cached values.
pub open spec fn sum_upto(vals: Seq<usize>, hi: int) -> int
    decreases hi,
{
    if hi <= 0 {
        0
    } else {
        sum_upto(vals, hi - 1) + vals[hi - 1]
    }
}

/// The candidate made of the first `l` registry positions.
pub open spec fn prefix_sel(l: int) -> Seq<usize> {
    Seq::new(l as nat, |i: int| i as usize)
}

/// The position, within the candidate, of the column with the lowest
/// priority; the earliest such position when several tie.
pub open spec fn lowest_prio_pos(ps: Seq<usize>, sel: Seq<usize>) -> int
    decreases sel.len(),
{
    if sel.len() <= 1 {
        0
    } else {
        let r = lowest_prio_pos(ps, sel.drop_first()) + 1;
        if ps[sel[0] as int] <= ps[sel[r] as int] {
            0
        } else {
            r
        }
    }
}

/// `lowest_prio_pos` names a candidate position whose column's priority is
/// minimal, and no earlier position reaches that minimum.
pub proof fn lemma_lowest_prio_pos(ps: Seq<usize>, sel: Seq<usize>)
    requires
        sel.len() > 0,
    ensures
        0 <= lowest_prio_pos(ps, sel) < sel.len(),
        forall|k: int|
            0 <= k < sel.len() ==> ps[sel[lowest_prio_pos(ps, sel)] as int] <= ps[(
            #[trigger] sel[k]) as int],
        forall|k: int|
            0 <= k < lowest_prio_pos(ps, sel) ==> ps[(#[trigger] sel[k]) as int] > ps[sel[
                lowest_prio_pos(ps, sel)] as int],
    decreases sel.len(),
{
    if sel.len() <= 1 {
    } else {
        let rest = sel.drop_first();
        lemma_lowest_prio_pos(ps, rest);
        assert(forall|t: int| 0 <= t < rest.len() ==> #[trigger] rest[t] == sel[t + 1]);
        let r = lowest_prio_pos(ps, rest) + 1;
        assert(rest[r - 1] == sel[r]);
        if ps[sel[0] as int] <= ps[sel[r] as int] {
            assert forall|k: int| 0 <= k < sel.len() implies ps[sel[0] as int] <= ps[(
            #[trigger] sel[k]) as int] by {
                if k > 0 {
                    assert(rest[k - 1] == sel[k]);
                }
            }
        } else {
            assert forall|k: int| 0 <= k < sel.len() implies ps[sel[r] as int] <= ps[(
            #[trigger] sel[k]) as int] by {
                if k > 0 {
                    assert(rest[k - 1] == sel[k]);
                }
            }
            assert forall|k: int| 0 <= k < r implies ps[(#[trigger] sel[k]) as int] > ps[sel[r] as int] by {
                if k > 0 {
                    assert(rest[k - 1] == sel[k]);
                }
            }
        }
    }
}

/// A candidate is shrunk by repeatedly dropping its lowest-priority column —
/// the earliest among ties — until the widths of the columns that remain fit
/// the budget. A candidate that cannot fit ends empty.
pub open spec fn shrink(ws: Seq<usize>, ps: Seq<usize>, budget: usize, sel: Seq<usize>) -> Seq<
    usize,
>
    decreases sel.len(),
    via shrink_decreases
{
    if sel_sum(ws, sel) <= budget {
        sel
    } else if sel.len() == 0 {
        sel
    } else {
        shrink(ws, ps, budget, sel.remove(lowest_prio_pos(ps, sel)))
    }
}

#[via_fn]
proof fn shrink_decreases(ws: Seq<usize>, ps: Seq<usize>, budget: usize, sel: Seq<usize>) {
    if !(sel_sum(ws, sel) <= budget) && sel.len() > 0 {
        lemma_lowest_prio_pos(ps, sel);
        sel.remove_ensures(lowest_prio_pos(ps, sel));
    }
}

/// The best shrunk prefix among prefix lengths `1..=l`: the one whose
/// surviving columns keep the most total priority, ties broken toward the
/// larger total width, remaining ties toward the longer prefix. `None` when
/// every prefix shrinks to nothing.
pub open spec fn best_from(ws: Seq<usize>, ps: Seq<usize>, budget: usize, l: int) -> Option<
    Seq<usize>,
>
    decreases l,
{
    if l <= 0 {
        None
    } else {
        let c = shrink(ws, ps, budget, prefix_sel(l));
        let rest = best_from(ws, ps, budget, l - 1);
        if c.len() == 0 {
            rest
        } else {
            match rest {
                None => Some(c),
                Some(b) => if sel_sum(ps, c) > sel_sum(ps, b) || (sel_sum(ps, c) == sel_sum(ps, b)
                    && sel_sum(ws, c) >= sel_sum(ws, b)) {
                    Some(c)
                } else {
                    Some(b)
                },
            }
        }
    }
}

/// The selection decision for per-column display widths `ws`, per-column
/// priorities `ps` and width budget `budget`: every column when the whole
/// registry fits, otherwise the best shrunk prefix, and `None` when no
/// nonempty candidate fits.
pub open spec fn spec_select(ws: Seq<usize>, ps: Seq<usize>, budget: usize) -> Option<Seq<usize>> {
    if sum_upto(ws, ws.len() as int) <= budget {
        Some(prefix_sel(ws.len() as int))
    } else {
        best_from(ws, ps, budget, ws.len() as int)
    }
}

/// A candidate sum is never negative.
pub proof fn lemma_sel_sum_nonneg(vals: Seq<usize>, sel: Seq<usize>)
    ensures
        sel_sum(vals, sel) >= 0,
    decreases sel.len(),
{
    if sel.len() > 0 {
        lemma_sel_sum_nonneg(vals, sel.drop_last());
    }
}

/// A prefix sum is never negative.
pub proof fn lemma_sum_upto_nonneg(vals: Seq<usize>, hi: int)
    ensures
        sum_upto(vals, hi) >= 0,
    decreases hi,
{
    if hi > 0 {
        lemma_sum_upto_nonneg(vals, hi - 1);
    }
}

/// Prefix sums grow with the prefix.
pub proof fn lemma_sum_upto_monotone(vals: Seq<usize>, a: int, b: int)
    requires
        a <= b,
    ensures
        sum_upto(vals, a) <= sum_upto(vals, b),
    decreases b - a,
{
    if a < b {
        lemma_sum_upto_monotone(vals, a, b - 1);
    }
}

/// Dropping the skipped values, a prefix sum covers any single value plus
/// everything after it.
pub proof fn lemma_sum_upto_skip(vals: Seq<usize>, lo: int, m: int)
    requires
        0 <= lo <= m,
    ensures
        sum_upto(vals, m + 1) >= sum_upto(vals, lo) + vals[m],
{
    lemma_sum_upto_monotone(vals, lo, m);
}

/// The sum over an ascending candidate with positions below `hi` is at most
/// the sum of the first `hi` values.
pub proof fn lemma_sel_sum_bound(vals: Seq<usize>, sel: Seq<usize>, hi: int)
    requires
        ascending(sel),
        in_range(sel, hi),
        hi >= 0,
    ensures
        sel_sum(vals, sel) <= sum_upto(vals, hi),
    decreases sel.len(),
{
    if sel.len() == 0 {
        lemma_sum_upto_nonneg(vals, hi);
    } else {
        let last = sel.last();
        let rest = sel.drop_last();
        assert(forall|t: int| 0 <= t < rest.len() ==> #[trigger] rest[t] == sel[t]);
        assert(in_range(rest, last as int));
        lemma_sel_sum_bound(vals, rest, last as int);
        lemma_sum_upto_skip(vals, last as int, last as int);
        lemma_sum_upto_monotone(vals, last as int + 1, hi);
    }
}

/// Summing a candidate prefix of the registry equals the prefix sum.
pub proof fn lemma_prefix_sel_sum(vals: Seq<usize>, l: int)
    requires
        0 <= l <= usize::MAX,
    ensures
        sel_sum(vals, prefix_sel(l)) == sum_upto(vals, l),
    decreases l,
{
    if l > 0 {
        assert(prefix_sel(l).drop_last() =~= prefix_sel(l - 1));
        assert(prefix_sel(l).last() == (l - 1) as usize);
        lemma_prefix_sel_sum(vals, l - 1);
    }
}

/// A candidate prefix is ascending and indexes the registry.
pub proof fn lemma_prefix_sel_props(l: int, n: int)
    requires
        0 <= l <= n,
        l <= usize::MAX,
    ensures
        ascending(prefix_sel(l)),
        in_range(prefix_sel(l), n),
        prefix_sel(l).len() == l,
{
}

/// Summing a longer piece of a candidate adds the next value.
pub proof fn lemma_sel_sum_take_step(vals: Seq<usize>, sel: Seq<usize>, k: int)
    requires
        0 <= k < sel.len(),
    ensures
        sel_sum(vals, sel.take(k + 1)) == sel_sum(vals, sel.take(k)) + vals[sel[k] as int],
{
    assert(sel.take(k + 1).drop_last() =~= sel.take(k));
    assert(sel.take(k + 1).last() == sel[k]);
}

/// A partial candidate sums to no more than the whole candidate.
pub proof fn lemma_sel_sum_take_le(vals: Seq<usize>, sel: Seq<usize>, m: int)
    requires
        0 <= m <= sel.len(),
    ensures
        sel_sum(vals, sel.take(m)) <= sel_sum(vals, sel),
    decreases sel.len() - m,
{
    if m == sel.len() {
        assert(sel.take(m) =~= sel);
    } else {
        lemma_sel_sum_take_step(vals, sel, m);
        lemma_sel_sum_take_le(vals, sel, m + 1);
    }
}

/// Removing a position keeps a candidate ascending and in range.
pub proof fn lemma_remove_props(sel: Seq<usize>, k: int, n: int)
    requires
        0 <= k < sel.len(),
        ascending(sel),
        in_range(sel, n),
    ensures
        ascending(sel.remove(k)),
        in_range(sel.remove(k), n),
        sel.remove(k).len() == sel.len() - 1,
{
    sel.remove_ensures(k);
    let s2 = sel.remove(k);
    assert forall|a: int, b: int| 0 <= a < b < s2.len() implies s2[a] < s2[b] by {
        if b < k {
            assert(s2[a] == sel[a] && s2[b] == sel[b]);
        } else if a >= k {
            assert(s2[a] == sel[a + 1] && s2[b] == sel[b + 1]);
        } else {
            assert(s2[a] == sel[a] && s2[b] == sel[b + 1]);
        }
    }
    assert forall|t: int| 0 <= t < s2.len() implies (#[trigger] s2[t]) < n by {
        if t < k {
            assert(s2[t] == sel[t]);
        } else {
            assert(s2[t] == sel[t + 1]);
        }
    }
}

/// What survives a shrink: an ascending, in-range candidate whose combined
/// width fits the budget.
pub proof fn lemma_shrink_props(ws: Seq<usize>, ps: Seq<usize>, budget: usize, sel: Seq<usize>)
    requires
        ascending(sel),
        in_range(sel, ws.len() as int),
    ensures
        ascending(shrink(ws, ps, budget, sel)),
        in_range(shrink(ws, ps, budget, sel), ws.len() as int),
        sel_sum(ws, shrink(ws, ps, budget, sel)) <= budget,
    decreases sel.len(),
{
    if sel_sum(ws, sel) <= budget {
    } else if sel.len() == 0 {
    } else {
        lemma_lowest_prio_pos(ps, sel);
        lemma_remove_props(sel, lowest_prio_pos(ps, sel), ws.len() as int);
        lemma_shrink_props(ws, ps, budget, sel.remove(lowest_prio_pos(ps, sel)));
    }
}

/// When every single column is already wider than the budget, a shrink
/// consumes the whole candidate.
pub proof fn lemma_shrink_empty_when_all_wide(
    ws: Seq<usize>,
    ps: Seq<usize>,
    budget: usize,
    sel: Seq<usize>,
)
    requires
        ascending(sel),
        in_range(sel, ws.len() as int),
        forall|j: int| 0 <= j < ws.len() ==> (#[trigger] ws[j]) > budget,
    ensures
        shrink(ws, ps, budget, sel).len() == 0,
    decreases sel.len(),
{
    if sel_sum(ws, sel) <= budget {
        if sel.len() > 0 {
            lemma_sel_sum_nonneg(ws, sel.drop_last());
            assert(ws[sel.last() as int] > budget);
            assert(false);
        }
    } else if sel.len() == 0 {
    } else {
        lemma_lowest_prio_pos(ps, sel);
        lemma_remove_props(sel, lowest_prio_pos(ps, sel), ws.len() as int);
        lemma_shrink_empty_when_all_wide(ws, ps, budget, sel.remove(lowest_prio_pos(ps, sel)));
    }
}

/// What the best shrunk prefix satisfies: when one exists it is a nonempty,
/// ascending, in-range candidate that fits the budget; none exists exactly
/// when every prefix shrinks to nothing.
pub proof fn lemma_best_from_props(ws: Seq<usize>, ps: Seq<usize>, budget: usize, l: int)
    requires
        l <= ws.len(),
        ws.len() <= usize::MAX,
    ensures
        match best_from(ws, ps, budget, l) {
            Some(b) => {
                &&& b.len() > 0
                &&& ascending(b)
                &&& in_range(b, ws.len() as int)
                &&& sel_sum(ws, b) <= budget
            },
            None => forall|t: int|
                1 <= t <= l ==> shrink(ws, ps, budget, #[trigger] prefix_sel(t)).len() == 0,
        },
    decreases l,
{
    if l <= 0 {
    } else {
        lemma_prefix_sel_props(l, ws.len() as int);
        lemma_shrink_props(ws, ps, budget, prefix_sel(l));
        lemma_best_from_props(ws, ps, budget, l - 1);
    }
}

/// When the whole registry fits the budget, the selection is every column in
/// original order.
pub proof fn lemma_select_fits_all(ws: Seq<usize>, ps: Seq<usize>, budget: usize)
    requires
        sum_upto(ws, ws.len() as int) <= budget,
        ws.len() <= usize::MAX,
    ensures
        spec_select(ws, ps, budget) == Some(prefix_sel(ws.len() as int)),
{
}

/// Whenever selection succeeds, the chosen columns are a sub-sequence of the
/// registry in original order and their combined width fits the budget.
pub proof fn lemma_select_budget_and_order(ws: Seq<usize>, ps: Seq<usize>, budget: usize)
    requires
        ws.len() <= usize::MAX,
    ensures
        match spec_select(ws, ps, budget) {
            Some(sel) => {
                &&& ascending(sel)
                &&& in_range(sel, ws.len() as int)
                &&& sel_sum(ws, sel) <= budget
            },
            None => true,
        },
{
    let n = ws.len() as int;
    if sum_upto(ws, n) <= budget {
        lemma_prefix_sel_props(n, n);
        lemma_prefix_sel_sum(ws, n);
    } else {
        lemma_best_from_props(ws, ps, budget, n);
    }
}

/// Helper for [`lemma_select_none_iff`]: no prefix up to `l` survives
/// exactly when every one of them shrinks to nothing.
proof fn lemma_best_from_none_iff(ws: Seq<usize>, ps: Seq<usize>, budget: usize, l: int)
    ensures
        best_from(ws, ps, budget, l) == None::<Seq<usize>> <==> forall|t: int|
            1 <= t <= l ==> shrink(ws, ps, budget, #[trigger] prefix_sel(t)).len() == 0,
    decreases l,
{
    if l > 0 {
        lemma_best_from_none_iff(ws, ps, budget, l - 1);
    }
}

/// Selection fails exactly when the whole registry exceeds the budget and
/// every registry prefix shrinks to nothing.
pub proof fn lemma_select_none_iff(ws: Seq<usize>, ps: Seq<usize>, budget: usize)
    ensures
        spec_select(ws, ps, budget) == None::<Seq<usize>> <==> (sum_upto(ws, ws.len() as int)
            > budget && forall|l: int|
            1 <= l <= ws.len() ==> shrink(ws, ps, budget, #[trigger] prefix_sel(l)).len() == 0),
{
    lemma_best_from_none_iff(ws, ps, budget, ws.len() as int);
}

/// When even each single column alone exceeds the budget — in particular the
/// highest-priority one — selection fails.
pub proof fn lemma_select_infeasible(ws: Seq<usize>, ps: Seq<usize>, budget: usize)
    requires
        0 < ws.len() <= usize::MAX,
        forall|j: int| 0 <= j < ws.len() ==> (#[trigger] ws[j]) > budget,
    ensures
        spec_select(ws, ps, budget) == None::<Seq<usize>>,
{
    let n = ws.len() as int;
    lemma_sum_upto_nonneg(ws, n - 1);
    assert(sum_upto(ws, n) > budget);
    lemma_select_infeasible_from(ws, ps, budget, n);
}

/// Helper for [`lemma_select_infeasible`]: no prefix survives when every
/// column is too wide.
proof fn lemma_select_infeasible_from(ws: Seq<usize>, ps: Seq<usize>, budget: usize, l: int)
    requires
        l <= ws.len(),
        ws.len() <= usize::MAX,
        forall|j: int| 0 <= j < ws.len() ==> (#[trigger] ws[j]) > budget,
    ensures
        best_from(ws, ps, budget, l) == None::<Seq<usize>>,
    decreases l,
{
    if l > 0 {
        lemma_prefix_sel_props(l, ws.len() as int);
        lemma_shrink_empty_when_all_wide(ws, ps, budget, prefix_sel(l));
        lemma_select_infeasible_from(ws, ps, budget, l - 1);
    }
}


/// Totals the cached per-column values over a candidate subset — the
/// combined display width of a candidate when given the width cache, or its
/// combined priority when given the priorities.
#[verifier::loop_isolation(false)]
pub(crate) fn max_len_for_headers(vals: &Vec<usize>, sel: &Vec<usize>) -> (r: usize)
    requires
        in_range(sel@, vals@.len() as int),
        sel_sum(vals@, sel@) <= usize::MAX,
    ensures
        r == sel_sum(vals@, sel@),
{
    let mut acc: usize = 0;
    let mut k: usize = 0;
    while k < sel.len()
        invariant
            k <= sel.len(),
            acc == sel_sum(vals@, sel@.take(k as int)),
        decreases sel.len() - k,
    {
        proof {
            lemma_sel_sum_take_step(vals@, sel@, k as int);
            lemma_sel_sum_take_le(vals@, sel@, k + 1);
        }
        acc = acc + vals[sel[k]];
        k += 1;
    }
    proof {
        assert(sel@.take(sel@.len() as int) =~= sel@);
    }
    acc
}

/// Finds the candidate position holding the lowest-priority column, taking
/// the earliest position when several tie.
#[verifier::loop_isolation(false)]
fn lowest_prio_of(prios: &Vec<usize>, cand: &Vec<usize>) -> (r: usize)
    requires
        cand@.len() > 0,
        in_range(cand@, prios@.len() as int),
    ensures
        r as int == lowest_prio_pos(prios@, cand@),
{
    let mut best: usize = 0;
    let mut k: usize = 1;
    while k < cand.len()
        invariant
            1 <= k <= cand.len(),
            best < k,
            forall|t: int|
                0 <= t < k ==> prios@[cand@[best as int] as int] <= prios@[(
                #[trigger] cand@[t]) as int],
            forall|t: int|
                0 <= t < best ==> prios@[(#[trigger] cand@[t]) as int] > prios@[cand@[best as int] as int],
        decreases cand.len() - k,
    {
        if prios[cand[k]] < prios[cand[best]] {
            best = k;
        }
        k += 1;
    }
    proof {
        lemma_lowest_prio_pos(prios@, cand@);
        let p = lowest_prio_pos(prios@, cand@);
        if p < best as int {
            assert(prios@[cand@[p] as int] > prios@[cand@[best as int] as int]);
            assert(prios@[cand@[p] as int] <= prios@[cand@[best as int] as int]);
        }
        if p > best as int {
            assert(prios@[cand@[best as int] as int] > prios@[cand@[p] as int]);
            assert(prios@[cand@[best as int] as int] <= prios@[cand@[p] as int]);
        }
    }
    best
}

/// Shrinks a candidate in place: while its combined width exceeds the
/// budget, the lowest-priority column — the earliest among ties — is
/// dropped.
#[verifier::loop_isolation(false)]
fn shrink_candidate(widths: &Vec<usize>, prios: &Vec<usize>, budget: usize, cand: Vec<usize>) -> (r:
    Vec<usize>)
    requires
        prios@.len() == widths@.len(),
        ascending(cand@),
        in_range(cand@, widths@.len() as int),
        sum_upto(widths@, widths@.len() as int) <= usize::MAX,
    ensures
        r@ == shrink(widths@, prios@, budget, cand@),
{
    let ghost orig = cand@;
    let mut cand = cand;
    proof {
        lemma_sel_sum_bound(widths@, cand@, widths@.len() as int);
    }
    let mut w = max_len_for_headers(widths, &cand);
    while w > budget
        invariant
            ascending(cand@),
            in_range(cand@, widths@.len() as int),
            w == sel_sum(widths@, cand@),
            shrink(widths@, prios@, budget, cand@) == shrink(widths@, prios@, budget, orig),
        decreases cand@.len(),
    {
        proof {
            if cand@.len() == 0 {
                assert(sel_sum(widths@, cand@) == 0);
            }
            assert(cand@.len() > 0);
            lemma_lowest_prio_pos(prios@, cand@);
        }
        let p = lowest_prio_of(prios, &cand);
        proof {
            lemma_remove_props(cand@, p as int, widths@.len() as int);
            lemma_sel_sum_bound(widths@, cand@.remove(p as int), widths@.len() as int);
        }
        cand.remove(p);
        w = max_len_for_headers(widths, &cand);
    }
    cand
}

/// Builds the candidate holding the first `l` registry positions.
#[verifier::loop_isolation(false)]
pub(crate) fn build_prefix(l: usize) -> (r: Vec<usize>)
    ensures
        r@ == prefix_sel(l as int),
{
    let mut out: Vec<usize> = Vec::new();
    let mut i: usize = 0;
    while i < l
        invariant
            i <= l,
            out@.len() == i,
            forall|t: int| 0 <= t < i ==> (#[trigger] out@[t]) == t as usize,
        decreases l - i,
    {
        out.push(i);
        i += 1;
    }
    proof {
        assert(out@ =~= prefix_sel(l as int));
    }
    out
}

/// Decides which columns to show. `widths` is the per-column display-width
/// cache, `prios` the per-column priorities, `budget` the width budget.
///
/// When the whole registry fits the budget, the result is every column in
/// declaration order. Otherwise every registry prefix is shrunk by dropping
/// lowest-priority columns until it fits, and the candidate keeping the most
/// total priority wins, ties broken toward the larger total width and then
/// toward the longer prefix. `None` means no nonempty candidate fits.
#[verifier::loop_isolation(false)]
pub fn select_columns(widths: &Vec<usize>, prios: &Vec<usize>, budget: usize) -> (r: Option<
    Vec<usize>,
>)
    requires
        widths@.len() == prios@.len(),
        sum_upto(widths@, widths@.len() as int) <= usize::MAX,
        sum_upto(prios@, prios@.len() as int) <= usize::MAX,
    ensures
        match r {
            Some(v) => {
                &&& spec_select(widths@, prios@, budget) == Some(v@)
                &&& ascending(v@)
                &&& in_range(v@, widths@.len() as int)
                &&& sel_sum(widths@, v@) <= budget
            },
            None => spec_select(widths@, prios@, budget) == None::<Seq<usize>>,
        },
{
    let n = widths.len();
    let all = build_prefix(n);
    proof {
        lemma_prefix_sel_props(n as int, n as int);
        lemma_prefix_sel_sum(widths@, n as int);
    }
    let total = max_len_for_headers(widths, &all);
    if total <= budget {
        return Some(all);
    }
    let mut best: Option<Vec<usize>> = None;
    let mut bp: usize = 0;
    let mut bw: usize = 0;
    let mut l: usize = 0;
    while l < n
        invariant
            l <= n,
            match best {
                None => best_from(widths@, prios@, budget, l as int) == None::<Seq<usize>>,
                Some(v) => {
                    &&& best_from(widths@, prios@, budget, l as int) == Some(v@)
                    &&& bp == sel_sum(prios@, v@)
                    &&& bw == sel_sum(widths@, v@)
                },
            },
        decreases n - l,
    {
        let lp = l + 1;
        proof {
            lemma_prefix_sel_props(lp as int, n as int);
        }
        let cand = shrink_candidate(widths, prios, budget, build_prefix(lp));
        proof {
            lemma_shrink_props(widths@, prios@, budget, prefix_sel(lp as int));
            lemma_sel_sum_bound(prios@, cand@, n as int);
            lemma_sel_sum_bound(widths@, cand@, n as int);
        }
        if cand.len() > 0 {
            let cp = max_len_for_headers(prios, &cand);
            let cw = max_len_for_headers(widths, &cand);
            let replace = match &best {
                None => true,
                Some(_) => cp > bp || (cp == bp && cw >= bw),
            };
            if replace {
                best = Some(cand);
                bp = cp;
                bw = cw;
            }
        }
        l += 1;
    }
    proof {
        lemma_best_from_props(widths@, prios@, budget, n as int);
    }
    best
}

} // verus!
