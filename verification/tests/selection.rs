use ttygrid::select_columns;

#[test]
fn select_all_when_fits() {
    let widths: Vec<usize> = vec![4, 8, 11];
    let prios: Vec<usize> = vec![0, 1, 2];
    assert_eq!(select_columns(&widths, &prios, 23), Some(vec![0, 1, 2]));
    assert_eq!(select_columns(&widths, &prios, 100), Some(vec![0, 1, 2]));
}

#[test]
fn shrink_keeps_highest_priority() {
    // Widths 4, 8, 11 with priorities 0, 1, 2 and budget 15: the full
    // prefix sheds `line` then `one`, and no other prefix keeps more
    // priority, so only the third column survives.
    let widths: Vec<usize> = vec![4, 8, 11];
    let prios: Vec<usize> = vec![0, 1, 2];
    assert_eq!(select_columns(&widths, &prios, 15), Some(vec![2]));
}

#[test]
fn infeasible_when_nothing_fits() {
    let widths: Vec<usize> = vec![4, 8, 11];
    let prios: Vec<usize> = vec![0, 1, 2];
    assert_eq!(select_columns(&widths, &prios, 3), None);
}

#[test]
fn priority_tie_prefers_longer_prefix() {
    // Both prefixes shrink to a single column of priority 1 and width 5;
    // the longer prefix wins the remaining tie, keeping the later column.
    let widths: Vec<usize> = vec![5, 5];
    let prios: Vec<usize> = vec![1, 1];
    assert_eq!(select_columns(&widths, &prios, 5), Some(vec![1]));
}

#[test]
fn width_tie_prefers_wider_candidate() {
    // Equal surviving priority; the candidate using more of the budget
    // (width 6 against width 5) wins.
    let widths: Vec<usize> = vec![6, 5];
    let prios: Vec<usize> = vec![1, 1];
    assert_eq!(select_columns(&widths, &prios, 6), Some(vec![0]));
}

#[test]
fn empty_registry_selects_nothing() {
    let widths: Vec<usize> = Vec::new();
    let prios: Vec<usize> = Vec::new();
    assert_eq!(select_columns(&widths, &prios, 10), Some(Vec::new()));
}

#[test]
fn zero_budget_fails_for_nonempty_column() {
    let widths: Vec<usize> = vec![2];
    let prios: Vec<usize> = vec![0];
    assert_eq!(select_columns(&widths, &prios, 0), None);
}

#[test]
fn first_column_can_be_unreachable() {
    // The highest-priority column is too wide, and because it stands first
    // the later, smaller column is only reachable through prefixes that
    // still carry the wide one: the narrow second column wins alone.
    let widths: Vec<usize> = vec![100, 10];
    let prios: Vec<usize> = vec![5, 1];
    assert_eq!(select_columns(&widths, &prios, 20), None);
    // With the narrow column first, its one-column prefix fits.
    let widths2: Vec<usize> = vec![10, 100];
    let prios2: Vec<usize> = vec![1, 5];
    assert_eq!(select_columns(&widths2, &prios2, 20), Some(vec![0]));
}
