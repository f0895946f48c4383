use ttygrid::{GridError, GridHeader, GridItem, GridLine, TTYGrid};

fn demo_headers() -> Vec<GridHeader> {
    vec![
        GridHeader::default().set_text("line").set_priority(0).set_max_pad(0),
        GridHeader::default().set_text("one").set_priority(1).set_max_pad(2),
        GridHeader::default().set_text("two").set_priority(2).set_max_pad(2),
    ]
}

fn demo_row() -> GridLine {
    GridLine(vec![
        GridItem::new(0, String::from("0")),
        GridItem::new(1, String::from("abc")),
        GridItem::new(2, String::from("abcdef")),
    ])
}

#[test]
fn full_fit_renders_all_columns() {
    // Display widths: line = 1+1+0+2 = 4, one = 3+1+2+2 = 8,
    // two = 6+1+2+2 = 11; total 23 fits the budget exactly.
    let mut grid = TTYGrid::new(demo_headers(), 23);
    grid.add_line(demo_row()).unwrap();
    let text = grid.display().unwrap();
    let expected = format!(
        "line{}two        \n{}\n0   abc     abcdef     \n",
        "one     ",
        "-".repeat(23)
    );
    assert_eq!(text, expected);
    assert!(grid.is_selected(0));
    assert!(grid.is_selected(1));
    assert!(grid.is_selected(2));
}

#[test]
fn narrow_budget_keeps_only_highest_priority() {
    // With budget 15 the full prefix sheds `line` (priority 0) and then
    // `one` (priority 1); only `two` (width 11) survives.
    let mut grid = TTYGrid::new(demo_headers(), 15);
    grid.add_line(demo_row()).unwrap();
    let text = grid.display().unwrap();
    let expected = format!("two        \n{}\nabcdef     \n", "-".repeat(15));
    assert_eq!(text, expected);
    assert!(!grid.is_selected(0));
    assert!(!grid.is_selected(1));
    assert!(grid.is_selected(2));
}

#[test]
fn too_small_terminal_reports_error() {
    // Even the single widest-priority column (width 11) exceeds budget 3.
    let mut grid = TTYGrid::new(demo_headers(), 3);
    grid.add_line(demo_row()).unwrap();
    assert_eq!(grid.display(), Err(GridError::TerminalTooSmall));
}

#[test]
fn empty_rows_use_caption_width() {
    // With no rows, a column's width falls back to its caption length plus
    // padding plus the fixed separator of two: "name" renders in width 6.
    let headers = vec![GridHeader::default().set_text("name").set_max_pad(0)];
    let mut grid = TTYGrid::new(headers, 80);
    let text = grid.display().unwrap();
    let expected = format!("name  \n{}\n", "-".repeat(80));
    assert_eq!(text, expected);
}

#[test]
fn arity_mismatch_rejected_and_rows_unchanged() {
    let mut grid = TTYGrid::new(demo_headers(), 80);
    let short_row = GridLine(vec![
        GridItem::new(0, String::from("a")),
        GridItem::new(1, String::from("b")),
    ]);
    assert_eq!(grid.add_line(short_row), Err(GridError::RowArityMismatch));
    assert_eq!(grid.line_count(), 0);
    assert!(grid.add_line(demo_row()).is_ok());
    assert_eq!(grid.line_count(), 1);
}

#[test]
fn identical_inputs_render_identically() {
    let mut a = TTYGrid::new(demo_headers(), 15);
    a.add_line(demo_row()).unwrap();
    let mut b = TTYGrid::new(demo_headers(), 15);
    b.add_line(demo_row()).unwrap();
    let ta = a.display().unwrap();
    let tb = b.display().unwrap();
    assert_eq!(ta, tb);
    // A second render of the same grid yields the same text again.
    assert_eq!(a.display().unwrap(), ta);
}

#[test]
fn missing_column_surfaces_as_error() {
    // A row with the right cell count but a cell pointing at a column that
    // does not exist leaves the first column without a cell.
    let headers = vec![GridHeader::default().set_text("only")];
    let mut grid = TTYGrid::new(headers, 80);
    grid.add_line(GridLine(vec![GridItem::new(5, String::from("x"))])).unwrap();
    assert_eq!(grid.display(), Err(GridError::MissingColumn));
}

#[test]
fn render_exposes_parts() {
    let mut grid = TTYGrid::new(demo_headers(), 23);
    grid.add_line(demo_row()).unwrap();
    grid.add_line(demo_row()).unwrap();
    let parts = grid.render().unwrap();
    assert_eq!(parts.header, format!("lineone     two        "));
    assert_eq!(parts.delimiter, "-".repeat(23));
    assert_eq!(parts.lines.len(), 2);
    assert_eq!(parts.lines[0], "0   abc     abcdef     ");
    assert_eq!(parts.lines[0], parts.lines[1]);
}

#[test]
fn clear_lines_removes_rows() {
    let mut grid = TTYGrid::new(demo_headers(), 23);
    grid.add_line(demo_row()).unwrap();
    grid.clear_lines();
    assert_eq!(grid.line_count(), 0);
    let parts = grid.render().unwrap();
    assert_eq!(parts.lines.len(), 0);
}

#[test]
fn set_width_changes_next_render() {
    let mut grid = TTYGrid::new(demo_headers(), 23);
    grid.add_line(demo_row()).unwrap();
    assert!(grid.display().unwrap().starts_with("lineone"));
    grid.set_width(15);
    assert_eq!(grid.width(), 15);
    assert!(grid.display().unwrap().starts_with("two"));
}

#[test]
fn longer_cells_widen_columns() {
    let headers = vec![GridHeader::default().set_text("h").set_max_pad(0)];
    let mut grid = TTYGrid::new(headers, 80);
    grid.add_line(GridLine(vec![GridItem::new(0, String::from("wide cell"))])).unwrap();
    grid.add_line(GridLine(vec![GridItem::new(0, String::from("x"))])).unwrap();
    let parts = grid.render().unwrap();
    // Width is the widest cell (9 characters) plus one separator unit plus
    // the fixed minimum of two.
    assert_eq!(parts.header, format!("h{}", " ".repeat(11)));
    assert_eq!(parts.lines[0], format!("wide cell{}", " ".repeat(3)));
    assert_eq!(parts.lines[1], format!("x{}", " ".repeat(11)));
}

#[test]
fn cloned_grid_renders_identically() {
    let mut grid = TTYGrid::new(demo_headers(), 15);
    grid.add_line(demo_row()).unwrap();
    let mut copy = grid.clone();
    assert_eq!(grid.display().unwrap(), copy.display().unwrap());
}
