use ttygrid::{GridError, GridHeader, GridItem, GridLine, HeaderList, TTYGrid, DEFAULT_WIDTH};

#[test]
fn header_builders_and_accessors() {
    let h = GridHeader::default();
    assert_eq!(h.text(), "");
    assert_eq!(h.priority(), 0);
    assert_eq!(h.pad(), 4);
    let h = h.set_text("status").set_priority(7).set_max_pad(1);
    assert_eq!(h.text(), "status");
    assert_eq!(h.priority(), 7);
    assert_eq!(h.pad(), 1);
}

#[test]
fn header_scratch_setters_accepted() {
    let mut h = GridHeader::default().set_text("col");
    h.set_max_len(12);
    h.set_index(3);
    assert_eq!(h.text(), "col");
}

#[test]
fn header_list_basics() {
    let empty = HeaderList::new();
    assert!(empty.is_empty());
    assert_eq!(empty.len(), 0);
    assert!(empty.get(0).is_none());

    let grid = TTYGrid::new(
        vec![
            GridHeader::default().set_text("a"),
            GridHeader::default().set_text("b").set_priority(2),
        ],
        DEFAULT_WIDTH,
    );
    let headers = grid.headers();
    assert!(!headers.is_empty());
    assert_eq!(headers.len(), 2);
    assert_eq!(headers.get(0).unwrap().text(), "a");
    assert_eq!(headers.get(1).unwrap().priority(), 2);
    assert!(headers.get(2).is_none());
}

#[test]
fn grid_item_accessors() {
    let item = GridItem::new(1, String::from("abc"));
    assert_eq!(item.header(), 1);
    assert_eq!(item.contents(), "abc");
    // Raw width: character count plus one unit of trailing separator.
    assert_eq!(item.len(), 4);
}

#[test]
fn grid_item_scratch_setter_accepted() {
    let mut item = GridItem::new(0, String::from("x"));
    item.set_max_len(9);
    assert_eq!(item.contents(), "x");
}

#[test]
fn error_values_and_messages() {
    assert_eq!(GridError::RowArityMismatch, GridError::RowArityMismatch);
    assert_ne!(GridError::MissingColumn, GridError::TerminalTooSmall);
    assert_eq!(GridError::TerminalTooSmall.message(), "your terminal is too small");
    assert_eq!(
        GridError::RowArityMismatch.message(),
        "row cell count must equal the number of headers"
    );
    assert_eq!(GridError::MissingColumn.message(), "cannot find pre-existing column in line");
}

#[test]
fn manual_selection_accessors() {
    let mut grid = TTYGrid::new(
        vec![GridHeader::default().set_text("a"), GridHeader::default().set_text("b")],
        DEFAULT_WIDTH,
    );
    assert!(!grid.is_selected(0));
    grid.select(1, 0);
    assert!(grid.is_selected(1));
    assert!(!grid.is_selected(0));
    grid.select_all_headers();
    assert!(grid.is_selected(0) && grid.is_selected(1));
    grid.deselect_all_headers();
    assert!(!grid.is_selected(0) && !grid.is_selected(1));
}

#[test]
fn default_width_constant() {
    assert_eq!(DEFAULT_WIDTH, 80);
}

#[test]
fn get_line_returns_rows_in_order() {
    let mut grid = TTYGrid::new(vec![GridHeader::default().set_text("a")], DEFAULT_WIDTH);
    grid.add_line(GridLine(vec![GridItem::new(0, String::from("first"))])).unwrap();
    grid.add_line(GridLine(vec![GridItem::new(0, String::from("second"))])).unwrap();
    assert_eq!(grid.get_line(0).unwrap().0[0].contents(), "first");
    assert_eq!(grid.get_line(1).unwrap().0[0].contents(), "second");
    assert!(grid.get_line(2).is_none());
}

#[test]
fn clones_preserve_contents() {
    let line = GridLine(vec![GridItem::new(0, String::from("v"))]);
    let copy = line.clone();
    assert_eq!(copy.0.len(), 1);
    assert_eq!(copy.0[0].contents(), "v");
    let mut grid = TTYGrid::new(vec![GridHeader::default().set_text("a")], DEFAULT_WIDTH);
    grid.add_line(line).unwrap();
    let headers = grid.headers().clone();
    assert_eq!(headers.len(), 1);
}
