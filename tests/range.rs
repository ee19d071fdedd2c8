use wxls::{Cell, CellAnchorStyle, Range, WebExcelError};

fn cell(text: &str) -> Cell {
    Cell::from_str_address(text, None).unwrap()
}

fn range(first: &str, last: &str) -> Range {
    Range::new(&cell(first), &cell(last)).unwrap()
}

#[test]
fn test_range_new() {
    let cell_one = Cell::from_str_address("A1", None).unwrap();
    let cell_two = Cell::from_str_address("B2", None).unwrap();

    let cell_inv_one = Cell::from_str_address("B1", None).unwrap();
    let cell_inv_two = Cell::from_str_address("A2", None).unwrap();

    let range_one = Range::new(&cell_one, &cell_two).unwrap();
    let range_two = Range::new(&cell_two, &cell_one).unwrap();
    let range_three = Range::new(&cell_inv_one, &cell_inv_two).unwrap();
    let range_four = Range::new(&cell_inv_two, &cell_inv_one).unwrap();

    assert_eq!(range_one, range_two);
    assert_eq!(range_one, range_three);
    assert_eq!(range_one, range_four);
}

#[test]
fn test_range_to_str_address() {
    let cell11 = Cell::from_str_address("A1", None).unwrap();
    let cell12 = Cell::from_str_address("B2", None).unwrap();

    let cell31 = Cell::from_str_address("B1", None).unwrap();
    let cell32 = Cell::from_str_address("A2", None).unwrap();

    let cell21 = Cell::from_str_address("AA1", None).unwrap();
    let cell22 = Cell::from_str_address("AA2", None).unwrap();

    let sheet_name = "Sheet1";
    let cell41 = Cell::from_str_address("AB2", Some(sheet_name.to_owned())).unwrap();
    let cell42 = Cell::from_str_address("AB5", Some(sheet_name.to_owned())).unwrap();

    let range1 = Range::new(&cell11, &cell12).unwrap();
    let range3 = Range::new(&cell31, &cell32).unwrap();
    let range2 = Range::new(&cell21, &cell22).unwrap();
    let range4 = Range::new(&cell41, &cell42).unwrap();

    assert_eq!(range1.to_str_address().unwrap(), "A1:B2");
    // Corners given on the other diagonal still give the top-left corner first.
    assert_eq!(range3.to_str_address().unwrap(), "A1:B2");
    assert_eq!(range2.to_str_address().unwrap(), "AA1:AA2");
    assert_eq!(range4.to_str_address().unwrap(), "Sheet1!AB2:Sheet1!AB5");
}

#[test]
fn test_range_has() {
    let cell11 = Cell::from_str_address("A1", None).unwrap();
    let cell12 = Cell::from_str_address("Z100", None).unwrap();
    let range1 = Range::new(&cell11, &cell12).unwrap();

    let cell1 = Cell::from_str_address("A1", None).unwrap();
    let cell2 = Cell::from_str_address("B12", None).unwrap();
    let cell3 = Cell::from_str_address("C23", None).unwrap();
    let cell4 = Cell::from_str_address("D34", None).unwrap();
    let cell5 = Cell::from_str_address("Z100", None).unwrap();

    let cell6 = Cell::from_str_address("AA61", None).unwrap();
    let cell7 = Cell::from_str_address("AA1", None).unwrap();
    let cell8 = Cell::from_str_address("Z110", None).unwrap();
    let cell9 = Cell::from_str_address("XFD123", None).unwrap();
    let cell0 = Cell::from_str_address("DD123", None).unwrap();

    assert!(range1.has(&cell1));
    assert!(range1.has(&cell2));
    assert!(range1.has(&cell3));
    assert!(range1.has(&cell4));
    assert!(range1.has(&cell5));

    assert!(!range1.has(&cell6));
    assert!(!range1.has(&cell7));
    assert!(!range1.has(&cell8));
    assert!(!range1.has(&cell9));
    assert!(!range1.has(&cell0));
}

#[test]
fn test_range_includes() {
    let range1 = range("A1", "Z100");

    let i_range = range("A2", "Z1");
    let ni_range = range("A2", "Z101");

    assert!(range1.includes(&i_range));
    assert!(!range1.includes(&ni_range));
    assert!(range1.includes(&range1));
    assert!(!i_range.includes(&range1));
}

#[test]
fn test_range_iter_col() {
    let range1 = range("A1", "Z100");
    let columns = range1.iter_col().unwrap();
    assert_eq!(columns.len(), 26);
    assert_eq!(columns[0], "A1:A100");
    assert_eq!(columns[1], "B1:B100");
    assert_eq!(columns[25], "Z1:Z100");
}

#[test]
fn test_range_iter_row() {
    let range1 = range("A1", "Z100");
    let rows = range1.iter_row().unwrap();
    assert_eq!(rows.len(), 100);
    assert_eq!(rows[0], "A1:Z1");
    assert_eq!(rows[1], "A2:Z2");
    assert_eq!(rows[99], "A100:Z100");
}

#[test]
fn iterations_keep_the_sheet_and_drop_anchors() {
    let mut first = Cell::from_str_address("B2", Some("S".to_owned())).unwrap();
    first.anchor(CellAnchorStyle::All);
    let last = Cell::from_str_address("C3", Some("S".to_owned())).unwrap();
    let block = Range::new(&first, &last).unwrap();
    assert_eq!(block.to_str_address().unwrap(), "S!$B$2:S!C3");
    assert_eq!(block.iter_row().unwrap(), vec!["S!B2:S!C2", "S!B3:S!C3"]);
    assert_eq!(block.iter_col().unwrap(), vec!["S!B2:S!B3", "S!C2:S!C3"]);

    let single = range("D4", "D4");
    assert_eq!(single.iter_row().unwrap(), vec!["D4:D4"]);
    assert_eq!(single.iter_col().unwrap(), vec!["D4:D4"]);
}

#[test]
fn iterations_refuse_corners_off_the_sheet() {
    let wide = Range {
        cell_start: Cell::new(0, 16383, None).unwrap(),
        cell_end: Cell {
            row: 0,
            column: 16384,
            sheet: None,
            fixed_row: false,
            fixed_column: false,
        },
    };
    assert_eq!(wide.iter_col(), Err(WebExcelError::OutOfBoundError));
    assert_eq!(wide.iter_row(), Err(WebExcelError::OutOfBoundError));
    assert_eq!(wide.to_str_address(), Err(WebExcelError::OutOfBoundError));
}

#[test]
fn test_range_select_row() {
    let range1 = range("A1", "Z100");

    let row1 = range1.select_row(0, 1).unwrap();
    assert_eq!(row1.to_str_address().unwrap(), "A1:Z1");

    let row2 = range1.select_row(1, 2).unwrap();
    assert_eq!(row2.to_str_address().unwrap(), "A2:Z2");

    let row3 = range1.select_row(0, 10).unwrap();
    assert_eq!(row3.to_str_address().unwrap(), "A1:Z10");
}

#[test]
fn test_range_select_col() {
    let range1 = range("A1", "Z100");

    let column1 = range1.select_column(0, 1).unwrap();
    assert_eq!(column1.to_str_address().unwrap(), "A1:A100");

    let column2 = range1.select_column(2, 4).unwrap();
    assert_eq!(column2.to_str_address().unwrap(), "C1:D100");

    let column3 = range1.select_column(0, 5).unwrap();
    assert_eq!(column3.to_str_address().unwrap(), "A1:E100");
}

#[test]
fn selections_off_the_sheet_fail() {
    let block = range("B2", "XFD4");
    assert_eq!(block.select_column(0, 16384), Err(WebExcelError::OutOfBoundError));
    assert_eq!(block.select_column(16383, 16383), Err(WebExcelError::OutOfBoundError));
    let edge = range("A1", "A3");
    assert_eq!(edge.select_row(0, 0), Err(WebExcelError::OutOfBoundError));
    assert_eq!(edge.select_row(0, 1048577), Err(WebExcelError::OutOfBoundError));
    assert_eq!(edge.select_row(usize::MAX, 1), Err(WebExcelError::OutOfBoundError));
    let block = range("C1", "D5");
    assert_eq!(block.select_column(1, 0), Err(WebExcelError::OutOfBoundError));
    assert_eq!(block.select_column(1, 1), Err(WebExcelError::OutOfBoundError));
    assert_eq!(block.select_row(3, 2), Err(WebExcelError::OutOfBoundError));
    assert_eq!(block.select_row(4, 4), Err(WebExcelError::OutOfBoundError));
    assert_eq!(block.select_column(1, 2).unwrap().to_str_address().unwrap(), "D1:D5");
}

#[test]
fn test_range_intersects() {
    let range1 = range("A1", "Z100");
    let range2 = range("Z98", "AB12");

    assert!(range1.intersects(&range2));
    assert!(range2.intersects(&range1));

    let beyond = range("AC101", "AD120");
    assert!(!range1.intersects(&beyond));
    assert!(!beyond.intersects(&range1));

    // A tall thin block crossing a wide flat one shares a cell with it.
    let tall = range("C1", "C10");
    let flat = range("A5", "E5");
    assert!(tall.intersects(&flat));
}

#[test]
fn new_refuses_mixed_sheets() {
    let a = Cell::from_str_address("A1", Some("S".to_owned())).unwrap();
    let b = Cell::from_str_address("B2", Some("T".to_owned())).unwrap();
    let c = Cell::from_str_address("B2", None).unwrap();
    assert_eq!(Range::new(&a, &b), Err(WebExcelError::RangeDiffSheetError));
    assert_eq!(Range::new(&a, &c), Err(WebExcelError::RangeDiffSheetError));
}

#[test]
fn sizes_of_a_range() {
    let block = range("B2", "D11");
    assert_eq!(block.rows(), 10);
    assert_eq!(block.columns(), 3);
    assert_eq!(block.cells(), 30);
    let sheet = range("A1", "XFD1048576");
    assert_eq!(sheet.cells(), 17179869184);
}

#[test]
fn normalization_keeps_anchors_with_their_corner() {
    let mut top_right = cell("B1");
    top_right.anchor(CellAnchorStyle::Column);
    let bottom_left = cell("A2");
    let block = Range::new(&top_right, &bottom_left).unwrap();
    assert_eq!(block.to_str_address().unwrap(), "$A1:B2");
}
