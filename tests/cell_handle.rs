use wxls::{address_to_r1c1, r1c1_to_address, WebExcelError};

#[test]
fn test_r1c1_to_address() {
    assert_eq!(r1c1_to_address(0, 0, false, false).unwrap(), "A1");
    assert_eq!(r1c1_to_address(0, 1, true, false).unwrap(), "B$1");
    assert_eq!(r1c1_to_address(0, 2, false, true).unwrap(), "$C1");
    assert_eq!(r1c1_to_address(0, 3, false, false).unwrap(), "D1");
    assert_eq!(r1c1_to_address(0, 4, false, false).unwrap(), "E1");

    assert_eq!(r1c1_to_address(1, 0, false, false).unwrap(), "A2");
    assert_eq!(r1c1_to_address(1, 1, false, false).unwrap(), "B2");
    assert_eq!(r1c1_to_address(1, 2, false, false).unwrap(), "C2");
    assert_eq!(r1c1_to_address(1, 3, false, false).unwrap(), "D2");
    assert_eq!(r1c1_to_address(1, 4, false, false).unwrap(), "E2");

    assert_eq!(r1c1_to_address(0, 26, false, false).unwrap(), "AA1");
    assert_eq!(r1c1_to_address(1, 26, false, false).unwrap(), "AA2");
    assert_eq!(r1c1_to_address(2, 26, false, false).unwrap(), "AA3");
    assert_eq!(r1c1_to_address(3, 26, false, false).unwrap(), "AA4");
    assert_eq!(r1c1_to_address(4, 26, false, false).unwrap(), "AA5");

    assert_eq!(r1c1_to_address(0, 27, false, false).unwrap(), "AB1");
    assert_eq!(r1c1_to_address(1, 27, false, false).unwrap(), "AB2");
    assert_eq!(r1c1_to_address(2, 27, false, false).unwrap(), "AB3");
    assert_eq!(r1c1_to_address(3, 27, false, false).unwrap(), "AB4");

    assert_eq!(r1c1_to_address(4, 28, false, false).unwrap(), "AC5");

    // The last column of a sheet is XFD: a sheet has 16384 columns.
    assert_eq!(r1c1_to_address(1, 16383, false, false).unwrap(), "XFD2");
}

#[test]
fn test_r1c1_to_address_oob() {
    assert!(matches!(
        r1c1_to_address(1050000, 1, false, false),
        Err(WebExcelError::OutOfBoundError)
    ));
    assert!(matches!(
        r1c1_to_address(2000000, 1, false, false),
        Err(WebExcelError::OutOfBoundError)
    ));
    assert!(matches!(
        r1c1_to_address(1, 16384, false, false),
        Err(WebExcelError::OutOfBoundError)
    ));
}

#[test]
fn format_examples() {
    assert_eq!(r1c1_to_address(0, 0, false, false).unwrap(), "A1");
    assert_eq!(r1c1_to_address(0, 25, false, false).unwrap(), "Z1");
    assert_eq!(r1c1_to_address(0, 26, false, false).unwrap(), "AA1");
    assert_eq!(r1c1_to_address(1, 16383, false, false).unwrap(), "XFD2");
    assert_eq!(r1c1_to_address(0, 701, false, false).unwrap(), "ZZ1");
    assert_eq!(r1c1_to_address(0, 702, false, false).unwrap(), "AAA1");
    assert_eq!(r1c1_to_address(3, 5, true, true).unwrap(), "$F$4");
}

#[test]
fn format_edges_of_the_sheet() {
    assert_eq!(
        r1c1_to_address(1048575, 16383, false, false).unwrap(),
        "XFD1048576"
    );
    assert_eq!(
        r1c1_to_address(1048576, 0, false, false),
        Err(WebExcelError::OutOfBoundError)
    );
    assert_eq!(
        r1c1_to_address(0, 16384, true, true),
        Err(WebExcelError::OutOfBoundError)
    );
}

#[test]
fn parse_single_addresses() {
    let cell = address_to_r1c1("A1").unwrap();
    assert_eq!((cell.row, cell.column), (0, 0));
    assert!(cell.sheet.is_none());
    let cell = address_to_r1c1("Z26").unwrap();
    assert_eq!((cell.row, cell.column), (25, 25));
    let cell = address_to_r1c1("c4").unwrap();
    assert_eq!((cell.row, cell.column), (3, 2));
    let cell = address_to_r1c1("XFD1048576").unwrap();
    assert_eq!((cell.row, cell.column), (1048575, 16383));
}

#[test]
fn parse_anchor_markers() {
    let cell = address_to_r1c1("A$1").unwrap();
    assert_eq!((cell.fixed_row, cell.fixed_column), (true, false));
    let cell = address_to_r1c1("C4").unwrap();
    assert_eq!((cell.fixed_row, cell.fixed_column), (false, false));
    let cell = address_to_r1c1("$CC4").unwrap();
    assert_eq!((cell.fixed_row, cell.fixed_column), (false, true));
    assert_eq!((cell.row, cell.column), (3, 80));
    let cell = address_to_r1c1("$XFC$4").unwrap();
    assert_eq!((cell.fixed_row, cell.fixed_column), (true, true));
    assert_eq!((cell.row, cell.column), (3, 16382));
}

#[test]
fn parse_errors() {
    assert_eq!(address_to_r1c1("A").unwrap_err(), WebExcelError::ParseError);
    assert_eq!(address_to_r1c1("12").unwrap_err(), WebExcelError::ParseError);
    assert_eq!(address_to_r1c1("").unwrap_err(), WebExcelError::ParseError);
    assert_eq!(address_to_r1c1("A0").unwrap_err(), WebExcelError::ParseError);
    assert_eq!(address_to_r1c1("A-1").unwrap_err(), WebExcelError::ParseError);
    assert_eq!(address_to_r1c1("B 2").unwrap_err(), WebExcelError::ParseError);
    assert_eq!(address_to_r1c1("XFE1").unwrap_err(), WebExcelError::OutOfBoundError);
    assert_eq!(address_to_r1c1("A1048577").unwrap_err(), WebExcelError::OutOfBoundError);
    assert_eq!(
        address_to_r1c1("A99999999999999999999999").unwrap_err(),
        WebExcelError::OutOfBoundError
    );
}

#[test]
fn parse_reads_back_format() {
    let samples: Vec<(u32, u32)> = vec![
        (0, 0),
        (0, 25),
        (0, 26),
        (9, 51),
        (99, 701),
        (1234, 702),
        (1048575, 16383),
        (77, 16382),
    ];
    for (row, column) in samples {
        for (fixed_row, fixed_column) in [(false, false), (true, false), (false, true), (true, true)] {
            let text = r1c1_to_address(row, column, fixed_row, fixed_column).unwrap();
            let cell = address_to_r1c1(&text).unwrap();
            assert_eq!((cell.row, cell.column), (row, column));
            assert_eq!((cell.fixed_row, cell.fixed_column), (fixed_row, fixed_column));
        }
    }
}
