use tables::range::{Error, SheetRange};

#[test]
fn range_full_from_a1() {
    let range = SheetRange::from_str("Sheet!A2:D5").unwrap();

    assert_eq!(range.sheet_name, "Sheet");
    assert_eq!(range.c_start, 0);
    assert_eq!(range.c_end, 4);
    assert_eq!(range.r_start, 1);
    assert_eq!(range.r_end, Some(5));
}

#[test]
fn range_inf_end_from_a1() {
    let range = SheetRange::from_str("Sheet!A2:D").unwrap();

    assert_eq!(range.sheet_name, "Sheet");
    assert_eq!(range.c_start, 0);
    assert_eq!(range.c_end, 4);
    assert_eq!(range.r_start, 1);
    assert_eq!(range.r_end, None);
}

#[test]
fn range_col_only_from_a1() {
    let range = SheetRange::from_str("Sheet!A:D").unwrap();

    assert_eq!(range.sheet_name, "Sheet");
    assert_eq!(range.c_start, 0);
    assert_eq!(range.c_end, 4);
    assert_eq!(range.r_start, 0);
    assert_eq!(range.r_end, None);
}

#[test]
fn cell_pos_from_a1() {
    let range = SheetRange::from_str("Sheet!A1").unwrap();

    assert_eq!(range.sheet_name, "Sheet");
    assert_eq!(range.c_start, 0);
    assert_eq!(range.c_end, 1);
    assert_eq!(range.r_start, 0);
    assert_eq!(range.r_end, Some(1));
}

#[test]
fn range_full_to_a1() {
    let range = SheetRange {
        sheet_name: "Sheet".to_owned(),
        c_start: 1,
        r_start: 1,
        c_end: 5,
        r_end: Some(5),
    };

    assert_eq!(range.to_string(), "Sheet!B2:E5");
}

#[test]
fn range_without_last_row_to_a1() {
    let range = SheetRange {
        sheet_name: "Data".to_owned(),
        c_start: 0,
        r_start: 1,
        c_end: 3,
        r_end: None,
    };
    assert_eq!(range.to_string(), "Data!A2:C");
}

#[test]
fn range_two_letter_columns() {
    let range = SheetRange::from_str("S!Z1:AB3").unwrap();
    assert_eq!(range.c_start, 25);
    assert_eq!(range.c_end, 28);
    assert_eq!(range.to_string(), "S!Z1:AB3");

    let wide = SheetRange::from_str("S!BA1:ZZ9").unwrap();
    assert_eq!(wide.c_start, 52);
    assert_eq!(wide.c_end, 702);
    assert_eq!(wide.to_string(), "S!BA1:ZZ9");
}

#[test]
fn range_inverted_is_refused() {
    match SheetRange::from_str("Sheet!D2:A5") {
        Err(Error::InvalidRange(text)) => assert_eq!(text, "Sheet!D2:A5"),
        _ => panic!("an inverted column range must be refused"),
    }
    match SheetRange::from_str("Sheet!A5:D2") {
        Err(Error::InvalidRange(text)) => assert_eq!(text, "Sheet!A5:D2"),
        _ => panic!("an inverted row range must be refused"),
    }
    assert!(SheetRange::from_str("Sheet!B1:A5").is_err());
    assert!(SheetRange::from_str("Sheet!A5:D4").is_err());
    assert!(SheetRange::from_str("Sheet!B:A").is_err());
    let one_column = SheetRange::from_str("Sheet!B1:B5").unwrap();
    assert_eq!((one_column.c_start, one_column.c_end), (1, 2));
    let one_row = SheetRange::from_str("Sheet!A5:D5").unwrap();
    assert_eq!((one_row.r_start, one_row.r_end), (4, Some(5)));
}

#[test]
fn range_malformed_is_refused() {
    assert!(SheetRange::from_str("Sheet").is_err());
    assert!(SheetRange::from_str("Sheet!a1").is_err());
    assert!(SheetRange::from_str("Sheet!A0").is_err());
    assert!(SheetRange::from_str("Sheet!A1:").is_err());
    assert!(SheetRange::from_str("Sheet!A99999999999999999999999").is_err());
}

#[test]
fn range_error_message() {
    match SheetRange::from_str("nope") {
        Err(e) => assert_eq!(e.to_string(), "invalid range: nope"),
        Ok(_) => panic!("a text without a sheet must be refused"),
    }
    assert_eq!(
        Error::InvalidRangeBounds("x".to_owned()).to_string(),
        "invalid range bounds: x"
    );
}

#[test]
fn range_with_rows_cols_and_open_end() {
    let range = SheetRange::from_str("Sheet!B2:E5").unwrap();
    let rows = range.with_rows(7, 9);
    assert_eq!((rows.r_start, rows.r_end), (7, Some(9)));
    assert_eq!((rows.c_start, rows.c_end), (1, 5));
    assert_eq!(rows.sheet_name, "Sheet");
    let cols = range.with_cols(3, 4);
    assert_eq!((cols.c_start, cols.c_end), (3, 4));
    assert_eq!((cols.r_start, cols.r_end), (1, Some(5)));
    let open = range.with_inf_end();
    assert_eq!(open.r_end, None);
    assert_eq!(open.to_string(), "Sheet!B2:E");
}

#[test]
fn sheet_name_may_hold_an_exclamation_mark() {
    let range = SheetRange::from_str("A!B!C3").unwrap();
    assert_eq!(range.sheet_name, "A!B");
    assert_eq!(range.c_start, 2);
    assert_eq!(range.r_start, 2);
}

#[test]
fn range_parses_through_the_std_trait() {
    let range: SheetRange = match "Sheet!C3".parse() {
        Ok(range) => range,
        Err(_) => panic!("a cell is a reference"),
    };
    assert_eq!((range.c_start, range.c_end, range.r_start, range.r_end), (2, 3, 2, Some(3)));
}
