use tables::cell::Cell;
use tables::range::SheetRange;
use tables::row::Error as RowError;
use tables::sheet::{
    collect_rows, last_row_from_groups, Error, GridRange, MetaEntry, PasteType, Request, Sheet,
    SheetArgs,
};
use tables::version::VersionGen;

fn text(s: &str) -> Cell {
    Cell::String(s.to_owned())
}

fn sheet(data: &str, meta: Option<&str>) -> Sheet {
    let args = SheetArgs::new(
        7,
        SheetRange::from_str(data).unwrap(),
        None,
        meta.map(|m| SheetRange::from_str(m).unwrap()),
    );
    Sheet::new("spreadsheet".to_owned(), args)
}

#[test]
fn args_take_the_data_region_for_the_format() {
    let args = SheetArgs::new(1, SheetRange::from_str("Read!A2:C").unwrap(), None, None);
    assert_eq!(args.format_range.to_string(), "Read!A2:C");
    let other = SheetArgs::new(
        1,
        SheetRange::from_str("Read!A2:C").unwrap(),
        Some(SheetRange::from_str("Look!A1:C1").unwrap()),
        None,
    );
    assert_eq!(other.format_range.to_string(), "Look!A1:C1");
    assert_eq!(other.data_range.to_string(), "Read!A2:C");
}

#[test]
fn references_to_read() {
    let s = sheet("Read!A2:C5", Some("Meta!B2"));
    assert_eq!(s.data_reference(), Some("Read!A2:C".to_owned()));
    assert_eq!(s.meta_reference(), Some("Meta!B2:B2".to_owned()));
    assert!(s.has_meta());
    assert_eq!(s.spreadsheet_id(), "spreadsheet");
    let bare = sheet("Read!A2:C", None);
    assert_eq!(bare.meta_reference(), None);
    assert!(!bare.has_meta());
}

#[test]
fn grid_range_of_a_region() {
    let range = SheetRange::from_str("Sheet!B2:E5").unwrap();
    assert_eq!(
        range.as_grid_range(3),
        GridRange {
            sheet_id: 3,
            start_column_index: 1,
            end_column_index: 5,
            start_row_index: 1,
            end_row_index: Some(5),
        }
    );
    assert_eq!(range.with_inf_end().as_grid_range(3).end_row_index, None);
}

#[test]
fn next_free_row_from_the_reported_range() {
    let s = sheet("Extend!A2:C", None);
    assert_eq!(s.fetch_last_available_row(None).unwrap(), 1);
    assert_eq!(s.fetch_last_available_row(Some("Extend!A1:C14")).unwrap(), 14);
    assert!(matches!(
        s.fetch_last_available_row(Some("Extend!A1:C")),
        Err(Error::InvalidResponse)
    ));
    assert!(matches!(
        s.fetch_last_available_row(Some("Extend!A1:C99999999999999999999999")),
        Err(Error::InvalidResponse)
    ));
    assert!(matches!(last_row_from_groups(&vec![]), Err(Error::InvalidResponse)));
    assert_eq!(
        last_row_from_groups(&vec![Some("x".to_owned()), Some("0012".to_owned())]).unwrap(),
        12
    );
}

#[test]
fn extend_builds_the_batch_in_order() {
    let s = sheet("Extend!A2:C", None);
    let rows = vec![vec![text("A")], vec![text("B")]];
    let batch = s.extend_impl(5, rows).unwrap();
    assert_eq!(batch.len(), 4);
    let target = GridRange {
        sheet_id: 7,
        start_column_index: 0,
        end_column_index: 3,
        start_row_index: 5,
        end_row_index: Some(7),
    };
    let source = GridRange { start_row_index: 4, end_row_index: Some(5), ..target };
    match &batch[0] {
        Request::InsertRows { sheet_id, start_index, end_index, inherit_from_before } => {
            assert_eq!((*sheet_id, *start_index, *end_index), (7, 6, 8));
            assert!(!*inherit_from_before);
        }
        _ => panic!("the batch begins by inserting rows"),
    }
    match &batch[1] {
        Request::CopyPaste { source: s, destination, paste_type } => {
            assert_eq!((*s, *destination, *paste_type), (source, target, PasteType::Normal));
        }
        _ => panic!("the formatting is copied second"),
    }
    match &batch[2] {
        Request::UpdateCells { range, rows } => {
            assert_eq!(*range, target);
            assert_eq!(rows.len(), 2);
            assert!(matches!(&rows[1][0], Cell::String(t) if t == "B"));
        }
        _ => panic!("the values are written third"),
    }
    match &batch[3] {
        Request::CopyPaste { source: s, destination, paste_type } => {
            assert_eq!((*s, *destination, *paste_type), (source, target, PasteType::DataValidation));
        }
        _ => panic!("the data validation is copied last"),
    }
}

#[test]
fn extend_refuses_rows_that_cannot_be_addressed() {
    let s = sheet("Extend!A2:C", None);
    assert!(matches!(s.extend_impl(0, vec![]), Err(Error::InvalidResponse)));
    assert!(matches!(s.extend_impl(i32::MAX as usize, vec![]), Err(Error::InvalidResponse)));
    assert!(s.extend_impl(1, vec![]).is_ok());
}

#[test]
fn update_counts_from_the_first_data_row() {
    let s = sheet("Update!B3:D", None);
    let batch = s.update_impl(4, vec![vec![Cell::Bool(true)], vec![Cell::Null], vec![Cell::Null]]).unwrap();
    assert_eq!(batch.len(), 1);
    match &batch[0] {
        Request::UpdateCells { range, rows } => {
            assert_eq!(
                *range,
                GridRange {
                    sheet_id: 7,
                    start_column_index: 1,
                    end_column_index: 4,
                    start_row_index: 6,
                    end_row_index: Some(9),
                }
            );
            assert_eq!(rows.len(), 3);
        }
        _ => panic!("an update writes cells"),
    }
    assert!(matches!(s.update_impl(usize::MAX, vec![]), Err(Error::InvalidResponse)));
}

#[test]
fn version_changes_with_the_fingerprint() {
    let mut gen = VersionGen::starting_at(10);
    let mut s = sheet("Read!A2:C", Some("Meta!B2"));
    assert_eq!(s.version(), 0);

    s.fetch_version(&mut gen, Some(vec![vec![text("abc")]])).unwrap();
    assert_eq!(s.version(), 10);
    s.fetch_version(&mut gen, Some(vec![vec![text("abc")]])).unwrap();
    assert_eq!(s.version(), 10);
    s.fetch_version(&mut gen, Some(vec![vec![text("abd")]])).unwrap();
    assert_eq!(s.version(), 11);
    s.fetch_version(&mut gen, None).unwrap();
    assert_eq!(s.version(), 12);
    s.fetch_version(&mut gen, None).unwrap();
    assert_eq!(s.version(), 12);
}

#[test]
fn version_without_a_meta_cell_always_changes() {
    let mut gen = VersionGen::starting_at(3);
    let mut s = sheet("Read!A2:C", None);
    s.fetch_version(&mut gen, None).unwrap();
    assert_eq!(s.version(), 3);
    s.fetch_version(&mut gen, Some(vec![])).unwrap();
    assert_eq!(s.version(), 4);
}

#[test]
fn unusable_meta_is_an_error_and_changes_nothing() {
    let mut gen = VersionGen::starting_at(3);
    let mut s = sheet("Read!A2:C", Some("Meta!B2"));
    assert!(matches!(s.fetch_version(&mut gen, Some(vec![])), Err(Error::InvalidMeta)));
    assert!(matches!(
        s.fetch_version(&mut gen, Some(vec![vec![Cell::Bool(true)]])),
        Err(Error::Serde(RowError::ExpectedString))
    ));
    match s.fetch_version(&mut gen, Some(vec![vec![]])) {
        Err(Error::Serde(RowError::Custom(message))) => assert_eq!(
            message,
            "invalid length 0, expected struct MetaEntry with 1 element"
        ),
        _ => panic!("a meta row without cells must be refused"),
    }
    assert_eq!(s.version(), 0);
    assert_eq!(gen.current(), 3);
}

#[test]
fn meta_entry_is_the_first_cell() {
    let meta = MetaEntry::from_row(vec![text("h1"), text("ignored")]).unwrap();
    assert_eq!(meta.hash, "h1");
}

#[test]
fn unreadable_rows_are_dropped() {
    let decoded: Vec<Result<u8, RowError>> =
        vec![Ok(1), Err(RowError::OutOfBounds), Ok(3), Err(RowError::ExpectedChar)];
    assert_eq!(collect_rows(Some(decoded)), vec![1, 3]);
    assert_eq!(collect_rows::<u8>(None), Vec::<u8>::new());
}

#[test]
fn adapter_error_messages() {
    assert_eq!(Error::InvalidResponse.to_string(), "invalid response");
    assert_eq!(Error::InvalidMeta.to_string(), "invalid meta");
    assert_eq!(Error::Sheets("quota".to_owned()).to_string(), "sheets error: quota");
    assert_eq!(
        Error::Serde(RowError::UnexpectedMap).to_string(),
        "serde error: unexpected map"
    );
}

#[test]
fn every_look_without_a_meta_cell_changes_the_version() {
    let mut gen = VersionGen::new();
    let mut s = sheet("Read!A2:C", None);
    assert_eq!(s.version(), 0);
    s.fetch_version(&mut gen, None).unwrap();
    let first = s.version();
    assert!(first > 0);
    s.fetch_version(&mut gen, None).unwrap();
    assert!(s.version() > first);
    let mut behind = VersionGen::new();
    let before = s.version();
    s.fetch_version(&mut behind, None).unwrap();
    assert!(s.version() > before);
}

#[test]
fn a_changed_fingerprint_raises_the_version_from_the_first_look_on() {
    let mut gen = VersionGen::new();
    let mut s = sheet("Read!A2:C", Some("Meta!B2"));
    s.fetch_version(&mut gen, Some(vec![vec![text("h1")]])).unwrap();
    assert_eq!(s.version(), 1);
    s.fetch_version(&mut gen, Some(vec![vec![text("h1")]])).unwrap();
    assert_eq!(s.version(), 1);
    s.fetch_version(&mut gen, Some(vec![vec![text("h2")]])).unwrap();
    assert_eq!(s.version(), 2);
    let mut behind = VersionGen::new();
    s.fetch_version(&mut behind, Some(vec![vec![text("h3")]])).unwrap();
    assert_eq!(s.version(), 3);
}

#[test]
fn indices_beyond_32_bits_are_refused() {
    let s = sheet("Update!B3:D", None);
    let top = i32::MAX as usize;
    assert!(s.update_impl(top - 2, vec![]).is_ok());
    assert!(matches!(s.update_impl(top - 1, vec![]), Err(Error::InvalidResponse)));
    assert!(matches!(s.update_impl(top - 3, vec![vec![], vec![]]), Err(Error::InvalidResponse)));
    match &s.update_impl(top - 3, vec![vec![]]).unwrap()[0] {
        Request::UpdateCells { range, .. } => {
            assert_eq!(range.start_row_index, i32::MAX - 1);
            assert_eq!(range.end_row_index, Some(i32::MAX));
        }
        _ => panic!("an update writes cells"),
    }
    let wide = Sheet::new(
        "spreadsheet".to_owned(),
        SheetArgs::new(
            7,
            SheetRange {
                sheet_name: "Wide".to_owned(),
                c_start: 0,
                r_start: 1,
                c_end: top + 1,
                r_end: None,
            },
            None,
            None,
        ),
    );
    assert!(matches!(wide.update_impl(0, vec![]), Err(Error::InvalidResponse)));
    assert!(matches!(wide.extend_impl(5, vec![]), Err(Error::InvalidResponse)));
}
