use tables::entries::{CurrencyError, Item, Localization, Merchant, PaymentMethod, Role, Row};
use tables::search::{Searchable, Searcher};
use tables::payload::{Payload, PayloadError, PayloadOp};
use tables::properties::{Column, SheetProperties, SpreadsheetProperties};

#[test]
fn payment_methods_that_take_a_card() {
    assert!(!PaymentMethod::Cash.supports_card());
    assert!(PaymentMethod::Card.supports_card());
    assert!(PaymentMethod::Both.supports_card());
}

#[test]
fn roles_include_the_lower_ones() {
    assert!(Role::User.is_at_least(Role::User));
    assert!(!Role::User.is_at_least(Role::Merchant));
    assert!(Role::Merchant.is_at_least(Role::Merchant));
    assert!(!Role::Merchant.is_at_least(Role::Moderator));
    assert!(Role::Moderator.is_at_least(Role::Merchant));
    assert!(Role::Moderator.is_at_least(Role::Moderator));
}

#[test]
fn localization_falls_back() {
    let both = Localization { key_phrase: "k".to_owned(), en: "hello".to_owned(), ru: "privet".to_owned() };
    assert_eq!(both.get("ru"), "privet");
    assert_eq!(both.get("en"), "hello");
    assert_eq!(both.get("de"), "hello");
    let no_ru = Localization { key_phrase: "k".to_owned(), en: "hello".to_owned(), ru: "-".to_owned() };
    assert_eq!(no_ru.get("ru"), "hello");
    let none = Localization { key_phrase: "k".to_owned(), en: "-".to_owned(), ru: "-".to_owned() };
    assert_eq!(none.get("ru"), "k");
    assert_eq!(none.get("en"), "k");
}

#[test]
fn row_holds_a_record_and_its_position() {
    let row = Row::new(4, "tea");
    assert_eq!(row.row, 4);
    assert_eq!(row.entry, "tea");
    assert_eq!(*row.as_ref(), "tea");
    assert_eq!(CurrencyError::Custom("bad".to_owned()).to_string(), "bad");
}

#[test]
fn payload_builders() {
    let p = Payload::purchase(42);
    assert_eq!((p.op, p.product_id, p.order_id.clone(), p.amount), (PayloadOp::Purchase, Some(42), None, None));
    assert_eq!(Payload::redeem(1).op, PayloadOp::Redeem);
    let order = "ab1".to_owned();
    assert_eq!(Payload::checkout(order.clone()).to_string(), "3 oab1");
    assert_eq!(Payload::cancel_order(order.clone()).to_string(), "4 oab1");
    assert_eq!(Payload::complete_order(order.clone()).to_string(), "5 oab1");
    assert_eq!(Payload::pay_for_order(order.clone()).to_string(), "6 oab1");
    let price = Payload::specify_order_price(order.clone());
    assert_eq!(price.to_string(), "7 oab1");
    assert_eq!(price.order_id, Some(order));
    assert_eq!(price.product_id, None);
}

#[test]
fn payload_to_text_and_back() {
    let p = Payload { op: PayloadOp::Purchase, product_id: Some(18446744073709551615), order_id: None, amount: Some(20) };
    assert_eq!(p.to_string(), "1 p18446744073709551615 a20");
    let back = Payload::from_str("1 p18446744073709551615 a20").unwrap();
    assert_eq!((back.op, back.product_id, back.order_id, back.amount), (PayloadOp::Purchase, Some(u64::MAX), None, Some(20)));
    let full = Payload::from_str("3 p5 oxy-1 a2 trailing").unwrap();
    assert_eq!((full.op, full.product_id, full.order_id, full.amount), (PayloadOp::Checkout, Some(5), Some("xy-1".to_owned()), Some(2)));
    let bare = Payload::from_str("0").unwrap();
    assert_eq!((bare.op, bare.product_id, bare.order_id, bare.amount), (PayloadOp::Nothing, None, None, None));
}

#[test]
fn payload_errors_carry_the_text() {
    match Payload::from_str("") {
        Err(PayloadError::InvalidOp(text)) => assert_eq!(text, ""),
        _ => panic!("a payload without an operation must be refused"),
    }
    assert!(matches!(Payload::from_str("8"), Err(PayloadError::InvalidOp(_))));
    assert!(matches!(Payload::from_str("x"), Err(PayloadError::InvalidOp(_))));
    match Payload::from_str("1 p") {
        Err(PayloadError::InvalidProductId(text)) => assert_eq!(text, "1 p"),
        _ => panic!("an empty product id must be refused"),
    }
    assert!(matches!(Payload::from_str("1 p99999999999999999999"), Err(PayloadError::InvalidProductId(_))));
    assert!(matches!(Payload::from_str("1 p1 a4294967296"), Err(PayloadError::InvalidAmount(_))));
    assert_eq!(Payload::from_str("1 p1 a4294967295").unwrap().amount, Some(u32::MAX));
    assert_eq!(
        PayloadError::InvalidAmount("1 a".to_owned()).to_string(),
        "Invalid amount in payload: 1 a"
    );
    assert_eq!(PayloadError::InvalidPayload("".to_owned()).to_string(), "Invalid payload: ");
    assert_eq!(PayloadError::InvalidOp("9".to_owned()).to_string(), "Invalid op in payload: 9");
    assert_eq!(
        PayloadError::InvalidProductId("1 p".to_owned()).to_string(),
        "Invalid product id in payload: 1 p"
    );
}

#[test]
fn payload_op_numbers() {
    assert_eq!(PayloadOp::Nothing.to_string(), "0");
    assert_eq!(PayloadOp::SpecifyOrderPrice.to_string(), "7");
    assert_eq!(PayloadOp::from_u8(4), Some(PayloadOp::CancelOrder));
    assert_eq!(PayloadOp::from_u8(8), None);
    assert_eq!(PayloadOp::PayOrder.code(), 6);
    assert!(PayloadOp::Purchase.is_in_payload("1 p4"));
    assert!(PayloadOp::Purchase.is_in_payload("17"));
    assert!(!PayloadOp::Purchase.is_in_payload("2 p4"));
    assert!(!PayloadOp::Purchase.is_in_payload(""));
}

#[test]
fn sheet_properties_find_columns_by_name() {
    let sheet = SheetProperties::new(
        "Sales".to_owned(),
        12,
        vec![
            Column { name: "id".to_owned(), index: 0 },
            Column { name: "price".to_owned(), index: 3 },
            Column { name: "Id".to_owned(), index: 9 },
        ],
    )
    .unwrap();
    assert_eq!(sheet.name(), "Sales");
    assert_eq!(sheet.id(), 12);
    assert_eq!(sheet.columns(), vec!["id", "price", "Id"]);
    assert_eq!(sheet.column_idx("price"), Some(&3));
    assert_eq!(sheet.column_idx("id"), Some(&0));
    assert_eq!(sheet.column_idx("Id"), Some(&9));
    assert_eq!(sheet.column_idx("none"), None);

    let other = SheetProperties::new("Stock".to_owned(), 13, vec![]).unwrap();
    let book = SpreadsheetProperties::new("book".to_owned(), vec![sheet, other]).unwrap();
    assert_eq!(book.id(), "book");
    assert_eq!(book.sheet("Sales").map(|s| s.id()), Some(12));
    assert_eq!(book.sheet("Stock").map(|s| s.id()), Some(13));
    assert!(book.sheet("Other").is_none());
}

#[test]
fn a_name_cannot_come_twice() {
    let twice = SheetProperties::new(
        "Sales".to_owned(),
        12,
        vec![
            Column { name: "id".to_owned(), index: 0 },
            Column { name: "price".to_owned(), index: 3 },
            Column { name: "id".to_owned(), index: 9 },
        ],
    );
    assert!(twice.is_none());
    let a = SheetProperties::new("Sales".to_owned(), 1, vec![]).unwrap();
    let b = SheetProperties::new("Sales".to_owned(), 2, vec![]).unwrap();
    assert!(SpreadsheetProperties::new("book".to_owned(), vec![a, b]).is_none());
    assert!(SpreadsheetProperties::new("book".to_owned(), vec![]).is_some());
}

#[test]
fn items_and_merchants_fill_the_haystacks() {
    let item = Item {
        id: "T-1".to_owned(),
        name: "Oolong".to_owned(),
        inline_desc: "Dark".to_owned(),
        full_desc: "Roasted".to_owned(),
        image_url: "http://x".to_owned(),
    };
    let mut searcher = Searcher::from_entry(&item);
    assert!(searcher.search_one("USER", "name:oolong desc:dark fdesc:roasted"));
    assert!(!searcher.search_one("USER", "id:t-1"));
    assert!(searcher.search_one("MERCHANT", "id:t-1 name:oolong desc:dark fdesc:roasted"));
    assert!(!searcher.search_one("USER", "Oolong"));

    let merchant = Merchant {
        name: "Li".to_owned(),
        location: "Riga".to_owned(),
        address: "Main 1".to_owned(),
    };
    merchant.fill_haystack(&mut searcher);
    assert!(searcher.search_one("USER", "roastedlocation:riga address:main 1"));
    assert!(!searcher.search_one("MERCHANT", "riga"));
}

#[test]
fn payload_parses_through_the_std_trait() {
    let parsed: Payload = match "2 p7".parse() {
        Ok(payload) => payload,
        Err(_) => panic!("a redeem payload is a payload"),
    };
    assert_eq!((parsed.op, parsed.product_id), (PayloadOp::Redeem, Some(7)));
    assert!("9".parse::<Payload>().is_err());
}
