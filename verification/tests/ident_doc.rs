//! Identifier text round trips, document field operations, and error
//! messages, on concrete values.

use rusdb_core::doc::Value;
use rusdb_core::{DbError, Doc, Ident};

#[test]
fn ident_text_round_trip() {
    let text = "56a0212f-e21d-48de-81af-7fdc08fee5a2";
    let id = Ident::from_text(text).expect("canonical text must parse");
    assert_eq!(id.to_text(), text);
}

#[test]
fn ident_round_trip_all_hex_digits() {
    let text = "01234567-89ab-cdef-0f1e-2d3c4b5a6978";
    let id = Ident::from_text(text).expect("canonical text must parse");
    assert_eq!(id.to_text(), text);
}

#[test]
fn ident_rejects_wrong_length() {
    assert!(Ident::from_text("56a0212f-e21d-48de-81af-7fdc08fee5a").is_none());
    assert!(Ident::from_text("").is_none());
    assert!(Ident::from_text("56a0212f-e21d-48de-81af-7fdc08fee5a2a").is_none());
}

#[test]
fn ident_rejects_bad_characters() {
    assert!(Ident::from_text("56a0212f-e21d-48de-81af-7fdc08fee5g2").is_none());
    assert!(Ident::from_text("56A0212F-E21D-48DE-81AF-7FDC08FEE5A2").is_none());
}

#[test]
fn ident_rejects_misplaced_dashes() {
    assert!(Ident::from_text("56a0212fe-21d-48de-81af-7fdc08fee5a2").is_none());
    assert!(Ident::from_text("56a0212f-e21d-48de-81af07fdc08fee5a2").is_none());
}

#[test]
fn doc_set_and_get() {
    let mut d = Doc::new();
    assert_eq!(d.len(), 0);
    d.set("hello".to_string(), Value::Text("world".to_string()));
    d.set("count".to_string(), Value::Int(3));
    d.set("flag".to_string(), Value::Bool(true));
    assert_eq!(d.len(), 3);
    match d.get(&"hello".to_string()) {
        Some(Value::Text(s)) => assert_eq!(s, "world"),
        _ => panic!("hello must hold text"),
    }
    match d.get(&"count".to_string()) {
        Some(Value::Int(n)) => assert_eq!(*n, 3),
        _ => panic!("count must hold an integer"),
    }
    assert!(d.get(&"absent".to_string()).is_none());
}

#[test]
fn doc_set_replaces_existing_value() {
    let mut d = Doc::new();
    d.set("hello".to_string(), Value::Text("world".to_string()));
    d.set("hello".to_string(), Value::Text("again".to_string()));
    assert_eq!(d.len(), 1);
    match d.get(&"hello".to_string()) {
        Some(Value::Text(s)) => assert_eq!(s, "again"),
        _ => panic!("hello must hold text"),
    }
}

#[test]
fn error_messages() {
    assert_eq!(DbError::NothingInserted.message(), "no documents inserted.");
    assert_eq!(DbError::NoDocumentReturned.message(), "no document returned");
    assert_eq!(DbError::NoDocumentRemoved.message(), "no document was removed.");
}
