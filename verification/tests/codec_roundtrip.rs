//! The byte codec against the real encoding: what the library writes is
//! genuine BSON that other readers see, and reading it back gives the
//! handle that produced it.

use rusdb_core::collection::{RusCollection, RusDocument};
use rusdb_core::doc::Value;
use rusdb_core::payload::Greeting;
use rusdb_core::{DbError, Doc, Ident};

const ID_TEXT: &str = "56a0212f-e21d-48de-81af-7fdc08fee5a2";

fn sample_handle() -> RusDocument<Greeting> {
    let id = Ident::from_text(ID_TEXT).unwrap();
    let col = RusCollection::<Greeting>::create("test".to_string());
    RusDocument::create(id, col, Greeting { hello: "world".to_string() })
}

#[test]
fn stored_bytes_are_real_bson() {
    let bytes = sample_handle().to_vec();
    let parsed: bson::Document = bson::from_slice(&bytes).expect("output must be valid BSON");
    assert_eq!(parsed.get_str("hello").unwrap(), "world");
    assert_eq!(parsed.get_str("_id").unwrap(), ID_TEXT);
}

#[test]
fn document_round_trip() {
    let h = sample_handle();
    let bytes = h.to_vec();
    let col = RusCollection::<Greeting>::create("test".to_string());
    let back = RusDocument::<Greeting>::from_slice(&bytes, col).expect("round trip must decode");
    assert_eq!(back.id().to_text(), ID_TEXT);
    assert_eq!(back.document.hello, "world");
}

#[test]
fn malformed_bytes_are_reported() {
    let col = RusCollection::<Greeting>::create("test".to_string());
    let r = RusDocument::<Greeting>::from_slice(&[1, 2, 3], col);
    assert!(matches!(r, Err(DbError::MalformedDocument)));
}

#[test]
fn missing_identifier_is_reported() {
    let mut doc = bson::Document::new();
    doc.insert("hello", bson::Bson::String("world".to_string()));
    let bytes = bson::to_vec(&doc).unwrap();
    let col = RusCollection::<Greeting>::create("test".to_string());
    let r = RusDocument::<Greeting>::from_slice(&bytes, col);
    assert!(matches!(r, Err(DbError::MissingIdentifier)));
}

#[test]
fn unparseable_identifier_is_reported() {
    let mut doc = bson::Document::new();
    doc.insert("_id", bson::Bson::String("not-an-identifier".to_string()));
    doc.insert("hello", bson::Bson::String("world".to_string()));
    let bytes = bson::to_vec(&doc).unwrap();
    let col = RusCollection::<Greeting>::create("test".to_string());
    let r = RusDocument::<Greeting>::from_slice(&bytes, col);
    assert!(matches!(r, Err(DbError::MissingIdentifier)));
}

#[test]
fn payload_mismatch_is_reported() {
    let mut doc = bson::Document::new();
    doc.insert("_id", bson::Bson::String(ID_TEXT.to_string()));
    doc.insert("greeting", bson::Bson::String("world".to_string()));
    let bytes = bson::to_vec(&doc).unwrap();
    let col = RusCollection::<Greeting>::create("test".to_string());
    let r = RusDocument::<Greeting>::from_slice(&bytes, col);
    assert!(matches!(r, Err(DbError::PayloadMismatch)));
}

#[test]
fn decode_ignores_extra_fields() {
    let mut doc = bson::Document::new();
    doc.insert("_id", bson::Bson::String(ID_TEXT.to_string()));
    doc.insert("hello", bson::Bson::String("world".to_string()));
    doc.insert("extra", bson::Bson::Int64(7));
    doc.insert("flag", bson::Bson::Boolean(true));
    let bytes = bson::to_vec(&doc).unwrap();
    let col = RusCollection::<Greeting>::create("test".to_string());
    let back = RusDocument::<Greeting>::from_slice(&bytes, col).expect("extra fields are ignored");
    assert_eq!(back.document.hello, "world");
}

#[test]
fn reserved_dollar_key_is_rejected() {
    let mut doc = bson::Document::new();
    doc.insert("_id", bson::Bson::String(ID_TEXT.to_string()));
    doc.insert("hello", bson::Bson::String("world".to_string()));
    doc.insert("$weight", bson::Bson::Int64(7));
    let bytes = bson::to_vec(&doc).unwrap();
    let col = RusCollection::<Greeting>::create("test".to_string());
    let r = RusDocument::<Greeting>::from_slice(&bytes, col);
    assert!(matches!(r, Err(DbError::MalformedDocument)));
}

#[test]
fn filter_documents_encode_every_value_kind() {
    let mut filter = Doc::new();
    filter.set("name".to_string(), Value::Text("primary".to_string()));
    filter.set("weight".to_string(), Value::Int(5));
    filter.set("active".to_string(), Value::Bool(true));
    let col = RusCollection::<Greeting>::create("test".to_string());
    let req = col.remove_request(&filter, Some(2));
    assert_eq!(req.collection, "test");
    assert_eq!(req.limit, Some(2));
    let parsed: bson::Document = bson::from_slice(&req.filter).unwrap();
    assert_eq!(parsed.get_str("name").unwrap(), "primary");
    assert_eq!(parsed.get_i64("weight").unwrap(), 5);
    assert_eq!(parsed.get_bool("active").unwrap(), true);
}
