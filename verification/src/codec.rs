//! The boundary to the binary document encoding. The encoding's own format
//! is owned by the `bson` crate and treated as an opaque pair of inverse
//! functions; the two names below stand for its results.

use vstd::prelude::*;

use crate::doc::{map_of, Doc, Field, Val, Value};

verus! {

/// Whether byte buffer `b` is the encoding of some field sequence denoting
/// the map `m`.
pub open spec fn encodes_map(b: Seq<u8>, m: Map<Seq<char>, Val>) -> bool {
    match doc_of_bytes(b) {
        Some(e) => b == bytes_of(e) && map_of(e) == m,
        None => false,
    }
}

/// The byte encoding of a field sequence.
pub uninterp spec fn bytes_of(d: Seq<(Seq<char>, Val)>) -> Seq<u8>;

/// The field sequence a byte buffer decodes to, if it decodes at all.
pub uninterp spec fn doc_of_bytes(b: Seq<u8>) -> Option<Seq<(Seq<char>, Val)>>;

/// Relies on bson::to_vec over a bson::Document built field for field from
/// `d` (text to String, integer to Int64, boolean to Boolean). Keys of a
/// document are unique and hold no NUL character, so serialization cannot
/// fail; and since no key opens with a dollar sign, bson::from_slice sees
/// none of its reserved extended syntax and parses the produced bytes back
/// to the same document, which grounds the second clause.
#[verifier::external_body]
pub(crate) fn doc_to_bytes(d: &Doc) -> (r: Vec<u8>)
    ensures
        r@ == bytes_of(d@),
        doc_of_bytes(r@) == Some(d@),
{
    let mut out = bson::Document::new();
    for f in d.fields.iter() {
        match &f.value {
            Value::Text(s) => out.insert(f.name.clone(), bson::Bson::String(s.clone())),
            Value::Int(n) => out.insert(f.name.clone(), bson::Bson::Int64(*n)),
            Value::Bool(b) => out.insert(f.name.clone(), bson::Bson::Boolean(*b)),
        };
    }
    bson::to_vec(&out).expect("keys are unique and NUL-free")
}

/// Relies on bson::from_slice to bson::Document: either the buffer parses
/// to a document (keys unique, NUL-free) or an error is reported. Entries
/// are converted back one for one; a buffer whose document holds any value
/// kind beyond text, 64-bit integer and boolean, or a key opening with the
/// dollar sign of the reserved extended syntax, decodes to nothing here.
#[verifier::external_body]
pub(crate) fn bytes_to_doc(b: &[u8]) -> (r: Option<Doc>)
    ensures
        match r {
            Some(d) => doc_of_bytes(b@) == Some(d@),
            None => doc_of_bytes(b@) is None,
        },
{
    let parsed: bson::Document = match bson::from_slice(b) { Ok(p) => p, Err(_) => return None };
    let mut fields: Vec<Field> = Vec::new();
    for (k, v) in parsed.iter() {
        if k.starts_with('$') { return None; }
        let value = match v {
            bson::Bson::String(s) => Value::Text(s.clone()),
            bson::Bson::Int64(n) => Value::Int(*n),
            bson::Bson::Boolean(x) => Value::Bool(*x),
            _ => return None,
        };
        fields.push(Field { name: k.clone(), value });
    }
    Some(Doc { fields })
}

} // verus!
