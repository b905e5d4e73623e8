//! Payload types: the application shapes a collection is specialized for.
//!
//! A payload type says how its values map to and from the generic field map
//! of a stored document. Stored documents additionally carry the reserved
//! identifier field, which a payload never owns: decoding ignores it.

use vstd::prelude::*;

use crate::doc::{key_ok, Doc, Val, Value};

verus! {

/// The reserved field name under which a record's identifier is stored.
pub open spec fn id_key() -> Seq<char> {
    "_id"@
}

/// The reserved identifier field name.
pub fn id_field_name() -> (r: String)
    ensures
        r@ == id_key(),
        key_ok(id_key()),
{
    proof {
        reveal_strlit("_id");
        assert(!id_key().contains('\0')) by {
            assert(forall|i: int| 0 <= i < id_key().len() ==> id_key()[i] != '\0');
        }
    }
    String::from_str("_id")
}

/// A type whose values one collection stores, one per document.
pub trait Payload: Sized {
    /// The field map a value encodes to.
    spec fn fields(&self) -> Map<Seq<char>, Val>;

    /// Whether a stored field map decodes to this value.
    spec fn decodes(m: Map<Seq<char>, Val>, v: Self) -> bool;

    /// A value decodes from its own encoding, whatever identifier is stored
    /// beside it.
    proof fn lemma_round_trip(&self, idv: Val)
        ensures
            Self::decodes(self.fields().insert(id_key(), idv), *self),
    ;

    /// Two values decoding from one map encode to the same fields.
    proof fn lemma_decodes_agree(m: Map<Seq<char>, Val>, v1: Self, v2: Self)
        requires
            Self::decodes(m, v1),
            Self::decodes(m, v2),
        ensures
            v1.fields() == v2.fields(),
    ;

    /// Encode a value as a document of its fields.
    fn encode(&self) -> (d: Doc)
        ensures
            d.as_map() == self.fields(),
    ;

    /// Decode a stored document, ignoring fields the type does not use.
    fn decode(d: &Doc) -> (r: Option<Self>)
        ensures
            match r {
                Some(v) => Self::decodes(d.as_map(), v),
                None => forall|v: Self| !Self::decodes(d.as_map(), v),
            },
    ;
}

/// A small payload: one text field named "hello".
#[derive(Debug)]
pub struct Greeting {
    pub hello: String,
}

/// The field name a `Greeting` stores its text under.
pub open spec fn hello_key() -> Seq<char> {
    "hello"@
}

impl Clone for Greeting {
    /// A copy with the same text.
    fn clone(&self) -> (r: Self)
        ensures
            r.hello@ == self.hello@,
    {
        Greeting { hello: self.hello.clone() }
    }
}

impl Payload for Greeting {
    open spec fn fields(&self) -> Map<Seq<char>, Val> {
        Map::empty().insert(hello_key(), Val::Text(self.hello@))
    }

    open spec fn decodes(m: Map<Seq<char>, Val>, v: Self) -> bool {
        m.contains_key(hello_key()) && m[hello_key()] == Val::Text(v.hello@)
    }

    proof fn lemma_round_trip(&self, idv: Val) {
        assert(id_key() != hello_key()) by {
            reveal_strlit("_id");
            reveal_strlit("hello");
            assert(id_key().len() == 3);
            assert(hello_key().len() == 5);
        }
    }

    proof fn lemma_decodes_agree(m: Map<Seq<char>, Val>, v1: Self, v2: Self) {
        assert(v1.fields() =~= v2.fields());
    }

    fn encode(&self) -> (d: Doc) {
        proof {
            reveal_strlit("hello");
            assert(key_ok(hello_key())) by {
                assert(forall|i: int| 0 <= i < hello_key().len() ==> hello_key()[i] != '\0');
                assert(hello_key()[0] == 'h');
            }
        }
        let mut d = Doc::new();
        d.set(String::from_str("hello"), Value::Text(self.hello.clone()));
        proof {
            assert(d.as_map() =~= self.fields());
        }
        d
    }

    fn decode(d: &Doc) -> (r: Option<Self>) {
        let key = String::from_str("hello");
        match d.get(&key) {
            Some(v) => match v {
                Value::Text(s) => Some(Greeting { hello: s.clone() }),
                _ => None,
            },
            None => None,
        }
    }
}

} // verus!
