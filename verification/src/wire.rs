//! The six primitive operations' request and response shapes, and the
//! builders that fill a request from documents of the model. A request
//! carries documents already encoded as bytes; whoever owns the channel
//! sends it as it stands and hands the response back untouched.

use vstd::prelude::*;

use crate::codec::{bytes_of, doc_of_bytes, doc_to_bytes};
use crate::doc::Doc;

verus! {

/// Insert one or more encoded documents into a collection.
pub struct InsertRequest {
    pub collection: String,
    pub documents: Vec<Vec<u8>>,
    pub return_old: bool,
}

/// One inserted record, as the server returned it.
pub struct InsertResponse {
    pub document: Option<Vec<u8>>,
}

/// The server's answer to an insert: how many records it accepted, distinct
/// from the list of returned documents.
pub struct InsertResponses {
    pub count: u32,
    pub inserts: Vec<InsertResponse>,
}

/// Update every record matching a filter, up to a limit.
pub struct UpdateRequest {
    pub collection: String,
    pub filter: Vec<u8>,
    pub updates: Vec<u8>,
    pub limit: Option<u32>,
}

/// The post-update documents, one per updated record.
pub struct UpdateResponses {
    pub updated: Vec<Vec<u8>>,
}

/// Remove every record matching a filter, up to a limit.
pub struct RemoveRequest {
    pub collection: String,
    pub filter: Vec<u8>,
    pub limit: Option<u32>,
}

/// How many records a remove took out.
pub struct RemoveResponse {
    pub count: u32,
}

/// Fetch the record carrying an identifier, by its text form.
pub struct GetRequest {
    pub collection: String,
    pub id: String,
}

/// The fetched record, or nothing when no record carries the identifier.
pub struct GetResponse {
    pub document: Option<Vec<u8>>,
}

/// Fetch every record matching a filter, up to a limit; no filter matches
/// every record.
pub struct FindRequest {
    pub collection: String,
    pub filter: Option<Vec<u8>>,
    pub limit: Option<u32>,
}

/// The matching records.
pub struct FindResponse {
    pub documents: Vec<Vec<u8>>,
}

/// Build an insert request around one encoded document.
pub fn insert_request(collection: &str, document: &Doc, return_old: bool) -> (r: InsertRequest)
    ensures
        r.collection@ == collection@,
        r.return_old == return_old,
        r.documents@.len() == 1,
        r.documents@[0]@ == bytes_of(document@),
        doc_of_bytes(r.documents@[0]@) == Some(document@),
{
    InsertRequest {
        collection: collection.to_owned(),
        documents: vec![doc_to_bytes(document)],
        return_old,
    }
}

/// Build an insert request around a batch of encoded documents.
pub fn insert_many_request(collection: &str, documents: &Vec<Doc>, return_old: bool) -> (r:
    InsertRequest)
    ensures
        r.collection@ == collection@,
        r.return_old == return_old,
        r.documents@.len() == documents@.len(),
        forall|i: int|
            0 <= i < documents@.len() ==> (#[trigger] r.documents@[i])@ == bytes_of(documents@[i]@)
                && doc_of_bytes(r.documents@[i]@) == Some(documents@[i]@),
{
    let mut encoded: Vec<Vec<u8>> = Vec::new();
    let mut i: usize = 0;
    while i < documents.len()
        invariant
            i <= documents@.len(),
            encoded@.len() == i,
            forall|j: int|
                0 <= j < i ==> (#[trigger] encoded@[j])@ == bytes_of(documents@[j]@)
                    && doc_of_bytes(encoded@[j]@) == Some(documents@[j]@),
        decreases documents@.len() - i,
    {
        encoded.push(doc_to_bytes(&documents[i]));
        i += 1;
    }
    InsertRequest { collection: collection.to_owned(), documents: encoded, return_old }
}

/// Build an update request from a filter and an update document.
pub fn update_request(collection: &str, filter: &Doc, updates: &Doc, limit: Option<u32>) -> (r:
    UpdateRequest)
    ensures
        r.collection@ == collection@,
        r.filter@ == bytes_of(filter@),
        doc_of_bytes(r.filter@) == Some(filter@),
        r.updates@ == bytes_of(updates@),
        doc_of_bytes(r.updates@) == Some(updates@),
        r.limit == limit,
{
    UpdateRequest {
        collection: collection.to_owned(),
        filter: doc_to_bytes(filter),
        updates: doc_to_bytes(updates),
        limit,
    }
}

/// Build a remove request from a filter.
pub fn remove_request(collection: &str, filter: &Doc, limit: Option<u32>) -> (r: RemoveRequest)
    ensures
        r.collection@ == collection@,
        r.filter@ == bytes_of(filter@),
        doc_of_bytes(r.filter@) == Some(filter@),
        r.limit == limit,
{
    RemoveRequest { collection: collection.to_owned(), filter: doc_to_bytes(filter), limit }
}

/// Build a get request from an identifier's text form.
pub fn get_request(collection: &str, id: &str) -> (r: GetRequest)
    ensures
        r.collection@ == collection@,
        r.id@ == id@,
{
    GetRequest { collection: collection.to_owned(), id: id.to_owned() }
}

/// Build a find request; no filter means "match every record".
pub fn find_request(collection: &str, filter: Option<&Doc>, limit: Option<u32>) -> (r: FindRequest)
    ensures
        r.collection@ == collection@,
        r.limit == limit,
        match filter {
            Some(f) => r.filter matches Some(b) && b@ == bytes_of(f@) && doc_of_bytes(b@) == Some(
                f@,
            ),
            None => r.filter is None,
        },
{
    let encoded: Option<Vec<u8>> = match filter {
        Some(f) => Some(doc_to_bytes(f)),
        None => None,
    };
    FindRequest { collection: collection.to_owned(), filter: encoded, limit }
}

} // verus!
