//! The typed layer: a collection view specialized for one payload type, and
//! handles bound to single remote records.
//!
//! Each remote operation splits into a request builder and a response
//! interpreter: the builder encodes the operation's documents and fills the
//! request, the interpreter decides what the server's answer means. The
//! channel between them is the caller's; nothing here performs a call.

use core::marker::PhantomData;

use vstd::prelude::*;

use crate::codec::{bytes_of, bytes_to_doc, doc_of_bytes, doc_to_bytes, encodes_map};
use crate::doc::{map_of, Doc, Val, Value};
use crate::errors::DbError;
use crate::ident::{hyphenated, lemma_uuid_round_trip, parse_uuid, Ident};
use crate::payload::{id_field_name, id_key, Payload};
use crate::wire::{
    find_request, get_request, insert_many_request, insert_request, remove_request, update_request,
    FindRequest, FindResponse, GetRequest, GetResponse, InsertRequest, InsertResponse,
    InsertResponses, RemoveRequest, RemoveResponse, UpdateRequest, UpdateResponses,
};

verus! {

/// The identifier a stored field map carries, if it carries one of the
/// expected shape: text under the reserved name, in the canonical form.
pub open spec fn id_of_map(m: Map<Seq<char>, Val>) -> Option<Seq<u8>> {
    if m.contains_key(id_key()) {
        match m[id_key()] {
            Val::Text(s) => parse_uuid(s),
            _ => None,
        }
    } else {
        None
    }
}

/// The filter map selecting exactly the record with identifier `id`.
pub open spec fn id_filter_map(id: Seq<u8>) -> Map<Seq<char>, Val> {
    Map::empty().insert(id_key(), Val::Text(hyphenated(id)))
}

/// Why a decoded document yields no handle of payload type `T`, if so.
pub open spec fn doc_decode_failure<T: Payload>(m: Map<Seq<char>, Val>) -> Option<DbError> {
    if id_of_map(m) is None {
        Some(DbError::MissingIdentifier)
    } else if forall|v: T| !T::decodes(m, v) {
        Some(DbError::PayloadMismatch)
    } else {
        None
    }
}

/// Why a returned byte buffer yields no handle of payload type `T`, if so.
pub open spec fn decode_failure<T: Payload>(b: Seq<u8>) -> Option<DbError> {
    match doc_of_bytes(b) {
        None => Some(DbError::MalformedDocument),
        Some(m) => doc_decode_failure::<T>(map_of(m)),
    }
}

/// What holds of a handle decoded from byte buffer `b` for a collection
/// named `cname`.
pub open spec fn handle_decodes<T: Payload>(b: Seq<u8>, cname: Seq<char>, h: RusDocument<T>) -> bool {
    &&& h.collection_name() == cname
    &&& match doc_of_bytes(b) {
        Some(m) => id_of_map(map_of(m)) == Some(h.id_bytes()) && T::decodes(map_of(m), h.payload()),
        None => false,
    }
}

/// The first decode failure in a batch of returned byte buffers, if any.
pub open spec fn batch_failure<T: Payload>(bufs: Seq<Seq<u8>>) -> Option<DbError>
    decreases bufs.len(),
{
    if bufs.len() == 0 {
        None
    } else if decode_failure::<T>(bufs[0]) is Some {
        decode_failure::<T>(bufs[0])
    } else {
        batch_failure::<T>(bufs.skip(1))
    }
}

/// A batch whose first `i` buffers decode fails like its remainder.
proof fn lemma_batch_skip<T: Payload>(bufs: Seq<Seq<u8>>, i: int)
    requires
        0 <= i <= bufs.len(),
        forall|j: int| 0 <= j < i ==> decode_failure::<T>(#[trigger] bufs[j]) is None,
    ensures
        batch_failure::<T>(bufs) == batch_failure::<T>(bufs.skip(i)),
    decreases i,
{
    if i > 0 {
        lemma_batch_skip::<T>(bufs.skip(1), i - 1);
        assert(bufs.skip(1).skip(i - 1) =~= bufs.skip(i));
    } else {
        assert(bufs.skip(0) =~= bufs);
    }
}

/// What fails about one insert response item, if anything: a missing body,
/// or whatever fails about its document.
pub open spec fn insert_item_failure<T: Payload>(item: Option<Seq<u8>>) -> Option<DbError> {
    match item {
        None => Some(DbError::MissingBody),
        Some(b) => decode_failure::<T>(b),
    }
}

/// The first failure among a batch of insert response items, if any.
pub open spec fn inserts_failure<T: Payload>(items: Seq<Option<Seq<u8>>>) -> Option<DbError>
    decreases items.len(),
{
    if items.len() == 0 {
        None
    } else if insert_item_failure::<T>(items[0]) is Some {
        insert_item_failure::<T>(items[0])
    } else {
        inserts_failure::<T>(items.skip(1))
    }
}

/// A batch whose first `i` items are sound fails like its remainder.
proof fn lemma_inserts_skip<T: Payload>(items: Seq<Option<Seq<u8>>>, i: int)
    requires
        0 <= i <= items.len(),
        forall|j: int| 0 <= j < i ==> insert_item_failure::<T>(#[trigger] items[j]) is None,
    ensures
        inserts_failure::<T>(items) == inserts_failure::<T>(items.skip(i)),
    decreases i,
{
    if i > 0 {
        lemma_inserts_skip::<T>(items.skip(1), i - 1);
        assert(items.skip(1).skip(i - 1) =~= items.skip(i));
    } else {
        assert(items.skip(0) =~= items);
    }
}

/// The byte views the items of an insert response carry.
pub open spec fn opts_of(s: Seq<InsertResponse>) -> Seq<Option<Seq<u8>>> {
    s.map_values(
        |x: InsertResponse|
            match x.document {
                Some(v) => Some(v@),
                None => None::<Seq<u8>>,
            },
    )
}

/// The byte views of a list of buffers.
pub open spec fn views_of(s: Seq<Vec<u8>>) -> Seq<Seq<u8>> {
    s.map_values(|v: Vec<u8>| v@)
}

/// Round trip: a byte buffer holding the stored form of value `v` under
/// identifier `id` decodes, its identifier comes back as `id`, `v` itself
/// is a decode of it, and every decode of it has `v`'s fields.
pub proof fn lemma_document_round_trip<T: Payload>(v: T, id: Seq<u8>, b: Seq<u8>)
    requires
        id.len() == 16,
        encodes_map(b, v.fields().insert(id_key(), Val::Text(hyphenated(id)))),
    ensures
        decode_failure::<T>(b) is None,
        ({
            let m = map_of(doc_of_bytes(b).unwrap());
            &&& id_of_map(m) == Some(id)
            &&& T::decodes(m, v)
            &&& forall|w: T| #[trigger] T::decodes(m, w) ==> w.fields() == v.fields()
        }),
{
    let m = map_of(doc_of_bytes(b).unwrap());
    lemma_uuid_round_trip(id);
    assert(m.contains_key(id_key()) && m[id_key()] == Val::Text(hyphenated(id)));
    v.lemma_round_trip(Val::Text(hyphenated(id)));
    assert(T::decodes(m, v));
    assert forall|w: T| #[trigger] T::decodes(m, w) implies w.fields() == v.fields() by {
        T::lemma_decodes_agree(m, w, v);
    }
}

/// The outcome a delete decides from the removal count: success exactly
/// when one record went away.
pub open spec fn delete_outcome(count: u32) -> Result<(), DbError> {
    if count == 1 {
        Ok(())
    } else {
        Err(DbError::NoDocumentRemoved)
    }
}

/// A typed, named view into one remote collection: every document obtained
/// through it encodes and decodes with the same payload type.
#[derive(Debug)]
pub struct RusCollection<T: Payload> {
    collection: String,
    document_type: PhantomData<T>,
}

/// A typed handle bound to one remote record by identifier and owning
/// collection. The payload is the holder's local value; it changes nothing
/// remotely until pushed back with a synchronize round.
#[derive(Debug)]
pub struct RusDocument<T: Payload> {
    _id: Ident,
    collection: RusCollection<T>,
    pub document: T,
}

impl<T: Payload> RusCollection<T> {
    /// The remote collection's name.
    pub closed spec fn name(&self) -> Seq<char> {
        self.collection@
    }

    /// A typed view onto the remote collection called `collection`.
    pub fn create(collection: String) -> (r: Self)
        ensures
            r.name() == collection@,
    {
        RusCollection { collection, document_type: PhantomData }
    }

    /// Decode one returned byte buffer into a handle of this collection.
    fn create_document_vec(&self, data: &[u8]) -> (r: Result<RusDocument<T>, DbError>)
        ensures
            match r {
                Ok(h) => decode_failure::<T>(data@) is None && handle_decodes(
                    data@,
                    self.name(),
                    h,
                ),
                Err(e) => decode_failure::<T>(data@) == Some(e),
            },
    {
        RusDocument::from_slice(data, self.clone())
    }

    /// Decode every buffer of a batch, strictly: one bad buffer fails the
    /// whole call rather than understating what the server did.
    fn decode_documents(&self, bufs: &Vec<Vec<u8>>) -> (r: Result<Vec<RusDocument<T>>, DbError>)
        ensures
            match r {
                Ok(hs) => batch_failure::<T>(views_of(bufs@)) is None && hs@.len() == bufs@.len()
                    && forall|i: int|
                    0 <= i < hs@.len() ==> handle_decodes(bufs@[i]@, self.name(), #[trigger] hs@[i]),
                Err(e) => batch_failure::<T>(views_of(bufs@)) == Some(e),
            },
    {
        let ghost bs = views_of(bufs@);
        let mut out: Vec<RusDocument<T>> = Vec::new();
        let mut i: usize = 0;
        while i < bufs.len()
            invariant
                i <= bufs@.len(),
                out@.len() == i,
                bs == views_of(bufs@),
                forall|j: int| 0 <= j < i ==> decode_failure::<T>(#[trigger] bs[j]) is None,
                forall|j: int|
                    0 <= j < i ==> handle_decodes(bufs@[j]@, self.name(), #[trigger] out@[j]),
            decreases bufs@.len() - i,
        {
            match self.create_document_vec(bufs[i].as_slice()) {
                Ok(h) => {
                    out.push(h);
                },
                Err(e) => {
                    proof {
                        lemma_batch_skip::<T>(bs, i as int);
                        assert(bs.skip(i as int)[0] == bs[i as int]);
                    }
                    return Err(e);
                },
            }
            i += 1;
        }
        proof {
            lemma_batch_skip::<T>(bs, bs.len() as int);
            assert(bs.skip(bs.len() as int).len() == 0);
        }
        Ok(out)
    }

    /// Build the request inserting `doc`, encoded, asking the record back.
    pub fn insert_request(&self, doc: &T) -> (r: InsertRequest)
        ensures
            r.collection@ == self.name(),
            r.return_old == true,
            r.documents@.len() == 1,
            encodes_map(r.documents@[0]@, doc.fields()),
    {
        let d = doc.encode();
        insert_request(self.collection.as_str(), &d, true)
    }

    /// Decide what an insert response means: nothing inserted and nothing
    /// returned are failures of their own; otherwise the first returned
    /// document becomes the handle.
    pub fn insert_response(&self, res: &InsertResponses) -> (r: Result<RusDocument<T>, DbError>)
        ensures
            match r {
                Ok(h) => res.count != 0 && res.inserts@.len() > 0 && res.inserts@[0].document
                    is Some && decode_failure::<T>(res.inserts@[0].document.unwrap()@) is None
                    && handle_decodes(res.inserts@[0].document.unwrap()@, self.name(), h),
                Err(e) => if res.count == 0 {
                    e == DbError::NothingInserted
                } else if res.inserts@.len() == 0 {
                    e == DbError::NoDocumentReturned
                } else if res.inserts@[0].document is None {
                    e == DbError::MissingBody
                } else {
                    Some(e) == decode_failure::<T>(res.inserts@[0].document.unwrap()@)
                },
            },
    {
        if res.count == 0 {
            return Err(DbError::NothingInserted);
        }
        if res.inserts.len() == 0 {
            return Err(DbError::NoDocumentReturned);
        }
        match &res.inserts[0].document {
            None => Err(DbError::MissingBody),
            Some(data) => self.create_document_vec(data.as_slice()),
        }
    }

    /// Build the request inserting a batch of values, encoded in order.
    pub fn insert_many_request(&self, docs: &Vec<T>) -> (r: InsertRequest)
        ensures
            r.collection@ == self.name(),
            r.return_old == true,
            r.documents@.len() == docs@.len(),
            forall|i: int|
                0 <= i < docs@.len() ==> encodes_map(
                    (#[trigger] r.documents@[i])@,
                    (#[trigger] docs@[i]).fields(),
                ),
    {
        let mut encoded: Vec<Doc> = Vec::new();
        let mut i: usize = 0;
        while i < docs.len()
            invariant
                i <= docs@.len(),
                encoded@.len() == i,
                forall|j: int|
                    0 <= j < i ==> (#[trigger] encoded@[j]).as_map() == docs@[j].fields(),
            decreases docs@.len() - i,
        {
            encoded.push(docs[i].encode());
            i += 1;
        }
        let r = insert_many_request(self.collection.as_str(), &encoded, true);
        proof {
            assert forall|j: int| 0 <= j < docs@.len() implies encodes_map(
                (#[trigger] r.documents@[j])@,
                (#[trigger] docs@[j]).fields(),
            ) by {
                assert(doc_of_bytes(r.documents@[j]@) == Some(encoded@[j]@));
                assert(map_of(encoded@[j]@) == docs@[j].fields());
            }
        }
        r
    }

    /// Decide what an insert response means for a batch: zero accepted is a
    /// failure, and every returned document must carry a body and decode.
    pub fn insert_many_response(&self, res: &InsertResponses) -> (r: Result<
        Vec<RusDocument<T>>,
        DbError,
    >)
        ensures
            r matches Ok(hs) ==> res.count != 0 && inserts_failure::<T>(opts_of(res.inserts@))
                is None && hs@.len() == res.inserts@.len() && forall|i: int|
                0 <= i < hs@.len() ==> res.inserts@[i].document is Some && handle_decodes(
                    res.inserts@[i].document.unwrap()@,
                    self.name(),
                    #[trigger] hs@[i],
                ),
            r matches Err(e) ==> if res.count == 0 {
                e == DbError::NothingInserted
            } else {
                Some(e) == inserts_failure::<T>(opts_of(res.inserts@))
            },
    {
        if res.count == 0 {
            return Err(DbError::NothingInserted);
        }
        let ghost items = opts_of(res.inserts@);
        let mut out: Vec<RusDocument<T>> = Vec::new();
        let mut i: usize = 0;
        while i < res.inserts.len()
            invariant
                res.count != 0,
                i <= res.inserts@.len(),
                out@.len() == i,
                items == opts_of(res.inserts@),
                forall|j: int| 0 <= j < i ==> insert_item_failure::<T>(#[trigger] items[j]) is None,
                forall|j: int|
                    0 <= j < i ==> (#[trigger] res.inserts@[j]).document is Some && handle_decodes(
                        res.inserts@[j].document.unwrap()@,
                        self.name(),
                        out@[j],
                    ),
            decreases res.inserts@.len() - i,
        {
            match &res.inserts[i].document {
                None => {
                    proof {
                        lemma_inserts_skip::<T>(items, i as int);
                        assert(items.skip(i as int)[0] == items[i as int]);
                        assert(items[i as int] is None);
                    }
                    return Err(DbError::MissingBody);
                },
                Some(data) => {
                    match self.create_document_vec(data.as_slice()) {
                        Ok(h) => {
                            out.push(h);
                        },
                        Err(e) => {
                            proof {
                                lemma_inserts_skip::<T>(items, i as int);
                                assert(items.skip(i as int)[0] == items[i as int]);
                                assert(items[i as int] == Some(data@));
                            }
                            return Err(e);
                        },
                    }
                },
            }
            i += 1;
        }
        proof {
            lemma_inserts_skip::<T>(items, items.len() as int);
            assert(items.skip(items.len() as int).len() == 0);
        }
        Ok(out)
    }

    /// Build the request updating records matching an opaque filter.
    pub fn update_request(&self, filter: &Doc, updates: &Doc, limit: Option<u32>) -> (r:
        UpdateRequest)
        ensures
            r.collection@ == self.name(),
            r.filter@ == bytes_of(filter@),
            doc_of_bytes(r.filter@) == Some(filter@),
            r.updates@ == bytes_of(updates@),
            doc_of_bytes(r.updates@) == Some(updates@),
            r.limit == limit,
    {
        update_request(self.collection.as_str(), filter, updates, limit)
    }

    /// Decode every document the server reports as updated.
    pub fn update_response(&self, res: &UpdateResponses) -> (r: Result<
        Vec<RusDocument<T>>,
        DbError,
    >)
        ensures
            match r {
                Ok(hs) => batch_failure::<T>(views_of(res.updated@)) is None && hs@.len()
                    == res.updated@.len() && forall|i: int|
                    0 <= i < hs@.len() ==> handle_decodes(
                        res.updated@[i]@,
                        self.name(),
                        #[trigger] hs@[i],
                    ),
                Err(e) => batch_failure::<T>(views_of(res.updated@)) == Some(e),
            },
    {
        self.decode_documents(&res.updated)
    }

    /// Build the request removing records matching an opaque filter.
    pub fn remove_request(&self, filter: &Doc, limit: Option<u32>) -> (r: RemoveRequest)
        ensures
            r.collection@ == self.name(),
            r.filter@ == bytes_of(filter@),
            doc_of_bytes(r.filter@) == Some(filter@),
            r.limit == limit,
    {
        remove_request(self.collection.as_str(), filter, limit)
    }

    /// The count a remove response reports.
    pub fn remove_response(&self, res: &RemoveResponse) -> (r: u32)
        ensures
            r == res.count,
    {
        res.count
    }

    /// Build the request fetching records matching an opaque filter.
    pub fn find_request(&self, filter: &Doc, limit: Option<u32>) -> (r: FindRequest)
        ensures
            r.collection@ == self.name(),
            r.limit == limit,
            r.filter matches Some(b) && b@ == bytes_of(filter@) && doc_of_bytes(b@) == Some(
                filter@,
            ),
    {
        find_request(self.collection.as_str(), Some(filter), limit)
    }

    /// Build the request fetching every record, up to `limit`.
    pub fn find_all_request(&self, limit: Option<u32>) -> (r: FindRequest)
        ensures
            r.collection@ == self.name(),
            r.limit == limit,
            r.filter is None,
    {
        find_request(self.collection.as_str(), None, limit)
    }

    /// Decode every document a find returned.
    pub fn find_response(&self, res: &FindResponse) -> (r: Result<Vec<RusDocument<T>>, DbError>)
        ensures
            match r {
                Ok(hs) => batch_failure::<T>(views_of(res.documents@)) is None && hs@.len()
                    == res.documents@.len() && forall|i: int|
                    0 <= i < hs@.len() ==> handle_decodes(
                        res.documents@[i]@,
                        self.name(),
                        #[trigger] hs@[i],
                    ),
                Err(e) => batch_failure::<T>(views_of(res.documents@)) == Some(e),
            },
    {
        self.decode_documents(&res.documents)
    }

    /// Build the request fetching the record with identifier `id`.
    pub fn get_request(&self, id: &Ident) -> (r: GetRequest)
        ensures
            r.collection@ == self.name(),
            r.id@ == hyphenated(id@),
    {
        let text = id.to_text();
        get_request(self.collection.as_str(), text.as_str())
    }

    /// Decide what a get response means: an absent document is "not found",
    /// not an error; a present one must decode.
    pub fn get_response(&self, res: &GetResponse) -> (r: Result<Option<RusDocument<T>>, DbError>)
        ensures
            match r {
                Ok(opt) => match opt {
                    None => res.document is None,
                    Some(h) => res.document is Some && decode_failure::<T>(
                        res.document.unwrap()@,
                    ) is None && handle_decodes(res.document.unwrap()@, self.name(), h),
                },
                Err(e) => res.document is Some && decode_failure::<T>(res.document.unwrap()@)
                    == Some(e),
            },
    {
        match &res.document {
            None => Ok(None),
            Some(data) => match self.create_document_vec(data.as_slice()) {
                Ok(h) => Ok(Some(h)),
                Err(e) => Err(e),
            },
        }
    }

    /// Build the request removing every record: the empty filter, no limit.
    pub fn truncate_request(&self) -> (r: RemoveRequest)
        ensures
            r.collection@ == self.name(),
            r.limit is None,
            doc_of_bytes(r.filter@) == Some(Seq::<(Seq<char>, Val)>::empty()),
    {
        let empty = Doc::new();
        remove_request(self.collection.as_str(), &empty, None)
    }
}

impl<T: Payload> Clone for RusCollection<T> {
    /// A second view onto the same remote collection.
    fn clone(&self) -> (r: Self)
        ensures
            r.name() == self.name(),
    {
        RusCollection { collection: self.collection.clone(), document_type: PhantomData }
    }
}

impl<T: Payload> RusDocument<T> {
    /// The identifier binding this handle to its remote record.
    pub closed spec fn id_bytes(&self) -> Seq<u8> {
        self._id@
    }

    /// The current local value, as specifications see it.
    pub closed spec fn payload(&self) -> T {
        self.document
    }

    /// The name of the collection the handle came from.
    pub closed spec fn collection_name(&self) -> Seq<char> {
        self.collection.name()
    }

    /// The stored form of this handle: the payload's fields with the
    /// identifier written under the reserved name.
    pub open spec fn stored_map(&self) -> Map<Seq<char>, Val> {
        self.payload().fields().insert(id_key(), Val::Text(hyphenated(self.id_bytes())))
    }

    /// A handle for a known identifier, collection and local value.
    pub fn create(_id: Ident, collection: RusCollection<T>, document: T) -> (r: Self)
        ensures
            r.id_bytes() == _id@,
            r.collection_name() == collection.name(),
            r.payload() == document,
    {
        RusDocument { _id, collection, document }
    }

    /// Decode a returned byte buffer into a handle.
    pub fn from_slice(slice: &[u8], collection: RusCollection<T>) -> (r: Result<Self, DbError>)
        ensures
            match r {
                Ok(h) => decode_failure::<T>(slice@) is None && handle_decodes(
                    slice@,
                    collection.name(),
                    h,
                ),
                Err(e) => decode_failure::<T>(slice@) == Some(e),
            },
    {
        match bytes_to_doc(slice) {
            None => Err(DbError::MalformedDocument),
            Some(d) => Self::from_document(d, collection),
        }
    }

    /// Decode a document into a handle: extract the identifier from the
    /// reserved field, decode the payload from the rest.
    pub fn from_document(doc: Doc, collection: RusCollection<T>) -> (r: Result<Self, DbError>)
        ensures
            match r {
                Ok(h) => doc_decode_failure::<T>(doc.as_map()) is None && h.collection_name()
                    == collection.name() && id_of_map(doc.as_map()) == Some(h.id_bytes())
                    && T::decodes(doc.as_map(), h.payload()),
                Err(e) => doc_decode_failure::<T>(doc.as_map()) == Some(e),
            },
    {
        let key = id_field_name();
        let id = match doc.get(&key) {
            None => {
                return Err(DbError::MissingIdentifier);
            },
            Some(v) => match v {
                Value::Text(s) => match Ident::from_text(s.as_str()) {
                    Some(id) => id,
                    None => {
                        return Err(DbError::MissingIdentifier);
                    },
                },
                _ => {
                    return Err(DbError::MissingIdentifier);
                },
            },
        };
        match T::decode(&doc) {
            Some(document) => Ok(RusDocument { _id: id, collection, document }),
            None => Err(DbError::PayloadMismatch),
        }
    }

    /// The identifier, unchanged for the handle's whole life.
    pub fn id(&self) -> (r: Ident)
        ensures
            r@ == self.id_bytes(),
    {
        self._id.clone()
    }

    /// The stored form as a document: the encoded payload with the
    /// identifier field written over whatever the encoding held there.
    pub fn to_document(&self) -> (d: Doc)
        ensures
            d.as_map() == self.stored_map(),
    {
        let mut d = self.document.encode();
        d.set(id_field_name(), Value::Text(self._id.to_text()));
        d
    }

    /// The filter document selecting exactly this handle's record.
    fn id_doc(&self) -> (d: Doc)
        ensures
            d.as_map() == id_filter_map(self.id_bytes()),
    {
        let mut d = Doc::new();
        d.set(id_field_name(), Value::Text(self._id.to_text()));
        d
    }

    /// The stored form, encoded as bytes.
    pub fn to_vec(&self) -> (r: Vec<u8>)
        ensures
            encodes_map(r@, self.stored_map()),
    {
        let d = self.to_document();
        doc_to_bytes(&d)
    }

    /// Build the update pushing the current local value back to this
    /// handle's record: the identifier filter, the stored form, limit one.
    /// Whatever match count the server reports back carries no decision;
    /// only a transport failure fails a synchronize.
    pub fn sync_request(&self) -> (r: UpdateRequest)
        ensures
            r.collection@ == self.collection_name(),
            r.limit == Some(1u32),
            encodes_map(r.filter@, id_filter_map(self.id_bytes())),
            encodes_map(r.updates@, self.stored_map()),
    {
        let filter = self.id_doc();
        let updates = self.to_document();
        update_request(self.collection.collection.as_str(), &filter, &updates, Some(1))
    }

    /// Build the remove selecting exactly this handle's record, limit one.
    pub fn delete_request(&self) -> (r: RemoveRequest)
        ensures
            r.collection@ == self.collection_name(),
            r.limit == Some(1u32),
            encodes_map(r.filter@, id_filter_map(self.id_bytes())),
    {
        let filter = self.id_doc();
        remove_request(self.collection.collection.as_str(), &filter, Some(1))
    }

    /// Decide what the remove's answer means for a delete, consuming the
    /// handle either way: success exactly when one record was removed, the
    /// distinct "no document was removed" failure otherwise.
    pub fn delete_response(self, res: &RemoveResponse) -> (r: Result<(), DbError>)
        ensures
            r == delete_outcome(res.count),
    {
        if res.count == 1 {
            Ok(())
        } else {
            Err(DbError::NoDocumentRemoved)
        }
    }
}

} // verus!
