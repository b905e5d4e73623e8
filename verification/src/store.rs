//! A specification model of one remote collection's records, as this
//! client relies on the server to behave: get by identifier, insert under
//! a fresh identifier, update-in-place, remove by identifier, truncate,
//! find with no filter. The laws of the CRUD cycle are proved over it.

use vstd::prelude::*;

use crate::collection::{delete_outcome, id_of_map};
use crate::doc::{map_of, Val};
use crate::errors::DbError;
use crate::ident::{hyphenated, lemma_uuid_round_trip};
use crate::payload::{id_key, Payload};

verus! {

/// One collection's records: each identifier names one stored document.
pub type StoreModel = Map<Seq<u8>, Seq<(Seq<char>, Val)>>;

/// A store state this model speaks about: finitely many records.
pub open spec fn store_wf(s: StoreModel) -> bool {
    s.dom().finite()
}

/// What a get returns: the record carrying `id`, or nothing; an absent
/// record is "not found", never an error.
pub open spec fn store_get(s: StoreModel, id: Seq<u8>) -> Option<Seq<(Seq<char>, Val)>> {
    if s.contains_key(id) {
        Some(s[id])
    } else {
        None
    }
}

/// The store after the server accepted an insert of document `d` under
/// the fresh identifier `id` it assigned.
pub open spec fn store_insert(s: StoreModel, id: Seq<u8>, d: Seq<(Seq<char>, Val)>) -> StoreModel {
    s.insert(id, d)
}

/// The store after an update whose filter selects exactly the record
/// `id`, limit one: that record becomes `d`; with no such record the
/// store stands unchanged.
pub open spec fn store_update_by_id(
    s: StoreModel,
    id: Seq<u8>,
    d: Seq<(Seq<char>, Val)>,
) -> StoreModel {
    if s.contains_key(id) {
        s.insert(id, d)
    } else {
        s
    }
}

/// The store and the reported count after a remove whose filter selects
/// exactly the record `id`, limit one.
pub open spec fn store_remove_by_id(s: StoreModel, id: Seq<u8>) -> (StoreModel, nat) {
    if s.contains_key(id) {
        (s.remove(id), 1nat)
    } else {
        (s, 0nat)
    }
}

/// The store and the reported count after a truncate: the empty filter
/// with no limit removes every record.
pub open spec fn store_truncate(s: StoreModel) -> (StoreModel, nat) {
    (Map::empty(), s.len())
}

/// What a find with no filter returns: every record.
pub open spec fn store_find_all(s: StoreModel) -> Set<Seq<(Seq<char>, Val)>> {
    s.values()
}

/// Insert then get: the record the server stored under the identifier it
/// assigned reads back whole, still carries that identifier, and its
/// payload decodes to the inserted value.
pub proof fn lemma_insert_then_get<T: Payload>(
    s: StoreModel,
    id: Seq<u8>,
    d: Seq<(Seq<char>, Val)>,
    v: T,
)
    requires
        id.len() == 16,
        map_of(d) == v.fields().insert(id_key(), Val::Text(hyphenated(id))),
    ensures
        store_get(store_insert(s, id, d), id) == Some(d),
        id_of_map(map_of(d)) == Some(id),
        T::decodes(map_of(d), v),
{
    lemma_uuid_round_trip(id);
    v.lemma_round_trip(Val::Text(hyphenated(id)));
}

/// Synchronize twice with no payload change between: the second push
/// changes nothing, and the record reads back the same after either.
pub proof fn lemma_synchronize_idempotent(s: StoreModel, id: Seq<u8>, d: Seq<(Seq<char>, Val)>)
    ensures
        store_update_by_id(store_update_by_id(s, id, d), id, d) == store_update_by_id(s, id, d),
        store_get(store_update_by_id(s, id, d), id) == store_get(
            store_update_by_id(store_update_by_id(s, id, d), id, d),
            id,
        ),
{
    if s.contains_key(id) {
        assert(s.insert(id, d).insert(id, d) =~= s.insert(id, d));
    }
}

/// Synchronize twice with no payload change, where the two pushes may
/// order the encoded fields differently: the record found afterwards still
/// decodes to the same value after either push.
pub proof fn lemma_synchronize_same_decode<T: Payload>(
    s: StoreModel,
    id: Seq<u8>,
    d1: Seq<(Seq<char>, Val)>,
    d2: Seq<(Seq<char>, Val)>,
    v: T,
)
    requires
        s.contains_key(id),
        map_of(d1) == map_of(d2),
        T::decodes(map_of(d1), v),
    ensures
        ({
            let s1 = store_update_by_id(s, id, d1);
            let s2 = store_update_by_id(s1, id, d2);
            &&& store_get(s1, id) == Some(d1)
            &&& store_get(s2, id) == Some(d2)
            &&& T::decodes(map_of(store_get(s1, id).unwrap()), v)
            &&& T::decodes(map_of(store_get(s2, id).unwrap()), v)
        }),
{
}

/// Delete then get: after a remove of `id` reported as done, no record
/// carries `id` any more.
pub proof fn lemma_delete_then_get(s: StoreModel, id: Seq<u8>)
    ensures
        store_get(store_remove_by_id(s, id).0, id) is None,
{
}

/// Delete twice: the first remove reports one record gone, the second
/// reports none, and the client turns that count into the distinct "no
/// document was removed" failure, never a silent success.
pub proof fn lemma_delete_twice(s: StoreModel, id: Seq<u8>)
    requires
        s.contains_key(id),
    ensures
        store_remove_by_id(s, id).1 == 1,
        store_remove_by_id(store_remove_by_id(s, id).0, id).1 == 0,
        store_remove_by_id(store_remove_by_id(s, id).0, id).0 == store_remove_by_id(s, id).0,
        delete_outcome(0) == Err::<(), DbError>(DbError::NoDocumentRemoved),
        delete_outcome(1) == Ok::<(), DbError>(()),
{
}

/// Truncate then find with no filter: the reported count is the number of
/// records the collection held, and afterwards nothing is found, neither
/// by find nor by any get.
pub proof fn lemma_truncate_then_find_all(s: StoreModel)
    requires
        store_wf(s),
    ensures
        store_truncate(s).1 == s.len(),
        store_find_all(store_truncate(s).0) =~= Set::<Seq<(Seq<char>, Val)>>::empty(),
        forall|id: Seq<u8>| store_get(store_truncate(s).0, id) is None,
{
    let e = store_truncate(s).0;
    assert forall|d: Seq<(Seq<char>, Val)>| !(#[trigger] store_find_all(e).contains(d)) by {
        if store_find_all(e).contains(d) {
            let k = choose|k: Seq<u8>| #[trigger] e.contains_key(k) && e[k] == d;
            assert(false);
        }
    }
}

} // verus!
