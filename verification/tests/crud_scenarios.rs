//! The CRUD cycle end to end against a small in-test store that answers
//! the six primitive operations the way the wire contract describes them.

use rusdb_core::collection::RusCollection;
use rusdb_core::payload::Greeting;
use rusdb_core::wire::{
    FindRequest, FindResponse, GetRequest, GetResponse, InsertRequest, InsertResponse,
    InsertResponses, RemoveRequest, RemoveResponse, UpdateRequest, UpdateResponses,
};
use rusdb_core::DbError;

const ID1: &str = "56a0212f-e21d-48de-81af-7fdc08fee5a2";
const ID2: &str = "00112233-4455-6677-8899-aabbccddeeff";

/// One collection's records, keyed by identifier text, playing the server.
struct FakeStore {
    records: Vec<(String, Vec<u8>)>,
}

impl FakeStore {
    fn new() -> FakeStore {
        FakeStore { records: Vec::new() }
    }

    fn handle_insert(&mut self, req: &InsertRequest, ids: &[&str]) -> InsertResponses {
        let mut inserts = Vec::new();
        let mut count = 0u32;
        for (k, bytes) in req.documents.iter().enumerate() {
            let mut doc: bson::Document = bson::from_slice(bytes).unwrap();
            doc.insert("_id", bson::Bson::String(ids[k].to_string()));
            let stored = bson::to_vec(&doc).unwrap();
            self.records.push((ids[k].to_string(), stored.clone()));
            count += 1;
            inserts.push(InsertResponse { document: Some(stored) });
        }
        InsertResponses { count, inserts }
    }

    fn handle_get(&self, req: &GetRequest) -> GetResponse {
        GetResponse {
            document: self
                .records
                .iter()
                .find(|(k, _)| *k == req.id)
                .map(|(_, b)| b.clone()),
        }
    }

    fn handle_find_all(&self, _req: &FindRequest) -> FindResponse {
        FindResponse { documents: self.records.iter().map(|(_, b)| b.clone()).collect() }
    }

    fn handle_remove(&mut self, req: &RemoveRequest) -> RemoveResponse {
        let filter: bson::Document = bson::from_slice(&req.filter).unwrap();
        if filter.is_empty() {
            let n = self.records.len() as u32;
            self.records.clear();
            return RemoveResponse { count: n };
        }
        let id = filter.get_str("_id").unwrap().to_string();
        let limit = req.limit.unwrap_or(u32::MAX) as usize;
        let mut removed = 0u32;
        self.records.retain(|(k, _)| {
            if *k == id && (removed as usize) < limit {
                removed += 1;
                false
            } else {
                true
            }
        });
        RemoveResponse { count: removed }
    }

    fn handle_update(&mut self, req: &UpdateRequest) -> UpdateResponses {
        let filter: bson::Document = bson::from_slice(&req.filter).unwrap();
        let id = filter.get_str("_id").unwrap().to_string();
        let mut updated = Vec::new();
        for (k, b) in self.records.iter_mut() {
            if *k == id {
                *b = req.updates.clone();
                updated.push(b.clone());
                break;
            }
        }
        UpdateResponses { updated }
    }

    fn bytes_for(&self, id: &str) -> Option<Vec<u8>> {
        self.records.iter().find(|(k, _)| k == id).map(|(_, b)| b.clone())
    }
}

fn greeting(text: &str) -> Greeting {
    Greeting { hello: text.to_string() }
}

#[test]
fn concrete_insert_find_delete_cycle() {
    let mut store = FakeStore::new();
    let col = RusCollection::<Greeting>::create("test".to_string());

    let req = col.insert_request(&greeting("world"));
    assert_eq!(req.collection, "test");
    assert!(req.return_old);
    let res = store.handle_insert(&req, &[ID1]);
    let doc = col.insert_response(&res).expect("one record accepted");
    assert_eq!(doc.document.hello, "world");
    assert_eq!(doc.id().to_text(), ID1);

    let fres = store.handle_find_all(&col.find_all_request(None));
    let found = col.find_response(&fres).expect("every record decodes");
    assert_eq!(found.len(), 1);
    assert_eq!(found[0].document.hello, "world");
    assert_eq!(found[0].id().to_text(), ID1);

    let dres = store.handle_remove(&doc.delete_request());
    assert_eq!(dres.count, 1);
    doc.delete_response(&dres).expect("exactly one record removed");

    let fres = store.handle_find_all(&col.find_all_request(None));
    let found = col.find_response(&fres).expect("every record decodes");
    assert!(found.is_empty());
}

#[test]
fn insert_then_get_returns_equal_payload() {
    let mut store = FakeStore::new();
    let col = RusCollection::<Greeting>::create("test".to_string());
    let res = store.handle_insert(&col.insert_request(&greeting("payload under test")), &[ID1]);
    let doc = col.insert_response(&res).unwrap();

    let gres = store.handle_get(&col.get_request(&doc.id()));
    let got = col.get_response(&gres).expect("present record decodes").expect("record is there");
    assert_eq!(got.document.hello, "payload under test");
    assert_eq!(got.id().to_text(), ID1);
}

#[test]
fn synchronize_twice_leaves_record_unchanged() {
    let mut store = FakeStore::new();
    let col = RusCollection::<Greeting>::create("test".to_string());
    let res = store.handle_insert(&col.insert_request(&greeting("first")), &[ID1]);
    let mut doc = col.insert_response(&res).unwrap();

    doc.document.hello = "second".to_string();
    store.handle_update(&doc.sync_request());
    let after_first = store.bytes_for(ID1).unwrap();

    store.handle_update(&doc.sync_request());
    let after_second = store.bytes_for(ID1).unwrap();
    assert_eq!(after_first, after_second);

    let gres = store.handle_get(&col.get_request(&doc.id()));
    let got = col.get_response(&gres).unwrap().unwrap();
    assert_eq!(got.document.hello, "second");
}

#[test]
fn delete_then_get_reports_not_found() {
    let mut store = FakeStore::new();
    let col = RusCollection::<Greeting>::create("test".to_string());
    let res = store.handle_insert(&col.insert_request(&greeting("gone soon")), &[ID1]);
    let doc = col.insert_response(&res).unwrap();
    let id = doc.id();

    let dres = store.handle_remove(&doc.delete_request());
    doc.delete_response(&dres).expect("first delete succeeds");

    let gres = store.handle_get(&col.get_request(&id));
    assert!(col.get_response(&gres).unwrap().is_none());
}

#[test]
fn delete_twice_fails_with_nothing_removed() {
    let mut store = FakeStore::new();
    let col = RusCollection::<Greeting>::create("test".to_string());
    let res = store.handle_insert(&col.insert_request(&greeting("twice")), &[ID1]);
    let first = col.insert_response(&res).unwrap();

    let gres = store.handle_get(&col.get_request(&first.id()));
    let second = col.get_response(&gres).unwrap().expect("second handle to the same record");

    let dres = store.handle_remove(&first.delete_request());
    first.delete_response(&dres).expect("first delete succeeds");

    let dres = store.handle_remove(&second.delete_request());
    assert_eq!(dres.count, 0);
    let r = second.delete_response(&dres);
    assert!(matches!(r, Err(DbError::NoDocumentRemoved)));
}

#[test]
fn truncate_reports_prior_size_and_empties_collection() {
    let mut store = FakeStore::new();
    let col = RusCollection::<Greeting>::create("test".to_string());
    let batch = vec![greeting("one"), greeting("two")];
    let res = store.handle_insert(&col.insert_many_request(&batch), &[ID1, ID2]);
    let docs = col.insert_many_response(&res).expect("both records accepted");
    assert_eq!(docs.len(), 2);
    assert_eq!(docs[0].document.hello, "one");
    assert_eq!(docs[1].document.hello, "two");

    let tres = store.handle_remove(&col.truncate_request());
    assert_eq!(col.remove_response(&tres), 2);

    let fres = store.handle_find_all(&col.find_all_request(None));
    assert!(col.find_response(&fres).unwrap().is_empty());
}

#[test]
fn update_response_decodes_updated_records() {
    let mut store = FakeStore::new();
    let col = RusCollection::<Greeting>::create("test".to_string());
    let res = store.handle_insert(&col.insert_request(&greeting("before")), &[ID1]);
    let mut doc = col.insert_response(&res).unwrap();

    doc.document.hello = "after".to_string();
    let ures = store.handle_update(&doc.sync_request());
    let updated = col.update_response(&ures).expect("updated records decode");
    assert_eq!(updated.len(), 1);
    assert_eq!(updated[0].document.hello, "after");
}

#[test]
fn insert_nothing_inserted_is_reported() {
    let col = RusCollection::<Greeting>::create("test".to_string());
    let res = InsertResponses { count: 0, inserts: Vec::new() };
    assert!(matches!(col.insert_response(&res), Err(DbError::NothingInserted)));
    assert!(matches!(col.insert_many_response(&res), Err(DbError::NothingInserted)));
}

#[test]
fn insert_no_document_returned_is_reported() {
    let col = RusCollection::<Greeting>::create("test".to_string());
    let res = InsertResponses { count: 1, inserts: Vec::new() };
    assert!(matches!(col.insert_response(&res), Err(DbError::NoDocumentReturned)));
}

#[test]
fn insert_missing_body_is_reported() {
    let col = RusCollection::<Greeting>::create("test".to_string());
    let res = InsertResponses { count: 1, inserts: vec![InsertResponse { document: None }] };
    assert!(matches!(col.insert_response(&res), Err(DbError::MissingBody)));
    assert!(matches!(col.insert_many_response(&res), Err(DbError::MissingBody)));
}

#[test]
fn malformed_batch_fails_whole_call() {
    let col = RusCollection::<Greeting>::create("test".to_string());
    let res = FindResponse { documents: vec![vec![9, 9, 9]] };
    assert!(matches!(col.find_response(&res), Err(DbError::MalformedDocument)));
}
