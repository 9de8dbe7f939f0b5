use dwn::message::builder::MessageBuilder;
use dwn::message::data::Data;
use dwn::message::descriptor::{Descriptor, Filter, FilterDateSort, RecordsWrite};
use dwn::message::Message;
use dwn::store::{DataStoreError, MessageStoreError, SurrealDB};
use dwn::timestamp::Timestamp;

const DID: &str = "did:example:123";

fn at(seconds: i128) -> Timestamp {
    Timestamp::from_unix_nanos(seconds * 1_000_000_000)
}

fn write_at(seconds: i128, data: Option<&str>) -> Message {
    let mut builder = MessageBuilder::new::<RecordsWrite>();
    if let Some(d) = data {
        builder = builder.data(Data::Base64(d.to_string()));
    }
    builder.build_at(at(seconds)).expect("Failed to build message")
}

fn stores() -> (SurrealDB, SurrealDB) {
    (SurrealDB::new(), SurrealDB::new())
}

#[test]
fn test_get_missing() {
    let (store, _data) = stores();
    let got = store.get(DID, "missing");
    assert!(got.is_err());
}

#[test]
fn test_delete_missing() {
    let (mut store, mut data) = stores();
    let got = store.delete(DID, "missing".to_string(), &mut data);
    assert!(got.is_err());
    assert!(matches!(got, Err(MessageStoreError::NotFound)));
}

#[test]
fn store_put_get_query_delete() {
    let (mut store, mut data) = stores();
    let message = write_at(1_700_000_000, None);

    let cid = store
        .put_at(DID, message.clone(), &mut data, at(1_700_000_001))
        .expect("Failed to put message");
    let got = store.get(DID, &cid.to_string()).expect("Failed to get message");
    assert_eq!(message, got);

    let filter = Filter {
        attester: Some(DID.to_string()),
        ..Default::default()
    };
    let got = store.query(DID, &filter).expect("Failed to query messages");
    assert_eq!(1, got.len());
    assert_eq!(got[0], message);

    store
        .delete(DID, cid.to_string(), &mut data)
        .expect("Failed to delete message");
    assert!(store.get(DID, &cid.to_string()).is_err());
}

#[test]
fn store_strips_data() {
    let (mut store, mut data) = stores();
    let mut message = write_at(1_700_000_000, Some("hello"));
    let cid = store
        .put_at(DID, message.clone(), &mut data, at(1_700_000_001))
        .expect("Failed to put message");
    message.data = None;
    let got = store.get(DID, &cid.to_string()).expect("Failed to get message");
    assert_eq!(message, got);
}

#[test]
fn store_delete_wrong_tenant() {
    let (mut store, mut data) = stores();
    let message = write_at(1_700_000_000, None);
    let cid = store
        .put_at(DID, message.clone(), &mut data, at(1_700_000_001))
        .expect("Failed to put message");

    // Deleting succeeds, but the message stays.
    let res = store.delete("wrong", cid.to_string(), &mut data);
    assert!(res.is_ok());
    let got = store.get(DID, &cid.to_string()).expect("Failed to get message");
    assert_eq!(message, got);
}

#[test]
fn store_get_wrong_tenant() {
    let (mut store, mut data) = stores();
    let message = write_at(1_700_000_000, None);
    let cid = store
        .put_at(DID, message, &mut data, at(1_700_000_001))
        .expect("Failed to put message");
    assert!(matches!(store.get("wrong", &cid.to_string()), Err(MessageStoreError::NotFound)));
}

#[test]
fn store_put_twice_fails() {
    let (mut store, mut data) = stores();
    let message = write_at(1_700_000_000, None);
    store
        .put_at(DID, message.clone(), &mut data, at(1_700_000_001))
        .expect("Failed to put message");
    let again = store.put_at(DID, message, &mut data, at(1_700_000_002));
    assert!(matches!(again, Err(MessageStoreError::BackendError(_))));
}

#[test]
fn store_query_by_record_id() {
    let (mut store, mut data) = stores();
    let message1 = write_at(1_700_000_000, Some("data1"));
    let message2 = write_at(1_700_000_000, Some("data2"));
    store
        .put_at(DID, message1.clone(), &mut data, at(1_700_000_001))
        .expect("Failed to put message");
    store
        .put_at(DID, message2.clone(), &mut data, at(1_700_000_001))
        .expect("Failed to put message");

    let got = store.query(DID, &Filter::default()).expect("Failed to query messages");
    assert_eq!(2, got.len());
    assert!(got.iter().any(|m| m.record_id == message1.record_id));
    assert!(got.iter().any(|m| m.record_id == message2.record_id));

    let filter = Filter {
        record_id: Some(message1.record_id.clone()),
        ..Default::default()
    };
    let got = store.query(DID, &filter).expect("Failed to query messages");
    assert_eq!(1, got.len());
    assert_eq!(got[0].record_id, message1.record_id);

    // Another tenant sees nothing.
    let got = store.query("did:example:other", &Filter::default()).expect("Failed to query");
    assert_eq!(0, got.len());
}

#[test]
fn store_query_sorts_by_creation() {
    let (mut store, mut data) = stores();
    let older = write_at(1_000, None);
    let middle = write_at(2_000, None);
    let newer = write_at(3_000, None);
    for m in [middle.clone(), newer.clone(), older.clone()] {
        store.put_at(DID, m, &mut data, at(5_000)).expect("Failed to put message");
    }

    let filter = Filter {
        date_sort: Some(FilterDateSort::CreatedAscending),
        ..Default::default()
    };
    let got = store.query(DID, &filter).expect("Failed to query messages");
    assert_eq!(got, vec![older.clone(), middle.clone(), newer.clone()]);

    let filter = Filter {
        date_sort: Some(FilterDateSort::CreatedDescending),
        ..Default::default()
    };
    let got = store.query(DID, &filter).expect("Failed to query messages");
    assert_eq!(got, vec![newer.clone(), middle.clone(), older.clone()]);

    // Without an order, messages come in the order in which they were stored.
    let got = store.query(DID, &Filter::default()).expect("Failed to query messages");
    assert_eq!(got, vec![middle, newer, older]);
}

#[test]
fn store_query_sort_is_stable() {
    let (mut store, mut data) = stores();
    let first = write_at(1_000, Some("a"));
    let second = write_at(1_000, Some("b"));
    store.put_at(DID, first.clone(), &mut data, at(5_000)).expect("put");
    store.put_at(DID, second.clone(), &mut data, at(5_000)).expect("put");
    let filter = Filter {
        date_sort: Some(FilterDateSort::CreatedDescending),
        ..Default::default()
    };
    let got = store.query(DID, &filter).expect("Failed to query messages");
    assert_eq!(got.len(), 2);
    assert_eq!(got[0].record_id, first.record_id);
    assert_eq!(got[1].record_id, second.record_id);
}

#[test]
fn store_query_sorts_by_publication() {
    let (mut store, mut data) = stores();
    let mut late = RecordsWrite::default();
    late.message_timestamp = at(1_000);
    late.date_published = Some(at(9_000));
    let mut early = RecordsWrite::default();
    early.message_timestamp = at(2_000);
    early.date_published = Some(at(8_000));
    let late = MessageBuilder::from_descriptor(Descriptor::RecordsWrite(late))
        .record_id(Some("late".to_string()))
        .build_at(at(1_000))
        .expect("build");
    let early = MessageBuilder::from_descriptor(Descriptor::RecordsWrite(early))
        .record_id(Some("early".to_string()))
        .build_at(at(2_000))
        .expect("build");
    store.put_at(DID, late.clone(), &mut data, at(5_000)).expect("put");
    store.put_at(DID, early.clone(), &mut data, at(5_000)).expect("put");

    let filter = Filter {
        date_sort: Some(FilterDateSort::PublishedAscending),
        ..Default::default()
    };
    let got = store.query(DID, &filter).expect("query");
    assert_eq!(got, vec![early.clone(), late.clone()]);

    let filter = Filter {
        date_sort: Some(FilterDateSort::PublishedDescending),
        ..Default::default()
    };
    let got = store.query(DID, &filter).expect("query");
    assert_eq!(got, vec![late, early]);
}

#[test]
fn store_keeps_data_by_reference() {
    let (mut store, mut data) = stores();
    let message1 = write_at(1_000, Some("shared"));
    let message2 = write_at(2_000, Some("shared"));
    let data_cid = Data::Base64("shared".to_string()).cid().to_string();

    let cid1 = store.put_at(DID, message1, &mut data, at(5_000)).expect("put");
    let cid2 = store.put_at(DID, message2, &mut data, at(5_000)).expect("put");

    let stored = data.data_get(&data_cid).expect("get").expect("data is stored");
    assert_eq!(stored.data, b"shared".to_vec());
    assert_eq!(stored.size, 6);

    // The data stays while a message refers to it.
    store.delete(DID, cid1.to_string(), &mut data).expect("delete");
    assert!(data.data_get(&data_cid).expect("get").is_some());

    // It goes with its last reference.
    store.delete(DID, cid2.to_string(), &mut data).expect("delete");
    assert!(data.data_get(&data_cid).expect("get").is_none());
}

#[test]
fn data_store_put_get_delete() {
    let mut data = SurrealDB::new();
    let bytes = vec![1u8, 2, 3, 4, 5];
    let put = data.data_put("cid".to_string(), bytes.clone()).expect("Failed to put data");
    assert_eq!(put.size, 5);

    let got = data.data_get("cid").expect("Failed to get data").expect("No data found");
    assert_eq!(bytes, got.data);

    data.data_delete("cid").expect("Failed to delete data");
    let got = data.data_get("cid");
    assert!(got.is_ok());
    assert!(got.unwrap().is_none());
}

#[test]
fn data_store_put_twice_fails() {
    let mut data = SurrealDB::new();
    data.data_put("cid".to_string(), vec![1]).expect("Failed to put data");
    let again = data.data_put("cid".to_string(), vec![2]);
    assert!(matches!(again, Err(DataStoreError::BackendError(_))));
    let got = data.data_get("cid").expect("get").expect("data");
    assert_eq!(got.data, vec![1]);
}

#[test]
fn store_refused_put_keeps_the_count_it_raised() {
    let (mut store, mut data) = stores();
    let message = write_at(1_000, Some("counted"));
    let data_cid = Data::Base64("counted".to_string()).cid().to_string();

    let cid = store.put_at(DID, message.clone(), &mut data, at(5_000)).expect("put");
    // The same message again is refused, after its data was counted once more.
    let again = store.put_at(DID, message, &mut data, at(6_000));
    assert!(matches!(again, Err(MessageStoreError::BackendError(_))));

    // Removing the one stored message leaves the data, still counted once.
    store.delete(DID, cid.to_string(), &mut data).expect("delete");
    assert!(data.data_get(&data_cid).expect("get").is_some());
}
