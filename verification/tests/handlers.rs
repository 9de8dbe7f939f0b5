use dwn::handlers::{HandlerError, Reply};
use dwn::message::builder::MessageBuilder;
use dwn::message::data::Data;
use dwn::message::descriptor::{
    Descriptor, Filter, RecordsCommit, RecordsDelete, RecordsQuery, RecordsRead, RecordsWrite,
};
use dwn::message::{Message, VerifyAuthError};
use dwn::timestamp::Timestamp;
use dwn::{HandleMessageError, Processed, DWN};

const DID: &str = "did:example:123";

fn at(seconds: i128) -> Timestamp {
    Timestamp::from_unix_nanos(seconds * 1_000_000_000)
}

fn reply(r: Result<Processed, HandleMessageError>) -> Reply {
    match r.expect("Failed to process message") {
        Processed::Reply(reply) => reply,
        Processed::ReadData(_) => panic!("Unexpected read target"),
    }
}

fn query(dwn: &mut DWN, record_id: &str) -> Vec<Message> {
    let message = MessageBuilder::from_descriptor(Descriptor::RecordsQuery(RecordsQuery::new(
        Filter {
            record_id: Some(record_id.to_string()),
            ..Default::default()
        },
    )))
    .build_at(at(9_000))
    .expect("Failed to build message");
    let reply = reply(dwn.process_message_at(DID, message, Ok(()), at(9_000)));
    assert_eq!(reply.status().code, 200);
    match reply {
        Reply::RecordsQuery { entries, .. } => entries,
        _ => panic!("Unexpected reply"),
    }
}

fn initial_write(seconds: i128, data: Option<&str>) -> Message {
    let mut builder = MessageBuilder::new::<RecordsWrite>();
    if let Some(d) = data {
        builder = builder.data(Data::Base64(d.to_string()));
    }
    builder.build_at(at(seconds)).expect("Failed to build message")
}

#[test]
fn test_records_write() {
    let mut dwn = DWN::new();
    let message = initial_write(1_000, None);
    let tenant = "did:example:123";
    let reply = reply(dwn.process_message_at(tenant, message, Ok(()), at(1_001)));
    assert_eq!(reply.status().code, 200);
}

#[test]
fn require_auth() {
    let mut dwn = DWN::new();

    // Fails without authorization.
    {
        let message = initial_write(1_000, None);
        let auth = message.auth_signing_input().map(|_| ());
        assert_eq!(auth, Err(VerifyAuthError::AuthorizationMissing));
        let reply = dwn.process_message_at(DID, message, auth, at(1_001));
        assert!(reply.is_err());
    }

    // Succeeds with a verified authorization.
    {
        let message = initial_write(1_000, None);
        let reply = reply(dwn.process_message_at(DID, message, Ok(()), at(1_001)));
        assert!(reply.status().code == 200);
    }
}

#[test]
fn duplicate_initial_entry() {
    let mut dwn = DWN::new();
    let message1 = initial_write(1_000, None);

    // Create initial entry.
    let r = reply(dwn.process_message_at(DID, message1.clone(), Ok(()), at(1_001)));
    assert!(r.status().code == 200);

    // Create duplicate entry.
    let r = reply(dwn.process_message_at(DID, message1.clone(), Ok(()), at(1_002)));
    assert!(r.status().code == 200);

    // Ensure only one entry exists.
    let entries = query(&mut dwn, &message1.record_id);
    assert_eq!(entries.len(), 1);
    let entry = &entries[0];
    assert_eq!(*entry, message1);
}

#[test]
fn query_by_record_id() {
    let mut dwn = DWN::new();
    let message1 = initial_write(1_000, Some("Hello, world!"));
    let message2 = initial_write(1_000, Some("Goodbye, world!"));

    let r = reply(dwn.process_message_at(DID, message1.clone(), Ok(()), at(1_001)));
    assert_eq!(r.status().code, 200);
    let r = reply(dwn.process_message_at(DID, message2.clone(), Ok(()), at(1_001)));
    assert_eq!(r.status().code, 200);

    let entries = query(&mut dwn, &message1.record_id);
    assert_eq!(entries.len(), 1);
    assert_eq!(entries[0].record_id, message1.record_id);

    let entries = query(&mut dwn, &message2.record_id);
    assert_eq!(entries.len(), 1);
    assert_eq!(entries[0].record_id, message2.record_id);
}

#[test]
fn write_unverified_changes_nothing() {
    let mut dwn = DWN::new();
    let message = initial_write(1_000, None);
    let record_id = message.record_id.clone();
    let r = dwn.process_message_at(DID, message, Err(VerifyAuthError::SignatureMissing), at(1_001));
    assert!(matches!(
        r,
        Err(HandleMessageError::HandlerError(HandlerError::VerifyError(VerifyAuthError::SignatureMissing)))
    ));
    assert_eq!(query(&mut dwn, &record_id).len(), 0);
}

#[test]
fn write_update_replaces_initial_entry() {
    let mut dwn = DWN::new();
    let initial = initial_write(1_000, None);
    reply(dwn.process_message_at(DID, initial.clone(), Ok(()), at(1_001)));

    let update = MessageBuilder::new::<RecordsWrite>()
        .parent(&initial)
        .expect("Failed to set parent")
        .build_at(at(2_000))
        .expect("Failed to build message");
    assert_eq!(update.record_id, initial.record_id);
    let r = reply(dwn.process_message_at(DID, update.clone(), Ok(()), at(2_001)));
    assert_eq!(r.status().code, 200);

    // Only the update remains.
    let entries = query(&mut dwn, &initial.record_id);
    assert_eq!(entries.len(), 1);
    assert_eq!(entries[0], update);
}

#[test]
fn write_update_not_later_than_checkpoint_is_refused() {
    let mut dwn = DWN::new();
    let initial = initial_write(1_000, None);
    reply(dwn.process_message_at(DID, initial.clone(), Ok(()), at(1_001)));

    let update = MessageBuilder::new::<RecordsWrite>()
        .parent(&initial)
        .expect("Failed to set parent")
        .build_at(at(1_000))
        .expect("Failed to build message");
    let r = dwn.process_message_at(DID, update, Ok(()), at(1_002));
    assert!(matches!(
        r,
        Err(HandleMessageError::HandlerError(HandlerError::InvalidDescriptor(_)))
    ));
    assert_eq!(query(&mut dwn, &initial.record_id), vec![initial]);
}

#[test]
fn write_update_with_wrong_parent_is_refused() {
    let mut dwn = DWN::new();
    let initial = initial_write(1_000, None);
    reply(dwn.process_message_at(DID, initial.clone(), Ok(()), at(1_001)));

    let mut descriptor = RecordsWrite::default();
    descriptor.parent_id = Some("not-the-checkpoint".to_string());
    let update = MessageBuilder::from_descriptor(Descriptor::RecordsWrite(descriptor))
        .record_id(Some(initial.record_id.clone()))
        .build_at(at(2_000))
        .expect("Failed to build message");
    let r = dwn.process_message_at(DID, update, Ok(()), at(2_001));
    assert!(matches!(
        r,
        Err(HandleMessageError::HandlerError(HandlerError::InvalidDescriptor(_)))
    ));
}

#[test]
fn write_update_without_initial_entry_is_refused() {
    let mut dwn = DWN::new();
    let message = MessageBuilder::new::<RecordsWrite>()
        .record_id(Some("unknown".to_string()))
        .build_at(at(1_000))
        .expect("Failed to build message");
    let r = dwn.process_message_at(DID, message, Ok(()), at(1_001));
    assert!(matches!(
        r,
        Err(HandleMessageError::HandlerError(HandlerError::InvalidDescriptor(_)))
    ));
}

#[test]
fn commit_follows_active_write() {
    let mut dwn = DWN::new();
    let initial = initial_write(1_000, None);
    reply(dwn.process_message_at(DID, initial.clone(), Ok(()), at(1_001)));

    let commit = MessageBuilder::from_descriptor(Descriptor::RecordsCommit(RecordsCommit::new(
        String::new(),
    )))
    .parent(&initial)
    .expect("Failed to set parent")
    .build_at(at(2_000))
    .expect("Failed to build message");
    let r = reply(dwn.process_message_at(DID, commit.clone(), Ok(()), at(2_001)));
    assert_eq!(r.status().code, 200);
    assert_eq!(query(&mut dwn, &initial.record_id), vec![initial, commit]);
}

#[test]
fn commit_older_than_parent_is_refused() {
    let mut dwn = DWN::new();
    let initial = initial_write(1_000, None);
    reply(dwn.process_message_at(DID, initial.clone(), Ok(()), at(1_001)));

    let commit = MessageBuilder::from_descriptor(Descriptor::RecordsCommit(RecordsCommit::new(
        String::new(),
    )))
    .parent(&initial)
    .expect("Failed to set parent")
    .build_at(at(500))
    .expect("Failed to build message");
    let r = dwn.process_message_at(DID, commit, Ok(()), at(2_001));
    assert!(matches!(
        r,
        Err(HandleMessageError::HandlerError(HandlerError::InvalidDescriptor(_)))
    ));
}

#[test]
fn commit_without_write_is_refused() {
    let mut dwn = DWN::new();
    let commit = MessageBuilder::from_descriptor(Descriptor::RecordsCommit(RecordsCommit::new(
        "parent".to_string(),
    )))
    .record_id(Some("record".to_string()))
    .build_at(at(2_000))
    .expect("Failed to build message");
    let r = dwn.process_message_at(DID, commit, Ok(()), at(2_001));
    assert!(matches!(
        r,
        Err(HandleMessageError::HandlerError(HandlerError::InvalidDescriptor(_)))
    ));
}

#[test]
fn read_returns_record_and_data() {
    let mut dwn = DWN::new();
    let write = initial_write(1_000, Some("Hello, world!"));
    reply(dwn.process_message_at(DID, write.clone(), Ok(()), at(1_001)));

    let read = MessageBuilder::from_descriptor(Descriptor::RecordsRead(RecordsRead::new(
        write.record_id.clone(),
    )))
    .build_at(at(2_000))
    .expect("Failed to build message");
    let target = match dwn.process_message_at(DID, read, Ok(()), at(2_001)) {
        Ok(Processed::ReadData(target)) => target,
        _ => panic!("Expected a read target"),
    };
    let data_cid = target.data_cid.clone().expect("The write names its data");
    assert_eq!(data_cid, "bafybeigp62vjp536izqhfg7xhmikinqcpjqqye5app7f6f2omfde76cnni");

    let mut stripped = write.clone();
    stripped.data = None;
    assert_eq!(target.record, stripped);

    let reply = dwn.finish_read(target, Ok(data_cid)).expect("Failed to read");
    assert_eq!(reply.status().code, 200);
    match reply {
        Reply::RecordsRead { data, record, .. } => {
            assert_eq!(data, Some(b"Hello, world!".to_vec()));
            assert_eq!(record, stripped);
        }
        _ => panic!("Unexpected reply"),
    }
}

#[test]
fn read_with_invalid_data_cid_is_refused() {
    let mut dwn = DWN::new();
    let write = initial_write(1_000, Some("Hello, world!"));
    reply(dwn.process_message_at(DID, write.clone(), Ok(()), at(1_001)));
    let read = MessageBuilder::from_descriptor(Descriptor::RecordsRead(RecordsRead::new(
        write.record_id.clone(),
    )))
    .build_at(at(2_000))
    .expect("Failed to build message");
    let target = match dwn.process_message_at(DID, read, Ok(()), at(2_001)) {
        Ok(Processed::ReadData(target)) => target,
        _ => panic!("Expected a read target"),
    };
    let r = dwn.finish_read(target, Err("not a CID".to_string()));
    assert!(matches!(
        r,
        Err(HandleMessageError::HandlerError(HandlerError::InvalidDescriptor(_)))
    ));
}

#[test]
fn read_without_data_replies_at_once() {
    let mut dwn = DWN::new();
    let write = initial_write(1_000, None);
    reply(dwn.process_message_at(DID, write.clone(), Ok(()), at(1_001)));
    let read = MessageBuilder::from_descriptor(Descriptor::RecordsRead(RecordsRead::new(
        write.record_id.clone(),
    )))
    .build_at(at(2_000))
    .expect("Failed to build message");
    match reply(dwn.process_message_at(DID, read, Ok(()), at(2_001))) {
        Reply::RecordsRead { data, record, status } => {
            assert_eq!(data, None);
            assert_eq!(record, write);
            assert_eq!(status.code, 200);
        }
        _ => panic!("Unexpected reply"),
    }
}

#[test]
fn read_of_missing_record_is_refused() {
    let mut dwn = DWN::new();
    let read = MessageBuilder::from_descriptor(Descriptor::RecordsRead(RecordsRead::new(
        "missing".to_string(),
    )))
    .build_at(at(2_000))
    .expect("Failed to build message");
    let r = dwn.process_message_at(DID, read, Ok(()), at(2_001));
    assert!(matches!(
        r,
        Err(HandleMessageError::HandlerError(HandlerError::InvalidDescriptor(_)))
    ));
}

#[test]
fn delete_removes_the_record() {
    let mut dwn = DWN::new();
    let write = initial_write(1_000, Some("Hello, world!"));
    reply(dwn.process_message_at(DID, write.clone(), Ok(()), at(1_001)));
    let other = initial_write(1_000, None);
    reply(dwn.process_message_at(DID, other.clone(), Ok(()), at(1_001)));

    let delete = MessageBuilder::from_descriptor(Descriptor::RecordsDelete(RecordsDelete {
        record_id: write.record_id.clone(),
        message_timestamp: at(2_000),
    }))
    .record_id(Some(write.record_id.clone()))
    .build_at(at(2_000))
    .expect("Failed to build message");
    let r = reply(dwn.process_message_at(DID, delete, Ok(()), at(2_001)));
    assert_eq!(r.status().code, 200);

    // The record is gone: a query finds nothing and a read is refused.
    assert_eq!(query(&mut dwn, &write.record_id).len(), 0);
    let read = MessageBuilder::from_descriptor(Descriptor::RecordsRead(RecordsRead::new(
        write.record_id.clone(),
    )))
    .build_at(at(3_000))
    .expect("Failed to build message");
    assert!(dwn.process_message_at(DID, read, Ok(()), at(3_001)).is_err());

    // Its data went with its last reference.
    let data_cid = Data::Base64("Hello, world!".to_string()).cid().to_string();
    assert!(dwn.data_store.data_get(&data_cid).expect("get").is_none());

    // Other records stay.
    assert_eq!(query(&mut dwn, &other.record_id), vec![other]);
}

#[test]
fn delete_unverified_changes_nothing() {
    let mut dwn = DWN::new();
    let write = initial_write(1_000, None);
    reply(dwn.process_message_at(DID, write.clone(), Ok(()), at(1_001)));
    let delete = MessageBuilder::from_descriptor(Descriptor::RecordsDelete(RecordsDelete {
        record_id: write.record_id.clone(),
        message_timestamp: at(2_000),
    }))
    .record_id(Some(write.record_id.clone()))
    .build_at(at(2_000))
    .expect("Failed to build message");
    let r = dwn.process_message_at(DID, delete, Err(VerifyAuthError::AuthorizationMissing), at(2_001));
    assert!(matches!(
        r,
        Err(HandleMessageError::HandlerError(HandlerError::VerifyError(_)))
    ));
    assert_eq!(query(&mut dwn, &write.record_id), vec![write]);
}

#[test]
fn write_update_replaces_entry_that_carried_data() {
    let mut dwn = DWN::new();
    let initial = initial_write(1_000, Some("Hello, world!"));
    reply(dwn.process_message_at(DID, initial.clone(), Ok(()), at(1_001)));

    let update = MessageBuilder::new::<RecordsWrite>()
        .data(Data::Base64("Goodbye, world!".to_string()))
        .parent(&initial)
        .expect("Failed to set parent")
        .build_at(at(2_000))
        .expect("Failed to build message");
    let r = reply(dwn.process_message_at(DID, update.clone(), Ok(()), at(2_001)));
    assert_eq!(r.status().code, 200);

    // Only the update remains, without its data.
    let mut stripped = update.clone();
    stripped.data = None;
    assert_eq!(query(&mut dwn, &initial.record_id), vec![stripped]);

    // A read gives the new data; the old data is gone.
    let read = MessageBuilder::from_descriptor(Descriptor::RecordsRead(RecordsRead::new(
        initial.record_id.clone(),
    )))
    .build_at(at(3_000))
    .expect("Failed to build message");
    let target = match dwn.process_message_at(DID, read, Ok(()), at(3_001)) {
        Ok(Processed::ReadData(target)) => target,
        _ => panic!("Expected a read target"),
    };
    let data_cid = target.data_cid.clone().expect("The update names its data");
    match dwn.finish_read(target, Ok(data_cid)).expect("Failed to read") {
        Reply::RecordsRead { data, .. } => assert_eq!(data, Some(b"Goodbye, world!".to_vec())),
        _ => panic!("Unexpected reply"),
    }
    let old_cid = Data::Base64("Hello, world!".to_string()).cid().to_string();
    assert!(dwn.data_store.data_get(&old_cid).expect("get").is_none());
}

#[test]
fn query_without_filter_returns_all_records() {
    let mut dwn = DWN::new();
    let write1 = initial_write(1_000, None);
    let write2 = initial_write(2_000, None);
    reply(dwn.process_message_at(DID, write1.clone(), Ok(()), at(1_001)));
    reply(dwn.process_message_at(DID, write2.clone(), Ok(()), at(2_001)));
    let message = MessageBuilder::from_descriptor(Descriptor::RecordsQuery(RecordsQuery {
        filter: None,
        message_timestamp: at(3_000),
    }))
    .build_at(at(3_000))
    .expect("Failed to build message");
    match reply(dwn.process_message_at(DID, message, Ok(()), at(3_001))) {
        Reply::RecordsQuery { entries, status } => {
            assert_eq!(status.code, 200);
            assert_eq!(entries, vec![write1, write2]);
        }
        _ => panic!("Unexpected reply"),
    }
}

#[test]
fn commit_chain_and_read_through_commits() {
    let mut dwn = DWN::new();
    let write = initial_write(1_000, Some("Hello, world!"));
    reply(dwn.process_message_at(DID, write.clone(), Ok(()), at(1_001)));

    let commit1 = MessageBuilder::from_descriptor(Descriptor::RecordsCommit(RecordsCommit::new(
        String::new(),
    )))
    .parent(&write)
    .expect("Failed to set parent")
    .build_at(at(2_000))
    .expect("Failed to build message");
    let r = reply(dwn.process_message_at(DID, commit1.clone(), Ok(()), at(2_001)));
    assert_eq!(r.status().code, 200);

    // A commit may follow a commit that descends from the active write.
    let commit2 = MessageBuilder::from_descriptor(Descriptor::RecordsCommit(RecordsCommit::new(
        String::new(),
    )))
    .parent(&commit1)
    .expect("Failed to set parent")
    .build_at(at(3_000))
    .expect("Failed to build message");
    let r = reply(dwn.process_message_at(DID, commit2.clone(), Ok(()), at(3_001)));
    assert_eq!(r.status().code, 200);

    // A read answers with the newest commit, and the data of the write it follows.
    let read = MessageBuilder::from_descriptor(Descriptor::RecordsRead(RecordsRead::new(
        write.record_id.clone(),
    )))
    .build_at(at(4_000))
    .expect("Failed to build message");
    let target = match dwn.process_message_at(DID, read, Ok(()), at(4_001)) {
        Ok(Processed::ReadData(target)) => target,
        _ => panic!("Expected a read target"),
    };
    assert_eq!(target.record, commit2);
    let data_cid = target.data_cid.clone().expect("The write names its data");
    let reply = dwn.finish_read(target, Ok(data_cid)).expect("Failed to read");
    match reply {
        Reply::RecordsRead { data, .. } => assert_eq!(data, Some(b"Hello, world!".to_vec())),
        _ => panic!("Unexpected reply"),
    }
}

#[test]
fn commit_not_descending_from_active_write_is_refused() {
    let mut dwn = DWN::new();
    let write = initial_write(1_000, None);
    reply(dwn.process_message_at(DID, write.clone(), Ok(()), at(1_001)));
    let commit = MessageBuilder::from_descriptor(Descriptor::RecordsCommit(RecordsCommit::new(
        "elsewhere".to_string(),
    )))
    .record_id(Some(write.record_id.clone()))
    .build_at(at(2_000))
    .expect("Failed to build message");
    let r = dwn.process_message_at(DID, commit, Ok(()), at(2_001));
    assert!(matches!(
        r,
        Err(HandleMessageError::HandlerError(HandlerError::InvalidDescriptor(_)))
    ));
}

#[test]
fn commit_unverified_changes_nothing() {
    let mut dwn = DWN::new();
    let write = initial_write(1_000, None);
    reply(dwn.process_message_at(DID, write.clone(), Ok(()), at(1_001)));
    let commit = MessageBuilder::from_descriptor(Descriptor::RecordsCommit(RecordsCommit::new(
        String::new(),
    )))
    .parent(&write)
    .expect("Failed to set parent")
    .build_at(at(2_000))
    .expect("Failed to build message");
    let r = dwn.process_message_at(DID, commit, Err(VerifyAuthError::AuthorizationMissing), at(2_001));
    assert!(matches!(
        r,
        Err(HandleMessageError::HandlerError(HandlerError::VerifyError(_)))
    ));
    assert_eq!(query(&mut dwn, &write.record_id), vec![write]);
}

#[test]
fn records_share_data_until_the_last_is_deleted() {
    let mut dwn = DWN::new();
    let first = initial_write(1_000, Some("shared"));
    reply(dwn.process_message_at(DID, first.clone(), Ok(()), at(1_001)));
    let second = initial_write(1_500, Some("shared"));
    reply(dwn.process_message_at(DID, second.clone(), Ok(()), at(1_501)));
    let data_cid = Data::Base64("shared".to_string()).cid().to_string();

    let delete_of = |record: &Message, seconds: i128| {
        MessageBuilder::from_descriptor(Descriptor::RecordsDelete(RecordsDelete {
            record_id: record.record_id.clone(),
            message_timestamp: at(seconds),
        }))
        .record_id(Some(record.record_id.clone()))
        .build_at(at(seconds))
        .expect("Failed to build message")
    };

    reply(dwn.process_message_at(DID, delete_of(&first, 2_000), Ok(()), at(2_001)));
    assert!(dwn.data_store.data_get(&data_cid).expect("get").is_some());

    reply(dwn.process_message_at(DID, delete_of(&second, 3_000), Ok(()), at(3_001)));
    assert!(dwn.data_store.data_get(&data_cid).expect("get").is_none());
}
