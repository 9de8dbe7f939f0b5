use dwn::actor::{MessageSendError, RecordsWriteBuilder};
use dwn::cid::{cid_from_bytes, cid_string, DAG_CBOR};
use dwn::features::{FeatureDetection, Permission, Protocol, Records};
use dwn::handlers::{Reply, Status};
use dwn::message::auth::{AuthPayload, Protected};
use dwn::message::builder::MessageBuilder;
use dwn::message::data::Data;
use dwn::message::descriptor::{
    descriptor_kind, CommitStrategy, Descriptor, DescriptorKind, DescriptorKindError, Encryption,
    RecordsCommit, RecordsDelete, RecordsQuery, RecordsRead, RecordsWrite,
};
use dwn::message::{Message, RecordIdGenerator, VerifyAuthError};
use dwn::response::{MessageStatus, ResponseBody};
use dwn::timestamp::Timestamp;

fn default_descriptors() -> Vec<Descriptor> {
    vec![
        Descriptor::RecordsCommit(RecordsCommit::default()),
        Descriptor::RecordsDelete(RecordsDelete::default()),
        Descriptor::RecordsQuery(RecordsQuery::default()),
        Descriptor::RecordsRead(RecordsRead::default()),
        Descriptor::RecordsWrite(RecordsWrite::default()),
    ]
}

fn delete_at_epoch() -> Descriptor {
    Descriptor::RecordsDelete(RecordsDelete {
        record_id: "rec".to_string(),
        message_timestamp: Timestamp::from_unix_nanos(0),
    })
}

#[test]
fn test_base64_cid() {
    let data = Data::Base64("Hello, world!".to_string());
    let cid = data.cid();
    assert_eq!(
        cid.to_string(),
        "bafybeigp62vjp536izqhfg7xhmikinqcpjqqye5app7f6f2omfde76cnni"
    );
}

#[test]
fn test_encode_cbor() {
    for desc in default_descriptors() {
        desc.to_cbor().expect("Failed to generate CBOR block");
    }
}

#[test]
fn descriptor_cbor_is_canonical() {
    let bytes = delete_at_epoch().to_cbor().expect("encodable");
    let expected = "a4666d6574686f646644656c657465687265636f726449646372656369696e74657266616365675265636f726473706d65737361676554696d657374616d7074313937302d30312d30315430303a30303a30305a";
    let hex: String = bytes.iter().map(|b| format!("{:02x}", b)).collect();
    assert_eq!(hex, expected);
}

#[test]
fn record_id_of_descriptor() {
    let id = RecordIdGenerator::generate(&delete_at_epoch()).expect("encodable");
    assert_eq!(id, "bafyreiawx5ztgokq3ehh6bwemjlja4i5pny5zysyz6ndzom2zx7n7okqd4");
    // The same descriptor always gives the same id.
    assert_eq!(RecordIdGenerator::generate(&delete_at_epoch()).unwrap(), id);
}

#[test]
fn record_id_refused_for_unwritable_instant() {
    let desc = Descriptor::RecordsDelete(RecordsDelete {
        record_id: "rec".to_string(),
        message_timestamp: Timestamp::from_unix_nanos(i128::MAX),
    });
    assert!(RecordIdGenerator::generate(&desc).is_err());
    assert!(desc.to_cbor().is_err());
}

#[test]
fn cid_of_empty_bytes() {
    assert_eq!(
        cid_from_bytes(DAG_CBOR, &[]).to_string(),
        "bafyreihdwdcefgh4dqkjv67uzcmw7ojee6xedzdetojuzjevtenxquvyku"
    );
    assert_eq!(
        cid_string(DAG_CBOR, &[]),
        "bafyreihdwdcefgh4dqkjv67uzcmw7ojee6xedzdetojuzjevtenxquvyku"
    );
    let bytes = cid_from_bytes(DAG_CBOR, &[]).to_bytes();
    assert_eq!(&bytes[..4], &[0x01, 0x71, 0x12, 0x20]);
    assert_eq!(bytes.len(), 36);
}

#[test]
fn timestamp_rfc3339() {
    assert_eq!(
        Timestamp::from_unix_nanos(0).to_rfc3339(),
        Some("1970-01-01T00:00:00Z".to_string())
    );
    assert_eq!(
        Timestamp::from_unix_nanos(1_500_000_000).to_rfc3339(),
        Some("1970-01-01T00:00:01.5Z".to_string())
    );
    assert_eq!(Timestamp::from_unix_nanos(i128::MAX).to_rfc3339(), None);
    assert!(Timestamp::from_unix_nanos(1).before(&Timestamp::from_unix_nanos(2)));
    assert!(!Timestamp::from_unix_nanos(2).before(&Timestamp::from_unix_nanos(2)));
}

#[test]
fn protected_header_encoding() {
    let header = Protected {
        alg: "EdDSA".to_string(),
        kid: "did:key:z6Mk#z6Mk".to_string(),
    };
    assert_eq!(header.to_json(), b"{\"alg\":\"EdDSA\",\"kid\":\"did:key:z6Mk#z6Mk\"}".to_vec());
    assert_eq!(header.encode(), "eyJhbGciOiJFZERTQSIsImtpZCI6ImRpZDprZXk6ejZNayN6Nk1rIn0");
}

#[test]
fn auth_payload_json() {
    let payload = AuthPayload {
        attestation_cid: None,
        descriptor_cid: "a\"b\\c\n".to_string(),
        permissions_grant_cid: Some("p".to_string()),
    };
    assert_eq!(
        String::from_utf8(payload.to_json()).unwrap(),
        "{\"descriptorCid\":\"a\\\"b\\\\c\\n\",\"permissionsGrantCid\":\"p\"}"
    );
}

#[test]
fn auth_payload_json_escapes_control_bytes() {
    let payload = AuthPayload {
        attestation_cid: Some("\u{1}\t\u{1f}/".to_string()),
        descriptor_cid: "\u{7f}\u{e9}".to_string(),
        permissions_grant_cid: None,
    };
    assert_eq!(
        String::from_utf8(payload.to_json()).unwrap(),
        "{\"attestationCid\":\"\\u0001\\t\\u001f/\",\"descriptorCid\":\"\u{7f}\u{e9}\"}"
    );
}

#[test]
fn builder_generates_record_id() {
    let message = MessageBuilder::from_descriptor(delete_at_epoch())
        .build_at(Timestamp::from_unix_nanos(0))
        .expect("Failed to build message");
    assert_eq!(message.record_id, "bafyreiawx5ztgokq3ehh6bwemjlja4i5pny5zysyz6ndzom2zx7n7okqd4");
    assert_eq!(message.generate_record_id().unwrap(), message.record_id);
    assert!(message.authorization.is_none());

    let message = MessageBuilder::from_descriptor(delete_at_epoch())
        .record_id(Some("given".to_string()))
        .build_at(Timestamp::from_unix_nanos(0))
        .expect("Failed to build message");
    assert_eq!(message.record_id, "given");
}

#[test]
fn builder_names_data_cid() {
    let message = MessageBuilder::new::<RecordsWrite>()
        .data(Data::Base64("Hello, world!".to_string()))
        .build_at(Timestamp::from_unix_nanos(0))
        .expect("Failed to build message");
    match &message.descriptor {
        Descriptor::RecordsWrite(w) => assert_eq!(
            w.data_cid.as_deref(),
            Some("bafybeigp62vjp536izqhfg7xhmikinqcpjqqye5app7f6f2omfde76cnni")
        ),
        _ => panic!("Unexpected descriptor"),
    }
}

#[test]
fn builder_parent_sets_ids() {
    let parent = MessageBuilder::from_descriptor(delete_at_epoch())
        .build_at(Timestamp::from_unix_nanos(0))
        .expect("build");
    let child = MessageBuilder::from_descriptor(Descriptor::RecordsCommit(RecordsCommit::new(
        String::new(),
    )))
    .parent(&parent)
    .expect("parent")
    .build_at(Timestamp::from_unix_nanos(1))
    .expect("build");
    assert_eq!(child.record_id, parent.record_id);
    match &child.descriptor {
        Descriptor::RecordsCommit(c) => assert_eq!(c.parent_id, parent.record_id),
        _ => panic!("Unexpected descriptor"),
    }
}

#[test]
fn auth_signing_input_needs_a_signature() {
    let mut message = MessageBuilder::from_descriptor(delete_at_epoch())
        .build_at(Timestamp::from_unix_nanos(0))
        .expect("build");
    assert_eq!(message.auth_signing_input(), Err(VerifyAuthError::AuthorizationMissing));
    let payload = message.authorization_payload().expect("payload");
    message.set_authorization(
        payload.clone(),
        "EdDSA".to_string(),
        "did:key:z#z".to_string(),
        "sig".to_string(),
    );
    assert_eq!(message.auth_signing_input(), Ok(payload.to_json()));
}

#[test]
fn descriptor_kinds() {
    assert_eq!(descriptor_kind(Some("Records"), Some("Write")), Ok(DescriptorKind::RecordsWrite));
    assert_eq!(descriptor_kind(Some("Records"), Some("Read")), Ok(DescriptorKind::RecordsRead));
    assert_eq!(descriptor_kind(None, Some("Read")), Err(DescriptorKindError::MissingInterface));
    assert_eq!(descriptor_kind(Some("Records"), None), Err(DescriptorKindError::MissingMethod));
    assert_eq!(
        descriptor_kind(Some("Protocols"), Some("Query")),
        Err(DescriptorKindError::UnsupportedInterface)
    );
}

#[test]
fn names_of_variants() {
    assert_eq!(CommitStrategy::JsonPatch.as_str(), "json-patch");
    assert_eq!(CommitStrategy::JsonMerge.as_str(), "json-merge");
    assert_eq!(Encryption::JWE.as_str(), "jwe");
    assert_eq!(Protocol::ProtocolsConfigure.to_string(), "\"ProtocolsConfigure\"");
    assert_eq!(Records::RecordsWrite.to_string(), "\"RecordsWrite\"");
    assert_eq!(Permission::PermissionsRevoke.to_string(), "\"PermissionsRevoke\"");
    let f = FeatureDetection::default();
    assert_eq!(f.type_, "FeatureDetection");
    assert!(f.interfaces.records.is_none());
}

#[test]
fn message_statuses() {
    let ok = MessageStatus::ok();
    assert_eq!(ok.code, 200);
    assert_eq!(ok.detail.as_deref(), Some("OK"));
    assert_eq!(MessageStatus::bad_request().code, 400);
    assert_eq!(MessageStatus::unauthorized().code, 401);
    assert_eq!(MessageStatus::interface_not_implemented().code, 501);
    assert_eq!(MessageStatus::resource_consumption_limit_exceeded().code, 429);
    assert_eq!(ResponseBody::did_not_found().status.unwrap().code, 404);
    assert_eq!(ResponseBody::error().status.unwrap().code, 500);
    let status = Status::ok();
    assert_eq!(status.code, 200);
    assert_eq!(status.detail.as_deref(), Some("OK"));
}

#[test]
fn records_write_builder_message() {
    let now = Timestamp::from_unix_nanos(0);
    let message: Message = RecordsWriteBuilder::new()
        .data(Data::Base64("Hello, world!".to_string()))
        .message_at(now)
        .expect("message");
    match &message.descriptor {
        Descriptor::RecordsWrite(w) => {
            assert_eq!(w.message_timestamp, now);
            assert_eq!(w.date_published, Some(now));
            assert_eq!(
                w.data_cid.as_deref(),
                Some("bafybeigp62vjp536izqhfg7xhmikinqcpjqqye5app7f6f2omfde76cnni")
            );
        }
        _ => panic!("Unexpected descriptor"),
    }
    assert_eq!(message.generate_record_id().unwrap(), message.record_id);

    let message = RecordsWriteBuilder::new()
        .record_id("r".to_string())
        .store(false)
        .message_at(now)
        .expect("message");
    assert_eq!(message.record_id, "r");

    let ok = RecordsWriteBuilder::result("r".to_string(), Reply::Status { status: Status::ok() });
    assert_eq!(ok.expect("status reply").record_id, "r");
    let bad = RecordsWriteBuilder::result(
        "r".to_string(),
        Reply::RecordsQuery { entries: vec![], status: Status::ok() },
    );
    assert!(matches!(bad, Err(MessageSendError::InvalidReply(_))));
}

