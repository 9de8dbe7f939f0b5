//! Building messages: stamping the descriptor, naming the data and the record.

use vstd::prelude::*;

use crate::cid::{cid_v1, multibase_base32_lower, DAG_PB};
use crate::timestamp::{now_utc, Timestamp};
use crate::util::CborEncodeError;

use super::data::{pb_text, Data};
use super::descriptor::{descriptor_encodable, Descriptor, RecordsWrite};
use super::{record_id_of, AuthError, Message};

verus! {

/// Builds a message around a descriptor.
pub struct MessageBuilder {
    pub data: Option<Data>,
    pub descriptor: Descriptor,
    pub record_id: Option<String>,
}

/// Why a message could not be built.
#[derive(Debug, PartialEq, Eq)]
pub enum MessageBuildError {
    Encode(CborEncodeError),
    Auth(AuthError),
}

/// The CID text of base64 data.
pub open spec fn data_cid_text(s: Seq<char>) -> Seq<char> {
    multibase_base32_lower(cid_v1(DAG_PB, pb_text(s)))
}

/// Whether a builder's record id asks for one to be generated: it is absent or empty.
pub open spec fn needs_id(record_id: Option<String>) -> bool {
    record_id is None || record_id->0@.len() == 0
}

/// Whether `id` is the CID text of base64 data `s`.
pub open spec fn names_data(id: Option<String>, s: Seq<char>) -> bool {
    id matches Some(c) && c@ == data_cid_text(s)
}

/// What building `b` at `timestamp` gives: the descriptor stamped at `timestamp`,
/// a write naming the CID of its data, and the record id set, or, when none or an
/// empty one is set, the one the stamped descriptor generates; building fails
/// exactly when that id is needed and the descriptor cannot be encoded.
pub open spec fn builds(b: MessageBuilder, timestamp: Timestamp, r: Result<Message, MessageBuildError>) -> bool {
    &&& r is Err <==> needs_id(b.record_id) && !descriptor_encodable(
        b.descriptor.with_message_timestamp(timestamp),
    )
    &&& r matches Err(e) ==> e is Encode
    &&& r matches Ok(m) ==> {
        &&& m.attestation is None
        &&& m.authorization is None
        &&& m.data == b.data
        &&& m.descriptor.spec_kind() == b.descriptor.spec_kind()
        &&& m.descriptor.spec_message_timestamp() == timestamp
        &&& same_but_stamp(b.descriptor, m.descriptor)
        &&& b.descriptor is RecordsWrite && b.data is Some ==> names_data(
            m.descriptor->RecordsWrite_0.data_cid,
            b.data->0->Base64_0@,
        )
        &&& b.descriptor is RecordsWrite && b.data is None
            ==> m.descriptor->RecordsWrite_0.data_cid == b.descriptor->RecordsWrite_0.data_cid
        &&& needs_id(b.record_id) ==> m.record_id@ == record_id_of(m.descriptor)
        &&& !needs_id(b.record_id) ==> m.record_id == b.record_id->0
    }
}

impl MessageBuilder {
    /// A builder for the default descriptor of `T`.
    pub fn new<T: Default + Into<Descriptor>>() -> (b: Self)
        ensures
            b.data is None,
            b.record_id is None,
            exists|d: T|
                call_ensures(T::default, (), d) && #[trigger] call_ensures(
                    <T as Into<Descriptor>>::into,
                    (d,),
                    b.descriptor,
                ),
    {
        let make = T::default;
        let d = make();
        let convert = <T as Into<Descriptor>>::into;
        let descriptor = convert(d);
        MessageBuilder { data: None, descriptor, record_id: None }
    }

    /// A builder for the given descriptor.
    pub fn from_descriptor(descriptor: Descriptor) -> (b: Self)
        ensures
            b.data is None,
            b.descriptor == descriptor,
            b.record_id is None,
    {
        MessageBuilder { data: None, descriptor, record_id: None }
    }

    /// Sets the data of the message.
    pub fn data(self, data: Data) -> (b: Self)
        ensures
            b.data == Some(data),
            b.descriptor == self.descriptor,
            b.record_id == self.record_id,
    {
        MessageBuilder { data: Some(data), ..self }
    }

    /// Sets the record id of the message. When it is `None` or empty, the record id
    /// is generated from the descriptor.
    pub fn record_id(self, record_id: Option<String>) -> (b: Self)
        ensures
            b.data == self.data,
            b.descriptor == self.descriptor,
            b.record_id == record_id,
    {
        MessageBuilder { record_id, ..self }
    }

    /// Makes the message a child of `parent`: a commit or a write takes the parent's
    /// generated record id as its parent id, and the message takes the parent's record id.
    pub fn parent(self, parent: &Message) -> (r: Result<Self, CborEncodeError>)
        ensures
            r is Ok <==> descriptor_encodable(parent.descriptor),
            r matches Ok(b) ==> {
                &&& b.data == self.data
                &&& b.record_id == Some(parent.record_id)
                &&& match (self.descriptor, b.descriptor) {
                    (Descriptor::RecordsCommit(x), Descriptor::RecordsCommit(y)) => y.message_timestamp
                        == x.message_timestamp && y.parent_id@ == record_id_of(parent.descriptor),
                    (Descriptor::RecordsWrite(x), Descriptor::RecordsWrite(y)) => y == (RecordsWrite {
                        parent_id: y.parent_id,
                        ..x
                    }) && (y.parent_id matches Some(p) && p@ == record_id_of(parent.descriptor)),
                    _ => b.descriptor == self.descriptor,
                }
            },
            r matches Err(e) ==> e is Serde,
    {
        let parent_id = parent.generate_record_id()?;
        let mut b = self;
        match &mut b.descriptor {
            Descriptor::RecordsCommit(desc) => desc.parent_id = parent_id,
            Descriptor::RecordsWrite(desc) => desc.parent_id = Some(parent_id),
            _ => {},
        }
        b.record_id = Some(parent.record_id.clone());
        Ok(b)
    }

    /// Builds the message, stamping its descriptor at `timestamp`.
    pub fn build_at(self, timestamp: Timestamp) -> (r: Result<Message, MessageBuildError>)
        requires
            self.descriptor is RecordsWrite && self.data is Some ==> self.data->0 is Base64,
        ensures
            builds(self, timestamp, r),
    {
        let mut descriptor = self.descriptor;
        descriptor.set_message_timestamp(timestamp);
        let ghost stamped_desc = descriptor;
        match &mut descriptor {
            Descriptor::RecordsWrite(desc) => {
                match &self.data {
                    Some(data) => {
                        let cid = data.cid();
                        desc.data_cid = Some(cid.to_string());
                    },
                    None => {},
                }
            },
            _ => {},
        }
        assert(descriptor_encodable(descriptor) == descriptor_encodable(stamped_desc));
        let mut msg = Message {
            attestation: None,
            authorization: None,
            data: self.data,
            descriptor,
            record_id: match self.record_id {
                Some(id) => id,
                None => String::new(),
            },
        };
        let id_len = msg.record_id.as_str().as_bytes().len();
        if id_len == 0 {
            proof {
                vstd::utf8::encode_utf8_decode_utf8(msg.record_id@);
                assert(vstd::utf8::encode_utf8(msg.record_id@).len() == 0);
                assert(vstd::utf8::decode_utf8(Seq::<u8>::empty()) =~= Seq::<char>::empty());
                assert(vstd::utf8::encode_utf8(msg.record_id@) =~= Seq::<u8>::empty());
                assert(msg.record_id@.len() == 0);
            }
            msg.record_id = match msg.generate_record_id() {
                Ok(id) => id,
                Err(e) => {
                    return Err(MessageBuildError::Encode(e));
                },
            };
        } else {
            proof {
                if msg.record_id@.len() == 0 {
                    assert(msg.record_id@ =~= Seq::<char>::empty());
                    assert(vstd::utf8::encode_utf8(Seq::<char>::empty()) =~= Seq::<u8>::empty());
                }
            }
        }
        Ok(msg)
    }

    /// Builds the message, stamping its descriptor with the current time.
    pub fn build(self) -> (r: Result<Message, MessageBuildError>)
        requires
            self.descriptor is RecordsWrite && self.data is Some ==> self.data->0 is Base64,
        ensures
            exists|t: Timestamp| #[trigger] builds(self, t, r),
    {
        let now = now_utc();
        let ghost b = self;
        let r = self.build_at(now);
        assert(builds(b, now, r));
        r
    }
}

/// Whether `b` is `a` with only its message timestamp and, for a write, its data CID
/// changed.
pub open spec fn same_but_stamp(a: Descriptor, b: Descriptor) -> bool {
    match (a, b) {
        (Descriptor::RecordsRead(x), Descriptor::RecordsRead(y)) => y.record_id == x.record_id,
        (Descriptor::RecordsQuery(x), Descriptor::RecordsQuery(y)) => y.filter == x.filter,
        (Descriptor::RecordsCommit(x), Descriptor::RecordsCommit(y)) => y.parent_id == x.parent_id,
        (Descriptor::RecordsDelete(x), Descriptor::RecordsDelete(y)) => y.record_id == x.record_id,
        (Descriptor::RecordsWrite(x), Descriptor::RecordsWrite(y)) => y == (RecordsWrite {
            message_timestamp: y.message_timestamp,
            data_cid: y.data_cid,
            ..x
        }),
        _ => false,
    }
}

} // verus!
