//! Writing records as an actor of a node: the message that a write sends, and
//! what its reply gives back.

use vstd::prelude::*;

use crate::handlers::Reply;
use crate::message::builder::{data_cid_text, needs_id};
use crate::message::data::Data;
use crate::message::descriptor::{descriptor_encodable, Descriptor, RecordsWrite};
use crate::message::{record_id_of, Message};
use crate::timestamp::Timestamp;
use crate::util::CborEncodeError;

verus! {

/// Why sending a message failed.
#[derive(Debug)]
pub enum MessageSendError {
    /// The message could not be encoded.
    Encode(CborEncodeError),
    /// The node replied with something other than a status.
    InvalidReply(Reply),
}

/// What a record write gives back: the record's id and the node's reply.
#[derive(Debug)]
pub struct WriteResult {
    pub record_id: String,
    pub reply: Reply,
}

/// A record write under construction.
pub struct RecordsWriteBuilder {
    pub data: Option<Data>,
    pub record_id: Option<String>,
    pub store: bool,
}

/// The descriptor of a write sent at `now`, before its data CID is set: no field
/// set but the message timestamp and the publication date, which is the same instant.
pub open spec fn write_descriptor(now: Timestamp) -> RecordsWrite {
    RecordsWrite {
        data_cid: None,
        date_published: Some(now),
        encryption: None,
        message_timestamp: now,
        parent_id: None,
        protocol: None,
        protocol_version: None,
        published: None,
        schema: None,
    }
}

impl RecordsWriteBuilder {
    /// A write with no data and no record id, to be stored.
    pub fn new() -> (b: Self)
        ensures
            b.data is None,
            b.record_id is None,
            b.store,
    {
        RecordsWriteBuilder { data: None, record_id: None, store: true }
    }

    /// Sets the data to write.
    pub fn data(self, data: Data) -> (b: Self)
        ensures
            b.data == Some(data),
            b.record_id == self.record_id,
            b.store == self.store,
    {
        RecordsWriteBuilder { data: Some(data), ..self }
    }

    /// Sets whether the node stores the message.
    pub fn store(self, store: bool) -> (b: Self)
        ensures
            b.data == self.data,
            b.record_id == self.record_id,
            b.store == store,
    {
        RecordsWriteBuilder { store, ..self }
    }

    /// Sets the record to write to; without one, a new record id is generated.
    pub fn record_id(self, record_id: String) -> (b: Self)
        ensures
            b.data == self.data,
            b.record_id == Some(record_id),
            b.store == self.store,
    {
        RecordsWriteBuilder { record_id: Some(record_id), ..self }
    }

    /// The unsigned message that the write sends at `now`: a write descriptor
    /// stamped at `now`, naming the CID of the data; its record id is the one set,
    /// or, when none or an empty one is set, the one its descriptor generates.
    pub fn message_at(self, now: Timestamp) -> (r: Result<Message, MessageSendError>)
        requires
            self.data matches Some(d) ==> d is Base64,
        ensures
            r is Err <==> needs_id(self.record_id) && !descriptor_encodable(
                Descriptor::RecordsWrite(write_descriptor(now)),
            ),
            r matches Err(e) ==> e is Encode,
            r matches Ok(m) ==> {
                &&& m.attestation is None
                &&& m.authorization is None
                &&& m.data == self.data
                &&& m.descriptor matches Descriptor::RecordsWrite(w) && w == (RecordsWrite {
                    data_cid: w.data_cid,
                    ..write_descriptor(now)
                }) && match self.data {
                    Some(d) => w.data_cid matches Some(c) && c@ == data_cid_text(d->Base64_0@),
                    None => w.data_cid is None,
                }
                &&& needs_id(self.record_id) ==> m.record_id@ == record_id_of(m.descriptor)
                &&& !needs_id(self.record_id) ==> m.record_id == self.record_id->0
            },
    {
        let mut descriptor = RecordsWrite {
            data_cid: None,
            date_published: Some(now),
            encryption: None,
            message_timestamp: now,
            parent_id: None,
            protocol: None,
            protocol_version: None,
            published: None,
            schema: None,
        };
        let ghost plain = descriptor;
        match &self.data {
            Some(d) => {
                descriptor.data_cid = Some(d.cid().to_string());
            },
            None => {},
        }
        assert(descriptor_encodable(Descriptor::RecordsWrite(descriptor)) == descriptor_encodable(
            Descriptor::RecordsWrite(plain),
        ));
        let mut msg = Message {
            attestation: None,
            authorization: None,
            data: self.data,
            descriptor: Descriptor::RecordsWrite(descriptor),
            record_id: match self.record_id {
                Some(id) => id,
                None => String::new(),
            },
        };
        let id_len = msg.record_id.as_str().as_bytes().len();
        if id_len == 0 {
            proof {
                vstd::utf8::encode_utf8_decode_utf8(msg.record_id@);
                assert(vstd::utf8::decode_utf8(Seq::<u8>::empty()) =~= Seq::<char>::empty());
                assert(msg.record_id@.len() == 0);
            }
            msg.record_id = match msg.generate_record_id() {
                Ok(id) => id,
                Err(e) => {
                    return Err(MessageSendError::Encode(e));
                },
            };
        } else {
            proof {
                if msg.record_id@.len() == 0 {
                    assert(msg.record_id@ =~= Seq::<char>::empty());
                    assert(vstd::utf8::encode_utf8(Seq::<char>::empty()) =~= Seq::<u8>::empty());
                }
            }
        }
        Ok(msg)
    }

    /// What the write gives back for the node's reply: the record id with a status
    /// reply, or the reply itself as an error.
    pub fn result(record_id: String, reply: Reply) -> (r: Result<WriteResult, MessageSendError>)
        ensures
            reply is Status ==> (r matches Ok(w) && w.record_id == record_id && w.reply == reply),
            !(reply is Status) ==> (r matches Err(e) && e == MessageSendError::InvalidReply(reply)),
    {
        match reply {
            Reply::Status { status } => Ok(WriteResult { record_id, reply: Reply::Status { status } }),
            _ => Err(MessageSendError::InvalidReply(reply)),
        }
    }
}

} // verus!
