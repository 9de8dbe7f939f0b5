//! A Decentralized Web Node: messages, records and their stores.

use vstd::prelude::*;

pub mod actor;
pub mod cid;
pub mod data;
pub mod features;
pub mod handlers;
pub mod ipld;
pub mod message;
pub mod response;
pub mod store;
pub mod text;
pub mod timestamp;
pub mod util;

use handlers::records::commit::{commit_keeps, commit_spec, RecordsCommitHandler};
use handlers::records::delete::{delete_record_spec, RecordsDeleteHandler};
use handlers::records::query::{asked_filter, RecordsQueryHandler};
use handlers::records::read::{data_cid_chain, read_index, ReadTarget, RecordsReadHandler};
use handlers::records::write::{write_keeps, write_spec, RecordsWriteHandler};
use handlers::records::{is_status_reply, record_history};
use handlers::{handler_outcome, status_ok, HandlerError, HandlerOutcome, Reply};
use message::data::Data;
use message::descriptor::Descriptor;
use message::{message_same, record_id_of, Message, VerifyAuthError};
use store::surrealdb::{data_lookup, filter_result, opt_view, SurrealDB};
use timestamp::{now_utc, Timestamp};

verus! {

/// A node: a store for record data and a store for messages.
pub struct DWN {
    pub data_store: SurrealDB,
    pub message_store: SurrealDB,
}

/// Why a node could not process a message.
#[derive(Debug, PartialEq, Eq)]
pub enum HandleMessageError {
    UnsupportedInterface,
    HandlerError(HandlerError),
}

/// What processing a message gives: a reply, or, for a read of a record whose
/// data is named by a CID, the target of the read, whose CID text the caller reads
/// as a CID before `DWN::finish_read` replies.
#[derive(Debug)]
pub enum Processed {
    Reply(Reply),
    ReadData(ReadTarget),
}

/// The ending that a node's result shows, as a handler's.
pub open spec fn node_outcome(r: Result<Processed, HandleMessageError>) -> HandlerOutcome {
    match r {
        Ok(_) => HandlerOutcome::Replied,
        Err(HandleMessageError::HandlerError(e)) => handler_outcome(Err(e)),
        Err(HandleMessageError::UnsupportedInterface) => HandlerOutcome::Invalid,
    }
}

/// What processing `message` for `tenant` at `now`, with the authorization check
/// `auth`, does to a node `before`, leaving it `after` and giving `r`: a write, a
/// commit or a deletion is handled and may change the stores; a query or a read
/// changes nothing.
pub open spec fn processes(
    before: DWN,
    after: DWN,
    tenant: Seq<char>,
    message: Message,
    auth: Result<(), VerifyAuthError>,
    now: Timestamp,
    r: Result<Processed, HandleMessageError>,
) -> bool {
    let stores = message.descriptor is RecordsWrite || message.descriptor is RecordsCommit
        || message.descriptor is RecordsDelete;
    let unchanged = after.message_store@ == before.message_store@ && after.data_store@
        == before.data_store@;
    &&& after.message_store@.wf()
    &&& after.data_store@.wf()
    &&& r matches Err(e) ==> e is HandlerError
    &&& stores ==> (auth matches Err(e) ==> r == Err::<Processed, HandleMessageError>(
        HandleMessageError::HandlerError(HandlerError::VerifyError(e)),
    ) && unchanged)
    &&& message.descriptor is RecordsWrite && auth is Ok ==> {
        let w = write_spec(before.message_store@, before.data_store@, tenant, message, now);
        &&& node_outcome(r) == w.0
        &&& after.message_store@ == w.1
        &&& after.data_store@ == w.2
        &&& r matches Ok(p) ==> (p matches Processed::Reply(rep) && is_status_reply(rep))
    }
    &&& message.descriptor is RecordsCommit && auth is Ok ==> {
        let c = commit_spec(before.message_store@, before.data_store@, tenant, message, now);
        &&& node_outcome(r) == c.0
        &&& after.message_store@ == c.1
        &&& after.data_store@ == c.2
        &&& r matches Ok(p) ==> (p matches Processed::Reply(rep) && is_status_reply(rep))
    }
    &&& !stores ==> unchanged
    &&& message.descriptor is RecordsDelete && auth is Ok ==> {
        let x = delete_record_spec(before.message_store@, before.data_store@, tenant, message);
        &&& node_outcome(r) == x.0
        &&& after.message_store@ == x.1
        &&& after.data_store@ == x.2
        &&& r matches Ok(p) ==> (p matches Processed::Reply(rep) && is_status_reply(rep))
    }
    &&& message.descriptor is RecordsQuery ==> ({
        let q = filter_result(
            before.message_store@.messages,
            tenant,
            asked_filter(message.descriptor),
        );
        r matches Ok(p) && p matches Processed::Reply(rep) && rep matches Reply::RecordsQuery {
            entries,
            status,
        } && status_ok(status) && entries@.len() == q.len() && forall|i: int|
            0 <= i < entries@.len() ==> message_same(#[trigger] entries@[i], q[i].message)
    })
    &&& message.descriptor is RecordsRead ==> ({
        let rows = record_history(
            before.message_store@.messages,
            tenant,
            message.descriptor->RecordsRead_0.record_id@,
        );
        match read_index(rows) {
            None => r matches Err(e) && e matches HandleMessageError::HandlerError(h)
                && h is InvalidDescriptor,
            Some(i) => match data_cid_chain(
                rows,
                record_id_of(rows[i].message.descriptor),
                rows.len(),
            ) {
                None => r matches Ok(p) && p matches Processed::Reply(rep)
                    && rep matches Reply::RecordsRead { data, record, status } && data is None
                    && message_same(record, rows[i].message) && status_ok(status),
                Some(c) => r matches Ok(p) && p matches Processed::ReadData(t) && message_same(
                    t.record,
                    rows[i].message,
                ) && opt_view(t.data_cid) == Some(c),
            },
        }
    })
}

impl DWN {
    /// A node with empty stores.
    pub fn new() -> (n: DWN)
        ensures
            n.data_store@.wf(),
            n.message_store@.wf(),
            n.message_store@.refs_counted(),
            n.data_store@.data.len() == 0,
            n.message_store@.messages.len() == 0,
            n.message_store@.refs.len() == 0,
    {
        DWN { data_store: SurrealDB::new(), message_store: SurrealDB::new() }
    }

    /// Processes `message` for `tenant` at `now`, given how its authorization
    /// verified: a write, a commit or a deletion is handled and may change the
    /// stores; a query or a read changes nothing.
    pub fn process_message_at(
        &mut self,
        tenant: &str,
        message: Message,
        auth: Result<(), VerifyAuthError>,
        now: Timestamp,
    ) -> (r: Result<Processed, HandleMessageError>)
        requires
            old(self).message_store@.wf(),
            old(self).data_store@.wf(),
            message.data matches Some(Data::Encrypted(_)) ==> !write_keeps(
                old(self).message_store@,
                old(self).data_store@,
                tenant@,
                message,
            ) && !commit_keeps(old(self).message_store@, tenant@, message),
        ensures
            processes(*old(self), *final(self), tenant@, message, auth, now, r),
    {
        match &message.descriptor {
            Descriptor::RecordsCommit(_) => {
                match RecordsCommitHandler::handle(
                    &mut self.message_store,
                    &mut self.data_store,
                    tenant,
                    message,
                    auth,
                    now,
                ) {
                    Ok(reply) => Ok(Processed::Reply(reply)),
                    Err(e) => Err(HandleMessageError::HandlerError(e)),
                }
            },
            Descriptor::RecordsDelete(_) => {
                match RecordsDeleteHandler::handle(
                    &mut self.message_store,
                    &mut self.data_store,
                    tenant,
                    message,
                    auth,
                ) {
                    Ok(reply) => Ok(Processed::Reply(reply)),
                    Err(e) => Err(HandleMessageError::HandlerError(e)),
                }
            },
            Descriptor::RecordsQuery(_) => {
                match RecordsQueryHandler::handle(&self.message_store, tenant, message) {
                    Ok(reply) => Ok(Processed::Reply(reply)),
                    Err(e) => Err(HandleMessageError::HandlerError(e)),
                }
            },
            Descriptor::RecordsRead(_) => {
                match RecordsReadHandler::locate(&self.message_store, tenant, &message) {
                    Ok(target) => {
                        if target.data_cid.is_some() {
                            Ok(Processed::ReadData(target))
                        } else {
                            match RecordsReadHandler::respond(&self.data_store, target, None) {
                                Ok(reply) => Ok(Processed::Reply(reply)),
                                Err(e) => Err(HandleMessageError::HandlerError(e)),
                            }
                        }
                    },
                    Err(e) => Err(HandleMessageError::HandlerError(e)),
                }
            },
            Descriptor::RecordsWrite(_) => {
                match RecordsWriteHandler::handle(
                    &mut self.message_store,
                    &mut self.data_store,
                    tenant,
                    message,
                    auth,
                    now,
                ) {
                    Ok(reply) => Ok(Processed::Reply(reply)),
                    Err(e) => Err(HandleMessageError::HandlerError(e)),
                }
            },
        }
    }

    /// Processes `message` for `tenant`, given how its authorization verified, dating
    /// what the message does not date itself by the clock.
    pub fn process_message(
        &mut self,
        tenant: &str,
        message: Message,
        auth: Result<(), VerifyAuthError>,
    ) -> (r: Result<Processed, HandleMessageError>)
        requires
            old(self).message_store@.wf(),
            old(self).data_store@.wf(),
            message.data matches Some(Data::Encrypted(_)) ==> !write_keeps(
                old(self).message_store@,
                old(self).data_store@,
                tenant@,
                message,
            ) && !commit_keeps(old(self).message_store@, tenant@, message),
        ensures
            exists|now: Timestamp| #[trigger]
                processes(*old(self), *final(self), tenant@, message, auth, now, r),
    {
        let now = now_utc();
        let ghost m = message;
        let ghost a = auth;
        let r = self.process_message_at(tenant, message, auth, now);
        assert(processes(*old(self), *self, tenant@, m, a, now, r));
        r
    }

    /// Replies to a read whose target names its data by a CID, given the canonical
    /// text of that CID, or why the text is no CID.
    pub fn finish_read(&self, target: ReadTarget, data_cid: Result<String, String>) -> (r: Result<
        Reply,
        HandleMessageError,
    >)
        requires
            target.data_cid is Some,
        ensures
            data_cid is Err ==> (r matches Err(e) && e matches HandleMessageError::HandlerError(h)
                && h is InvalidDescriptor),
            data_cid matches Ok(c) ==> (r matches Ok(rep) && rep matches Reply::RecordsRead {
                data,
                record,
                status,
            } && record == target.record && status_ok(status) && match data_lookup(
                self.data_store@.data,
                c@,
            ) {
                Some(bytes) => data matches Some(v) && v@ == bytes,
                None => data is None,
            }),
    {
        match RecordsReadHandler::respond(&self.data_store, target, Some(data_cid)) {
            Ok(reply) => Ok(reply),
            Err(e) => Err(HandleMessageError::HandlerError(e)),
        }
    }
}

} // verus!
