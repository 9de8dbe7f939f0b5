//! The handler of record deletions.

use vstd::prelude::*;

use crate::message::descriptor::{descriptor_encodable, Descriptor, FilterDateSort};
use crate::message::{Message, VerifyAuthError};
use crate::store::surrealdb::{lemma_query_result_keeps, MessageRow, StoreView, SurrealDB};

use super::super::{handler_outcome, lift, HandlerError, HandlerOutcome, Reply};
use super::write::{answers, cids_of, delete_all, lemma_answers_len, picks, remove_writes};
use super::{history_filter, is_status_reply, record_history, status_reply};

verus! {

/// What a verified deletion `m` of `tenant` does to a message store `s` and a data
/// store `d`, and how it ends: every message that the tenant keeps of the record
/// `m.record_id` is removed, newest first, stopping at the first removal that fails.
pub open spec fn delete_record_spec(s: StoreView, d: StoreView, tenant: Seq<char>, m: Message) -> (
    HandlerOutcome,
    StoreView,
    StoreView,
) {
    if !(m.descriptor is RecordsDelete) {
        (HandlerOutcome::Invalid, s, d)
    } else {
        lift(delete_all(s, d, tenant, cids_of(record_history(s.messages, tenant, m.record_id@))))
    }
}

/// Handles record deletions.
pub struct RecordsDeleteHandler;

impl RecordsDeleteHandler {
    /// Handles the deletion `message` of `tenant`, given how its authorization
    /// verified: the record's messages are removed.
    pub fn handle(
        message_store: &mut SurrealDB,
        data_store: &mut SurrealDB,
        tenant: &str,
        message: Message,
        auth: Result<(), VerifyAuthError>,
    ) -> (r: Result<Reply, HandlerError>)
        requires
            old(message_store)@.wf(),
            old(data_store)@.wf(),
        ensures
            final(message_store)@.wf(),
            final(data_store)@.wf(),
            auth matches Err(e) ==> r == Err::<Reply, HandlerError>(HandlerError::VerifyError(e))
                && final(message_store)@ == old(message_store)@ && final(data_store)@ == old(
                data_store,
            )@,
            auth is Ok ==> handler_outcome(r) == delete_record_spec(
                old(message_store)@,
                old(data_store)@,
                tenant@,
                message,
            ).0 && final(message_store)@ == delete_record_spec(
                old(message_store)@,
                old(data_store)@,
                tenant@,
                message,
            ).1 && final(data_store)@ == delete_record_spec(
                old(message_store)@,
                old(data_store)@,
                tenant@,
                message,
            ).2,
            r matches Ok(rep) ==> is_status_reply(rep),
    {
        match auth {
            Err(e) => {
                return Err(HandlerError::VerifyError(e));
            },
            Ok(()) => {},
        }
        match &message.descriptor {
            Descriptor::RecordsDelete(_) => {},
            _ => {
                return Err(HandlerError::InvalidDescriptor("Not a RecordsDelete message".to_owned()));
            },
        }
        let ghost s0 = message_store@;
        let ghost rows = record_history(s0.messages, tenant@, message.record_id@);
        let filter = history_filter(&message.record_id);
        let messages = message_store.query_keyed(tenant, &filter);
        proof {
            lemma_query_result_keeps(
                s0.messages,
                tenant@,
                Some(message.record_id@),
                Some(FilterDateSort::CreatedDescending),
                |m: MessageRow| descriptor_encodable(m.message.descriptor),
            );
            reveal(answers);
            assert(answers(messages@, rows));
            lemma_answers_len(messages@, rows);
        }
        let mut found: Vec<usize> = Vec::new();
        let mut i: usize = 0;
        while i < messages.len()
            invariant
                i <= messages@.len(),
                messages@.len() == rows.len(),
                found@.len() == i,
                forall|k: int| 0 <= k < i ==> found@[k] == k,
            decreases messages@.len() - i,
        {
            found.push(i);
            i = i + 1;
        }
        assert(picks(found@, rows, rows));
        match remove_writes(message_store, data_store, tenant, &messages, &found, Ghost(rows), Ghost(rows)) {
            Ok(()) => Ok(status_reply()),
            Err(e) => Err(e),
        }
    }
}

} // verus!
