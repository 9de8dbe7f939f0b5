//! Handlers of the records interface.

use vstd::prelude::*;

use crate::message::data::Data;
use crate::message::descriptor::{Filter, FilterDateSort};
use crate::message::{record_id_of, Message};
use crate::store::surrealdb::{
    last_index, lemma_last_index, put_spec, query_result, MessageRow, SurrealDB,
};
pub use crate::store::surrealdb::{first_index, lemma_first_index, lemma_first_index_at};
use crate::text::str_eq;
use crate::util::CborEncodeError;
use crate::timestamp::Timestamp;

use super::{handler_outcome, lift, status_ok, HandlerError, Reply, Status};
use write::{answers, lemma_answers_at, lemma_answers_len};

pub mod commit;
pub mod delete;
pub mod query;
pub mod read;
pub mod write;

verus! {

/// The stored messages of a record of `tenant`, newest first.
pub open spec fn record_history(t: Seq<MessageRow>, tenant: Seq<char>, record_id: Seq<char>) -> Seq<
    MessageRow,
> {
    query_result(t, tenant, Some(record_id), Some(FilterDateSort::CreatedDescending))
}

/// The filter that asks for the messages of a record, newest first.
pub fn history_filter(record_id: &String) -> (f: Filter)
    ensures
        f.record_id matches Some(r) && r@ == record_id@,
        f.date_sort == Some(FilterDateSort::CreatedDescending),
{
    Filter {
        attester: None,
        context_id: None,
        data_format: None,
        date_sort: Some(FilterDateSort::CreatedDescending),
        message_timestamp: None,
        parent_id: None,
        protocol: None,
        protocol_version: None,
        recipient: None,
        record_id: Some(record_id.clone()),
        schema: None,
    }
}

/// The reply that a handler gives when it is done: the success status alone.
pub open spec fn is_status_reply(r: Reply) -> bool {
    r is Status && status_ok(r->Status_status)
}

/// The success status reply.
pub fn status_reply() -> (r: Reply)
    ensures
        is_status_reply(r),
{
    Reply::Status { status: Status::ok() }
}

/// Keeps `message` for `tenant` and replies with the success status, or with the
/// store's error.
pub fn store_and_reply(
    message_store: &mut SurrealDB,
    data_store: &mut SurrealDB,
    tenant: &str,
    message: Message,
    now: Timestamp,
) -> (r: Result<Reply, HandlerError>)
    requires
        old(message_store)@.wf(),
        old(data_store)@.wf(),
        !(message.data matches Some(Data::Encrypted(_))),
    ensures
        final(message_store)@.wf(),
        final(data_store)@.wf(),
        handler_outcome(r) == lift(
            put_spec(old(message_store)@, old(data_store)@, tenant@, message, now),
        ).0,
        final(message_store)@ == put_spec(old(message_store)@, old(data_store)@, tenant@, message, now).1,
        final(data_store)@ == put_spec(old(message_store)@, old(data_store)@, tenant@, message, now).2,
        r matches Ok(rep) ==> is_status_reply(rep),
        r matches Err(e) ==> e is MessageStoreError,
{
    match message_store.put_at(tenant, message, data_store, now) {
        Ok(_) => Ok(status_reply()),
        Err(e) => Err(HandlerError::MessageStoreError(e)),
    }
}

/// The predicate of stored messages whose entry id is `entry_id`.
pub open spec fn entry_key(entry_id: Seq<char>) -> spec_fn(MessageRow) -> bool {
    |m: MessageRow| record_id_of(m.message.descriptor) == entry_id
}

/// The message of a history with the entry id `entry_id`: of several, the last.
pub open spec fn entry_lookup(rows: Seq<MessageRow>, entry_id: Seq<char>) -> Option<int> {
    last_index(rows, entry_key(entry_id))
}

/// The entry ids of the messages of a history, in order.
pub fn entry_ids(messages: &Vec<(String, Message)>, Ghost(rows): Ghost<Seq<MessageRow>>) -> (r: Result<
    Vec<String>,
    CborEncodeError,
>)
    requires
        answers(messages@, rows),
    ensures
        r matches Ok(ids) && ids@.len() == rows.len() && forall|k: int|
            0 <= k < ids@.len() ==> (#[trigger] ids@[k])@ == record_id_of(rows[k].message.descriptor),
{
    proof {
        lemma_answers_len(messages@, rows);
    }
    let mut ids: Vec<String> = Vec::new();
    let mut i: usize = 0;
    while i < messages.len()
        invariant
            i <= messages@.len(),
            messages@.len() == rows.len(),
            answers(messages@, rows),
            ids@.len() == i,
            forall|k: int| 0 <= k < i ==> (#[trigger] ids@[k])@ == record_id_of(rows[k].message.descriptor),
        decreases messages@.len() - i,
    {
        proof {
            lemma_answers_at(messages@, rows, i as int);
        }
        let id = messages[i].1.generate_record_id()?;
        ids.push(id);
        i = i + 1;
    }
    Ok(ids)
}

/// The index of the message of a history with the entry id `entry_id`, given the
/// history's entry ids: of several, the last.
pub fn find_entry(ids: &Vec<String>, entry_id: &str, Ghost(rows): Ghost<Seq<MessageRow>>) -> (r: Option<
    usize,
>)
    requires
        ids@.len() == rows.len(),
        forall|k: int| 0 <= k < ids@.len() ==> (#[trigger] ids@[k])@ == record_id_of(rows[k].message.descriptor),
    ensures
        r matches Some(i) ==> i < rows.len() && entry_lookup(rows, entry_id@) == Some(i as int),
        r is None ==> entry_lookup(rows, entry_id@) is None,
{
    let ghost p = entry_key(entry_id@);
    proof {
        lemma_last_index(rows, p);
    }
    let mut i = ids.len();
    while i > 0
        invariant
            i <= rows.len(),
            ids@.len() == rows.len(),
            p == entry_key(entry_id@),
            forall|k: int| 0 <= k < ids@.len() ==> (#[trigger] ids@[k])@ == record_id_of(rows[k].message.descriptor),
            forall|k: int| i <= k < rows.len() ==> !p(#[trigger] rows[k]),
        decreases i,
    {
        if str_eq(ids[i - 1].as_str(), entry_id) {
            proof {
                let k = (i - 1) as int;
                assert(ids@[k]@ == record_id_of(rows[k].message.descriptor));
                assert(p(rows[k]));
                lemma_last_index(rows, p);
                let x = last_index(rows, p)->0;
                if x < k {
                    assert(!p(rows[k]));
                }
                if x > k {
                    assert(!p(rows[x]));
                }
            }
            return Some(i - 1);
        }
        proof {
            let k = (i - 1) as int;
            assert(ids@[k]@ == record_id_of(rows[k].message.descriptor));
        }
        i = i - 1;
    }
    proof {
        lemma_last_index(rows, p);
    }
    None
}

} // verus!
