//! The handler of record commits.

use vstd::prelude::*;

use crate::message::data::Data;
use crate::message::descriptor::{descriptor_encodable, Descriptor, FilterDateSort};
use crate::message::{record_id_of, Message, VerifyAuthError};
use crate::store::surrealdb::{
    lemma_query_result_keeps, put_spec, MessageRow, StoreView, SurrealDB,
};
use crate::text::str_eq;
use crate::timestamp::Timestamp;

use super::super::{handler_outcome, lift, HandlerError, HandlerOutcome, Reply};
use super::write::{answers, lemma_answers_at, lemma_answers_len};
use super::{
    entry_ids, entry_lookup, first_index, find_entry, history_filter, is_status_reply,
    lemma_first_index, lemma_first_index_at, record_history, store_and_reply,
};

verus! {

/// Whether a stored message is a write.
pub open spec fn is_write(m: MessageRow) -> bool {
    m.message.descriptor is RecordsWrite
}

/// The predicate of writes.
pub open spec fn writing() -> spec_fn(MessageRow) -> bool {
    |m: MessageRow| is_write(m)
}

/// Whether the entry `entry_id` of a history descends from the entry `root`: it is
/// `root`, or a commit whose parent descends from `root`. At most `fuel` entries
/// are looked up; a history of `n` messages needs at most `n` for a chain without
/// a cycle.
pub open spec fn descends(rows: Seq<MessageRow>, entry_id: Seq<char>, root: Seq<char>, fuel: nat) -> bool
    decreases fuel,
{
    if entry_id == root {
        true
    } else if fuel == 0 {
        false
    } else {
        match entry_lookup(rows, entry_id) {
            None => false,
            Some(i) => match rows[i].message.descriptor {
                Descriptor::RecordsCommit(c) => descends(rows, c.parent_id@, root, (fuel - 1) as nat),
                _ => false,
            },
        }
    }
}

/// The instant of a commit or a write, in nanoseconds; `None` for other messages.
pub open spec fn parent_instant(d: Descriptor) -> Option<int> {
    match d {
        Descriptor::RecordsCommit(x) => Some(x.message_timestamp.unix_nanos as int),
        Descriptor::RecordsWrite(x) => Some(x.message_timestamp.unix_nanos as int),
        _ => None,
    }
}

/// What a verified commit `m` of `tenant` does at `now` to a message store `s` and
/// a data store `d`, and how it ends.
///
/// The record must have a write; the newest is the active one. The commit's parent
/// must descend from the active write, be a commit or a write of the record, and be
/// no later than the commit. The commit is then kept.
pub open spec fn commit_spec(s: StoreView, d: StoreView, tenant: Seq<char>, m: Message, now: Timestamp) -> (
    HandlerOutcome,
    StoreView,
    StoreView,
) {
    if !(m.descriptor is RecordsCommit) {
        (HandlerOutcome::Invalid, s, d)
    } else {
        let c = m.descriptor->RecordsCommit_0;
        let rows = record_history(s.messages, tenant, m.record_id@);
        match first_index(rows, writing()) {
            None => (HandlerOutcome::Invalid, s, d),
            Some(a) => {
                let active = record_id_of(rows[a].message.descriptor);
                if !descends(rows, c.parent_id@, active, rows.len()) {
                    (HandlerOutcome::Invalid, s, d)
                } else {
                    match entry_lookup(rows, c.parent_id@) {
                        None => (HandlerOutcome::Invalid, s, d),
                        Some(p) => match parent_instant(rows[p].message.descriptor) {
                            None => (HandlerOutcome::Invalid, s, d),
                            Some(pt) => if (c.message_timestamp.unix_nanos as int) < pt {
                                (HandlerOutcome::Invalid, s, d)
                            } else {
                                lift(put_spec(s, d, tenant, m, now))
                            },
                        },
                    }
                }
            },
        }
    }
}

/// Whether a verified commit `m` of `tenant` reaches the point where the store
/// keeps it: it passes every check of `commit_spec`.
pub open spec fn commit_keeps(s: StoreView, tenant: Seq<char>, m: Message) -> bool {
    if !(m.descriptor is RecordsCommit) {
        false
    } else {
        let c = m.descriptor->RecordsCommit_0;
        let rows = record_history(s.messages, tenant, m.record_id@);
        match first_index(rows, writing()) {
            None => false,
            Some(a) => {
                let active = record_id_of(rows[a].message.descriptor);
                descends(rows, c.parent_id@, active, rows.len()) && match entry_lookup(
                    rows,
                    c.parent_id@,
                ) {
                    None => false,
                    Some(p) => match parent_instant(rows[p].message.descriptor) {
                        None => false,
                        Some(pt) => (c.message_timestamp.unix_nanos as int) >= pt,
                    },
                }
            },
        }
    }
}

/// Whether a message is a write.
fn is_write_message(m: &Message) -> (r: bool)
    ensures
        r == (m.descriptor is RecordsWrite),
{
    match &m.descriptor {
        Descriptor::RecordsWrite(_) => true,
        _ => false,
    }
}

/// Whether the entry `entry_id` of a history descends from the entry `root`.
fn descends_from(
    messages: &Vec<(String, Message)>,
    ids: &Vec<String>,
    entry_id: &String,
    root: &String,
    Ghost(rows): Ghost<Seq<MessageRow>>,
) -> (r: bool)
    requires
        answers(messages@, rows),
        ids@.len() == rows.len(),
        forall|k: int| 0 <= k < ids@.len() ==> (#[trigger] ids@[k])@ == record_id_of(rows[k].message.descriptor),
    ensures
        r == descends(rows, entry_id@, root@, rows.len()),
{
    proof {
        lemma_answers_len(messages@, rows);
    }
    let mut current = entry_id.clone();
    let mut fuel: usize = messages.len();
    while fuel > 0
        invariant
            fuel <= rows.len(),
            messages@.len() == rows.len(),
            answers(messages@, rows),
            ids@.len() == rows.len(),
            forall|k: int| 0 <= k < ids@.len() ==> (#[trigger] ids@[k])@ == record_id_of(rows[k].message.descriptor),
            descends(rows, current@, root@, fuel as nat) == descends(rows, entry_id@, root@, rows.len()),
        decreases fuel,
    {
        if str_eq(current.as_str(), root.as_str()) {
            return true;
        }
        let i = match find_entry(ids, current.as_str(), Ghost(rows)) {
            Some(i) => i,
            None => {
                return false;
            },
        };
        proof {
            lemma_answers_at(messages@, rows, i as int);
        }
        let parent = match &messages[i].1.descriptor {
            Descriptor::RecordsCommit(c) => c.parent_id.clone(),
            _ => {
                return false;
            },
        };
        current = parent;
        fuel = fuel - 1;
    }
    str_eq(current.as_str(), root.as_str())
}

/// Handles record commits.
pub struct RecordsCommitHandler;

impl RecordsCommitHandler {
    /// Handles the commit `message` of `tenant` at `now`, given how its
    /// authorization verified.
    pub fn handle(
        message_store: &mut SurrealDB,
        data_store: &mut SurrealDB,
        tenant: &str,
        message: Message,
        auth: Result<(), VerifyAuthError>,
        now: Timestamp,
    ) -> (r: Result<Reply, HandlerError>)
        requires
            old(message_store)@.wf(),
            old(data_store)@.wf(),
            message.data matches Some(Data::Encrypted(_)) ==> !commit_keeps(
                old(message_store)@,
                tenant@,
                message,
            ),
        ensures
            final(message_store)@.wf(),
            final(data_store)@.wf(),
            auth matches Err(e) ==> r == Err::<Reply, HandlerError>(HandlerError::VerifyError(e))
                && final(message_store)@ == old(message_store)@ && final(data_store)@ == old(
                data_store,
            )@,
            auth is Ok ==> handler_outcome(r) == commit_spec(
                old(message_store)@,
                old(data_store)@,
                tenant@,
                message,
                now,
            ).0 && final(message_store)@ == commit_spec(
                old(message_store)@,
                old(data_store)@,
                tenant@,
                message,
                now,
            ).1 && final(data_store)@ == commit_spec(
                old(message_store)@,
                old(data_store)@,
                tenant@,
                message,
                now,
            ).2,
            r matches Ok(rep) ==> is_status_reply(rep),
    {
        match auth {
            Err(e) => {
                return Err(HandlerError::VerifyError(e));
            },
            Ok(()) => {},
        }
        let descriptor = match &message.descriptor {
            Descriptor::RecordsCommit(d) => d,
            _ => {
                return Err(HandlerError::InvalidDescriptor("Not a RecordsCommit message".to_owned()));
            },
        };
        let ghost s0 = message_store@;
        let ghost rows = record_history(s0.messages, tenant@, message.record_id@);
        let filter = history_filter(&message.record_id);
        let messages = message_store.query_keyed(tenant, &filter);
        proof {
            lemma_query_result_keeps(
                s0.messages,
                tenant@,
                Some(message.record_id@),
                Some(FilterDateSort::CreatedDescending),
                |m: MessageRow| descriptor_encodable(m.message.descriptor),
            );
            reveal(answers);
            assert(answers(messages@, rows));
        }

        // The active write: the newest write of the record.
        let mut a: usize = 0;
        while a < messages.len() && !is_write_message(&messages[a].1)
            invariant
                a <= messages@.len(),
                messages@.len() == rows.len(),
                answers(messages@, rows),
                forall|k: int| 0 <= k < a ==> !is_write(#[trigger] rows[k]),
            decreases messages@.len() - a,
        {
            proof {
                lemma_answers_at(messages@, rows, a as int);
            }
            a = a + 1;
        }
        if a == messages.len() {
            proof {
                lemma_first_index(rows, writing());
                assert forall|k: int| 0 <= k < rows.len() implies !writing()(rows[k]) by {}
            }
            return Err(
                HandlerError::InvalidDescriptor(
                    "No active RecordsWrite message found for record".to_owned(),
                ),
            );
        }
        proof {
            lemma_answers_at(messages@, rows, a as int);
            lemma_first_index_at(rows, writing(), a as int);
        }
        let active_entry_id = match messages[a].1.generate_record_id() {
            Ok(id) => id,
            Err(e) => {
                return Err(HandlerError::CborEncode(e));
            },
        };
        let ids = match entry_ids(&messages, Ghost(rows)) {
            Ok(ids) => ids,
            Err(e) => {
                return Err(HandlerError::CborEncode(e));
            },
        };
        if !descends_from(&messages, &ids, &descriptor.parent_id, &active_entry_id, Ghost(rows)) {
            return Err(
                HandlerError::InvalidDescriptor(
                    "Parent message does not descend from active message".to_owned(),
                ),
            );
        }
        let p = match find_entry(&ids, descriptor.parent_id.as_str(), Ghost(rows)) {
            Some(p) => p,
            None => {
                return Err(HandlerError::InvalidDescriptor("Parent message not found".to_owned()));
            },
        };
        proof {
            lemma_answers_at(messages@, rows, p as int);
        }
        let parent_timestamp = match &messages[p].1.descriptor {
            Descriptor::RecordsCommit(d) => d.message_timestamp.unix_nanos,
            Descriptor::RecordsWrite(d) => d.message_timestamp.unix_nanos,
            _ => {
                return Err(
                    HandlerError::InvalidDescriptor(
                        "Parent message is not a commit or write".to_owned(),
                    ),
                );
            },
        };
        if descriptor.message_timestamp.unix_nanos < parent_timestamp {
            return Err(
                HandlerError::InvalidDescriptor("Message timestamp is older than parent".to_owned()),
            );
        }
        store_and_reply(message_store, data_store, tenant, message, now)
    }
}

} // verus!
