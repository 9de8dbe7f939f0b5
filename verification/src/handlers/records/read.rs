//! The handler of record reads.
//!
//! A read is answered in two steps. `RecordsReadHandler::locate` finds the record
//! that answers it and the text of the CID under which its data was written, as the
//! write's descriptor gives it. That text is then read as a CID and written back in
//! its canonical form, which is the key of the data store, by the caller. Then
//! `RecordsReadHandler::respond` fetches the data and replies.

use vstd::prelude::*;

use crate::message::descriptor::{descriptor_encodable, Descriptor, FilterDateSort};
use crate::message::{message_same, record_id_of, Message};
use crate::store::surrealdb::{
    data_lookup, lemma_query_result_keeps, opt_view, MessageRow, SurrealDB,
};
use crate::message::descriptor::clone_opt_string;

use super::super::{status_ok, HandlerError, Reply, Status};
use super::write::{answers, lemma_answers_at, lemma_answers_len};
use super::{
    entry_ids, entry_lookup, find_entry, first_index, history_filter, lemma_first_index,
    lemma_first_index_at, record_history,
};

verus! {

/// Whether a stored message is a commit or a deletion.
pub open spec fn is_commit_or_delete(m: MessageRow) -> bool {
    m.message.descriptor is RecordsCommit || m.message.descriptor is RecordsDelete
}

/// The predicate of commits and deletions.
pub open spec fn settling() -> spec_fn(MessageRow) -> bool {
    |m: MessageRow| is_commit_or_delete(m)
}

/// The index of the message of a history (newest first) that a read answers
/// with: the newest commit or deletion, or the initial entry when there is none.
pub open spec fn read_index(rows: Seq<MessageRow>) -> Option<int> {
    match first_index(rows, settling()) {
        Some(i) => Some(i),
        None => if rows.len() > 0 {
            Some(rows.len() - 1)
        } else {
            None
        },
    }
}

/// The text of the CID of the data of the entry `entry_id` of a history: that of
/// the write it is or, for a commit, that of its parent. At most `fuel` entries are
/// looked up; a history of `n` messages needs at most `n` for a chain without a
/// cycle.
pub open spec fn data_cid_chain(rows: Seq<MessageRow>, entry_id: Seq<char>, fuel: nat) -> Option<
    Seq<char>,
>
    decreases fuel,
{
    if fuel == 0 {
        None
    } else {
        match entry_lookup(rows, entry_id) {
            None => None,
            Some(i) => match rows[i].message.descriptor {
                Descriptor::RecordsCommit(c) => data_cid_chain(rows, c.parent_id@, (fuel - 1) as nat),
                Descriptor::RecordsWrite(w) => opt_view(w.data_cid),
                _ => None,
            },
        }
    }
}

/// The record that answers a read, and the text of the CID of its data.
#[derive(Debug)]
pub struct ReadTarget {
    pub record: Message,
    pub data_cid: Option<String>,
}

/// Whether a message is a commit or a deletion.
fn settles(m: &Message) -> (r: bool)
    ensures
        r == (m.descriptor is RecordsCommit || m.descriptor is RecordsDelete),
{
    match &m.descriptor {
        Descriptor::RecordsCommit(_) => true,
        Descriptor::RecordsDelete(_) => true,
        _ => false,
    }
}

/// The text of the CID of the data of the entry `entry_id` of a history.
fn find_data_cid(
    messages: &Vec<(String, Message)>,
    ids: &Vec<String>,
    entry_id: &String,
    Ghost(rows): Ghost<Seq<MessageRow>>,
) -> (r: Option<String>)
    requires
        answers(messages@, rows),
        ids@.len() == rows.len(),
        forall|k: int| 0 <= k < ids@.len() ==> (#[trigger] ids@[k])@ == record_id_of(rows[k].message.descriptor),
    ensures
        opt_view(r) == data_cid_chain(rows, entry_id@, rows.len()),
{
    proof {
        lemma_answers_len(messages@, rows);
    }
    let mut current = entry_id.clone();
    let mut fuel: usize = messages.len();
    while fuel > 0
        invariant
            fuel <= rows.len(),
            messages@.len() == rows.len(),
            answers(messages@, rows),
            ids@.len() == rows.len(),
            forall|k: int| 0 <= k < ids@.len() ==> (#[trigger] ids@[k])@ == record_id_of(rows[k].message.descriptor),
            data_cid_chain(rows, current@, fuel as nat) == data_cid_chain(rows, entry_id@, rows.len()),
        decreases fuel,
    {
        let i = match find_entry(ids, current.as_str(), Ghost(rows)) {
            Some(i) => i,
            None => {
                return None;
            },
        };
        proof {
            lemma_answers_at(messages@, rows, i as int);
        }
        match &messages[i].1.descriptor {
            Descriptor::RecordsCommit(c) => {
                current = c.parent_id.clone();
            },
            Descriptor::RecordsWrite(w) => {
                return clone_opt_string(&w.data_cid);
            },
            _ => {
                return None;
            },
        }
        fuel = fuel - 1;
    }
    None
}

/// Answers record reads.
pub struct RecordsReadHandler;

impl RecordsReadHandler {
    /// Finds the record that answers the read `message` of `tenant`, and the text
    /// of the CID of its data. A message that is not a read, or a read of a record
    /// with no message, is refused.
    pub fn locate(message_store: &SurrealDB, tenant: &str, message: &Message) -> (r: Result<
        ReadTarget,
        HandlerError,
    >)
        requires
            message_store@.wf(),
        ensures
            !(message.descriptor is RecordsRead) ==> (r matches Err(e) && e is InvalidDescriptor),
            message.descriptor is RecordsRead ==> ({
                let rows = record_history(
                    message_store@.messages,
                    tenant@,
                    message.descriptor->RecordsRead_0.record_id@,
                );
                match read_index(rows) {
                    None => r matches Err(e) && e is InvalidDescriptor,
                    Some(i) => r matches Ok(t) && message_same(t.record, rows[i].message)
                        && opt_view(t.data_cid) == data_cid_chain(
                        rows,
                        record_id_of(rows[i].message.descriptor),
                        rows.len(),
                    ),
                }
            }),
    {
        let descriptor = match &message.descriptor {
            Descriptor::RecordsRead(d) => d,
            _ => {
                return Err(HandlerError::InvalidDescriptor("Not a RecordsRead message".to_owned()));
            },
        };
        let ghost s0 = message_store@;
        let ghost rows = record_history(s0.messages, tenant@, descriptor.record_id@);
        let filter = history_filter(&descriptor.record_id);
        let messages = message_store.query_keyed(tenant, &filter);
        proof {
            lemma_query_result_keeps(
                s0.messages,
                tenant@,
                Some(descriptor.record_id@),
                Some(FilterDateSort::CreatedDescending),
                |m: MessageRow| descriptor_encodable(m.message.descriptor),
            );
            reveal(answers);
            assert(answers(messages@, rows));
        }

        // The newest commit or deletion, or else the initial entry.
        let mut j: usize = 0;
        while j < messages.len() && !settles(&messages[j].1)
            invariant
                j <= messages@.len(),
                messages@.len() == rows.len(),
                answers(messages@, rows),
                forall|k: int| 0 <= k < j ==> !is_commit_or_delete(#[trigger] rows[k]),
            decreases messages@.len() - j,
        {
            proof {
                lemma_answers_at(messages@, rows, j as int);
            }
            j = j + 1;
        }
        let i = if j < messages.len() {
            proof {
                lemma_answers_at(messages@, rows, j as int);
                lemma_first_index_at(rows, settling(), j as int);
            }
            j
        } else {
            proof {
                lemma_first_index(rows, settling());
                assert forall|k: int| 0 <= k < rows.len() implies !settling()(rows[k]) by {}
            }
            if messages.len() == 0 {
                return Err(HandlerError::InvalidDescriptor("Record not found".to_owned()));
            }
            messages.len() - 1
        };
        proof {
            lemma_answers_at(messages@, rows, i as int);
        }
        let ids = match entry_ids(&messages, Ghost(rows)) {
            Ok(ids) => ids,
            Err(e) => {
                return Err(HandlerError::CborEncode(e));
            },
        };
        let record_entry_id = match messages[i].1.generate_record_id() {
            Ok(id) => id,
            Err(e) => {
                return Err(HandlerError::CborEncode(e));
            },
        };
        let data_cid = find_data_cid(&messages, &ids, &record_entry_id, Ghost(rows));
        Ok(ReadTarget { record: messages[i].1.clone(), data_cid })
    }

    /// Replies to a read with its record and the data stored under `data_cid`: the
    /// canonical text of the target's data CID, or why that text is no CID.
    pub fn respond(data_store: &SurrealDB, target: ReadTarget, data_cid: Option<Result<String, String>>) -> (r: Result<
        Reply,
        HandlerError,
    >)
        requires
            data_cid is Some <==> target.data_cid is Some,
        ensures
            data_cid matches Some(Err(_)) ==> (r matches Err(e) && e is InvalidDescriptor),
            !(data_cid matches Some(Err(_))) ==> (r matches Ok(rep) && rep matches Reply::RecordsRead {
                data,
                record,
                status,
            } && record == target.record && status_ok(status) && match data_cid {
                Some(Ok(c)) => match data_lookup(data_store@.data, c@) {
                    Some(bytes) => data matches Some(v) && v@ == bytes,
                    None => data is None,
                },
                _ => data is None,
            }),
    {
        let data = match data_cid {
            None => None,
            Some(Err(_)) => {
                return Err(HandlerError::InvalidDescriptor("Invalid data CID".to_owned()));
            },
            Some(Ok(c)) => match data_store.data_get(c.as_str()) {
                Ok(Some(res)) => Some(res.data),
                Ok(None) => None,
                Err(e) => {
                    return Err(HandlerError::DataStoreError(e));
                },
            },
        };
        Ok(Reply::RecordsRead { data, record: target.record, status: Status::ok() })
    }
}

} // verus!
