//! The handler of record writes.

use vstd::prelude::*;

use crate::message::data::Data;
use crate::message::descriptor::{descriptor_encodable, Descriptor, FilterDateSort};
use crate::message::{
    message_same, record_id_of, Message, VerifyAuthError,
};
use crate::store::surrealdb::{
    delete_spec, lemma_query_result_keeps, put_spec, MessageRow, StoreOutcome, StoreView, SurrealDB,
};
use crate::text::{str_eq, str_gt, string_gt};
use crate::timestamp::Timestamp;

use super::super::{handler_outcome, lift, HandlerError, HandlerOutcome, Reply};
use super::{
    first_index, history_filter, is_status_reply, lemma_first_index, lemma_first_index_at,
    record_history, status_reply, store_and_reply,
};

verus! {

/// Whether a stored message is a deletion.
pub open spec fn is_delete(m: MessageRow) -> bool {
    m.message.descriptor is RecordsDelete
}

/// The predicate of deletions.
pub open spec fn deletion() -> spec_fn(MessageRow) -> bool {
    |m: MessageRow| is_delete(m)
}

/// The latest checkpoint of a record's history (newest first): its newest
/// deletion, or its initial entry when it has none.
pub open spec fn checkpoint(rows: Seq<MessageRow>) -> MessageRow {
    match first_index(rows, deletion()) {
        Some(i) => rows[i],
        None => rows.last(),
    }
}

/// The instant of a deletion or a write, in nanoseconds; `None` for other messages.
pub open spec fn checkpoint_instant(d: Descriptor) -> Option<int> {
    match d {
        Descriptor::RecordsDelete(x) => Some(x.message_timestamp.unix_nanos as int),
        Descriptor::RecordsWrite(x) => Some(x.message_timestamp.unix_nanos as int),
        _ => None,
    }
}

/// Whether a stored message is a write of the record `record_id`.
pub open spec fn is_write_of(m: MessageRow, record_id: Seq<char>) -> bool {
    m.message.descriptor is RecordsWrite && m.message.record_id@ == record_id
}

/// The writes of the record `record_id` in a history, in history order.
pub open spec fn existing_writes(rows: Seq<MessageRow>, record_id: Seq<char>) -> Seq<MessageRow> {
    rows.filter(write_of(record_id))
}

/// The predicate of writes of the record `record_id`.
pub open spec fn write_of(record_id: Seq<char>) -> spec_fn(MessageRow) -> bool {
    |m: MessageRow| is_write_of(m, record_id)
}

/// Whether a write at instant `ts` with entry id `entry_id` supersedes the stored
/// write `w`: it is later, or as late with a greater entry id.
pub open spec fn supersedes(ts: int, entry_id: Seq<char>, w: MessageRow) -> bool {
    let wts = w.message.descriptor->RecordsWrite_0.message_timestamp.unix_nanos as int;
    if ts == wts {
        str_gt(entry_id, record_id_of(w.message.descriptor))
    } else {
        ts > wts
    }
}

/// What removing the messages under `cids`, in order, does to a message store and
/// a data store; it stops at the first removal that fails.
pub open spec fn delete_all(s: StoreView, d: StoreView, tenant: Seq<char>, cids: Seq<Seq<char>>) -> (
    StoreOutcome,
    StoreView,
    StoreView,
)
    decreases cids.len(),
{
    if cids.len() == 0 {
        (StoreOutcome::Done, s, d)
    } else {
        let before = delete_all(s, d, tenant, cids.drop_last());
        if before.0 != StoreOutcome::Done {
            before
        } else {
            delete_spec(before.1, before.2, tenant, cids.last())
        }
    }
}

/// The CIDs under which stored messages are kept.
pub open spec fn cids_of(rows: Seq<MessageRow>) -> Seq<Seq<char>> {
    rows.map_values(|m: MessageRow| m.cid)
}

/// What a verified write `m` of `tenant` does at `now` to a message store `s` and a
/// data store `d`, and how it ends.
///
/// A write whose entry id is its record id is the record's initial entry: it is
/// kept unless the record already has messages, and the handler replies either way.
/// Any other write must name, as parent, the entry id of the record's latest
/// checkpoint, and be later than it. It is then kept when the record has no write;
/// when it supersedes every write of the record, those are removed first; otherwise
/// nothing changes and the handler replies.
pub open spec fn write_spec(s: StoreView, d: StoreView, tenant: Seq<char>, m: Message, now: Timestamp) -> (
    HandlerOutcome,
    StoreView,
    StoreView,
) {
    if !descriptor_encodable(m.descriptor) {
        (HandlerOutcome::Encode, s, d)
    } else {
        let entry_id = record_id_of(m.descriptor);
        let rows = record_history(s.messages, tenant, m.record_id@);
        if entry_id == m.record_id@ {
            if rows.len() > 0 {
                (HandlerOutcome::Replied, s, d)
            } else {
                lift(put_spec(s, d, tenant, m, now))
            }
        } else if rows.len() == 0 || !(m.descriptor is RecordsWrite)
            || m.descriptor->RecordsWrite_0.parent_id is None {
            (HandlerOutcome::Invalid, s, d)
        } else {
            let w = m.descriptor->RecordsWrite_0;
            let ts = w.message_timestamp.unix_nanos as int;
            let cp = checkpoint(rows);
            let cp_time = checkpoint_instant(cp.message.descriptor);
            if w.parent_id->0@ != record_id_of(cp.message.descriptor) || cp_time is None || ts
                <= cp_time->0 {
                (HandlerOutcome::Invalid, s, d)
            } else {
                let writes = existing_writes(rows, m.record_id@);
                if writes.len() == 0 {
                    lift(put_spec(s, d, tenant, m, now))
                } else if forall|i: int|
                    0 <= i < writes.len() ==> supersedes(ts, entry_id, #[trigger] writes[i]) {
                    let del = delete_all(s, d, tenant, cids_of(writes));
                    if del.0 != StoreOutcome::Done {
                        lift(del)
                    } else {
                        lift(put_spec(del.1, del.2, tenant, m, now))
                    }
                } else {
                    (HandlerOutcome::Replied, s, d)
                }
            }
        }
    }
}

/// Whether a verified write `m` of `tenant` reaches the point where the store keeps
/// it: it is the initial entry of a record with no message, or an update that
/// passes its checks and whose superseded writes were all removed.
pub open spec fn write_keeps(s: StoreView, d: StoreView, tenant: Seq<char>, m: Message) -> bool {
    if !descriptor_encodable(m.descriptor) {
        false
    } else {
        let entry_id = record_id_of(m.descriptor);
        let rows = record_history(s.messages, tenant, m.record_id@);
        if entry_id == m.record_id@ {
            rows.len() == 0
        } else if rows.len() == 0 || !(m.descriptor is RecordsWrite)
            || m.descriptor->RecordsWrite_0.parent_id is None {
            false
        } else {
            let w = m.descriptor->RecordsWrite_0;
            let ts = w.message_timestamp.unix_nanos as int;
            let cp = checkpoint(rows);
            let cp_time = checkpoint_instant(cp.message.descriptor);
            if w.parent_id->0@ != record_id_of(cp.message.descriptor) || cp_time is None || ts
                <= cp_time->0 {
                false
            } else {
                let writes = existing_writes(rows, m.record_id@);
                writes.len() == 0 || ((forall|i: int|
                    0 <= i < writes.len() ==> supersedes(ts, entry_id, #[trigger] writes[i]))
                    && delete_all(s, d, tenant, cids_of(writes)).0 == StoreOutcome::Done)
            }
        }
    }
}

/// Whether a message is a deletion.
fn deletes(m: &Message) -> (r: bool)
    ensures
        r == (m.descriptor is RecordsDelete),
{
    match &m.descriptor {
        Descriptor::RecordsDelete(_) => true,
        _ => false,
    }
}

/// Whether a message is a write.
fn is_write_message(m: &Message) -> (r: bool)
    ensures
        r == (m.descriptor is RecordsWrite),
{
    match &m.descriptor {
        Descriptor::RecordsWrite(_) => true,
        _ => false,
    }
}

/// The relation between a history as the store answered it and the stored rows
/// it stands for.
#[verifier::opaque]
pub open spec fn answers(messages: Seq<(String, Message)>, rows: Seq<MessageRow>) -> bool {
    &&& messages.len() == rows.len()
    &&& forall|k: int|
        0 <= k < messages.len() ==> message_same((#[trigger] messages[k]).1, rows[k].message)
            && messages[k].0@ == rows[k].cid
    &&& forall|k: int| 0 <= k < rows.len() ==> descriptor_encodable(#[trigger] rows[k].message.descriptor)
}

/// What `answers` says of one entry of a history.
pub proof fn lemma_answers_at(messages: Seq<(String, Message)>, rows: Seq<MessageRow>, k: int)
    requires
        answers(messages, rows),
        0 <= k < rows.len(),
    ensures
        messages.len() == rows.len(),
        message_same(messages[k].1, rows[k].message),
        messages[k].0@ == rows[k].cid,
        descriptor_encodable(rows[k].message.descriptor),
{
    reveal(answers);
}

/// `answers` says that the lengths agree.
pub proof fn lemma_answers_len(messages: Seq<(String, Message)>, rows: Seq<MessageRow>)
    requires
        answers(messages, rows),
    ensures
        messages.len() == rows.len(),
{
    reveal(answers);
}

/// The indices `found` of a history `rows` pick the rows `ws`, in order.
pub open spec fn picks(found: Seq<usize>, rows: Seq<MessageRow>, ws: Seq<MessageRow>) -> bool {
    &&& found.len() == ws.len()
    &&& forall|q: int|
        #![trigger ws[q]]
        #![trigger found[q]]
        0 <= q < found.len() ==> (found[q] < rows.len() && rows[found[q] as int] == ws[q])
}

/// What `picks` says of one index.
pub proof fn lemma_picks_at(found: Seq<usize>, rows: Seq<MessageRow>, ws: Seq<MessageRow>, q: int)
    requires
        picks(found, rows, ws),
        0 <= q < ws.len(),
    ensures
        found.len() == ws.len(),
        found[q] < rows.len(),
        rows[found[q] as int] == ws[q],
{
}

/// The index of the latest checkpoint of a non-empty history.
fn checkpoint_index(messages: &Vec<(String, Message)>, Ghost(rows): Ghost<Seq<MessageRow>>) -> (c: usize)
    requires
        answers(messages@, rows),
        rows.len() > 0,
    ensures
        c < rows.len(),
        rows[c as int] == checkpoint(rows),
{
    proof {
        lemma_answers_len(messages@, rows);
    }
    let mut j: usize = 0;
    while j < messages.len() && !deletes(&messages[j].1)
        invariant
            j <= messages@.len(),
            messages@.len() == rows.len(),
            answers(messages@, rows),
            forall|k: int| 0 <= k < j ==> !is_delete(#[trigger] rows[k]),
        decreases messages@.len() - j,
    {
        proof {
            lemma_answers_at(messages@, rows, j as int);
        }
        j = j + 1;
    }
    if j < messages.len() {
        proof {
            lemma_answers_at(messages@, rows, j as int);
            lemma_first_index_at(rows, deletion(), j as int);
        }
        j
    } else {
        proof {
            lemma_first_index(rows, deletion());
            assert forall|k: int| 0 <= k < rows.len() implies !deletion()(rows[k]) by {}
        }
        messages.len() - 1
    }
}

/// The indices, in history order, of the writes of the record `record_id` in a history.
fn write_indices(messages: &Vec<(String, Message)>, record_id: &String, Ghost(rows): Ghost<Seq<MessageRow>>) -> (found: Vec<usize>)
    requires
        answers(messages@, rows),
    ensures
        picks(found@, rows, existing_writes(rows, record_id@)),
{
    proof {
        lemma_answers_len(messages@, rows);
    }
    let ghost pw = write_of(record_id@);
    let mut found: Vec<usize> = Vec::new();
    let mut i: usize = 0;
    while i < messages.len()
        invariant
            i <= messages@.len(),
            messages@.len() == rows.len(),
            answers(messages@, rows),
            pw == write_of(record_id@),
            found@.len() == rows.take(i as int).filter(pw).len(),
            forall|k: int| 0 <= k < found@.len() ==> #[trigger] found@[k] < i,
            forall|k: int|
                #![trigger rows.take(i as int).filter(pw)[k]]
                0 <= k < found@.len() ==> rows[found@[k] as int] == rows.take(i as int).filter(
                    pw,
                )[k],
        decreases messages@.len() - i,
    {
        let ghost before = found@;
        let ghost prev = rows.take(i as int).filter(pw);
        let is_write = is_write_message(&messages[i].1) && str_eq(
            messages[i].1.record_id.as_str(),
            record_id.as_str(),
        );
        proof {
            reveal(Seq::filter);
            lemma_answers_at(messages@, rows, i as int);
            assert(rows.take(i + 1).drop_last() =~= rows.take(i as int));
            assert(rows.take(i + 1).last() == rows[i as int]);
            assert(is_write == pw(rows[i as int]));
        }
        if is_write {
            found.push(i);
            proof {
                assert(rows.take(i + 1).filter(pw) == prev.push(rows[i as int]));
                assert forall|k: int|
                    #![trigger rows.take(i + 1).filter(pw)[k]]
                    0 <= k < found@.len() implies rows[found@[k] as int]
                    == rows.take(i + 1).filter(pw)[k] by {
                    if k < before.len() {
                        assert(found@[k] == before[k]);
                        assert(before[k] < i);
                        assert(rows[before[k] as int] == prev[k]);
                    } else {
                        assert(found@[k] == i);
                    }
                }
            }
        } else {
            proof {
                assert(rows.take(i + 1).filter(pw) == prev);
                assert forall|k: int|
                    #![trigger rows.take(i + 1).filter(pw)[k]]
                    0 <= k < found@.len() implies rows[found@[k] as int]
                    == rows.take(i + 1).filter(pw)[k] by {
                    assert(found@[k] < i);
                    assert(rows[found@[k] as int] == prev[k]);
                }
            }
        }
        i = i + 1;
    }
    proof {
        assert(rows.take(rows.len() as int) =~= rows);
        let ws = existing_writes(rows, record_id@);
        assert(rows.take(i as int) == rows);
        assert(rows.take(i as int).filter(pw) == ws);
        assert forall|q: int| 0 <= q < found@.len() implies (found@[q] < rows.len() && rows[found@[q] as int] == ws[q]) by {
            assert(found@[q] < i);
            assert(rows.take(i as int).filter(pw)[q] == ws[q]);
        }
    }
    found
}

/// Whether a write at instant `ts` with entry id `entry_id` supersedes each of the
/// writes at `found` in a history.
fn supersedes_all(
    messages: &Vec<(String, Message)>,
    found: &Vec<usize>,
    ts: i128,
    entry_id: &String,
    Ghost(rows): Ghost<Seq<MessageRow>>,
    Ghost(ws): Ghost<Seq<MessageRow>>,
) -> (all: bool)
    requires
        answers(messages@, rows),
        picks(found@, rows, ws),
        forall|q: int| 0 <= q < ws.len() ==> (#[trigger] ws[q]).message.descriptor is RecordsWrite,
    ensures
        all == forall|q: int| 0 <= q < ws.len() ==> supersedes(ts as int, entry_id@, #[trigger] ws[q]),
{
    proof {
    }
    let mut k: usize = 0;
    while k < found.len()
        invariant
            k <= found@.len(),
            found@.len() == ws.len(),
            answers(messages@, rows),
            picks(found@, rows, ws),
            forall|q: int| 0 <= q < ws.len() ==> (#[trigger] ws[q]).message.descriptor is RecordsWrite,
            forall|q: int| 0 <= q < k ==> supersedes(ts as int, entry_id@, #[trigger] ws[q]),
        decreases found@.len() - k,
    {
        proof {
            lemma_picks_at(found@, rows, ws, k as int);
            lemma_answers_at(messages@, rows, found@[k as int] as int);
        }
        let w = &messages[found[k]].1;
        assert(message_same(*w, ws[k as int].message));
        let w_ts = match &w.descriptor {
            Descriptor::RecordsWrite(d) => d.message_timestamp.unix_nanos,
            _ => 0,
        };
        let newer = if ts == w_ts {
            match w.generate_record_id() {
                Ok(w_entry_id) => string_gt(entry_id.as_str(), w_entry_id.as_str()),
                Err(_) => false,
            }
        } else {
            ts > w_ts
        };
        if !newer {
            return false;
        }
        k = k + 1;
    }
    true
}

/// Removes from the store the message that the tenant keeps under `cid`, the CID of
/// the stored row `row`.
fn remove_one(
    message_store: &mut SurrealDB,
    data_store: &mut SurrealDB,
    tenant: &str,
    cid: &String,
    Ghost(row): Ghost<MessageRow>,
) -> (r: Result<(), HandlerError>)
    requires
        old(message_store)@.wf(),
        old(data_store)@.wf(),
        cid@ == row.cid,
    ensures
        final(message_store)@.wf(),
        final(data_store)@.wf(),
        ({
            let del = delete_spec(old(message_store)@, old(data_store)@, tenant@, row.cid);
            &&& (r is Ok <==> del.0 == StoreOutcome::Done)
            &&& (r matches Err(e) ==> e is MessageStoreError && handler_outcome(Err::<Reply, HandlerError>(e)) == HandlerOutcome::StoreFailed(del.0))
            &&& final(message_store)@ == del.1
            &&& final(data_store)@ == del.2
        }),
{
    match message_store.delete(tenant, cid.clone(), data_store) {
        Ok(()) => Ok(()),
        Err(e) => Err(HandlerError::MessageStoreError(e)),
    }
}

/// Removes from the store the writes at `found` in a history, in order, stopping at
/// the first removal that fails.
pub(crate) fn remove_writes(
    message_store: &mut SurrealDB,
    data_store: &mut SurrealDB,
    tenant: &str,
    messages: &Vec<(String, Message)>,
    found: &Vec<usize>,
    Ghost(rows): Ghost<Seq<MessageRow>>,
    Ghost(ws): Ghost<Seq<MessageRow>>,
) -> (r: Result<(), HandlerError>)
    requires
        old(message_store)@.wf(),
        old(data_store)@.wf(),
        answers(messages@, rows),
        picks(found@, rows, ws),
    ensures
        final(message_store)@.wf(),
        final(data_store)@.wf(),
        r is Ok <==> delete_all(old(message_store)@, old(data_store)@, tenant@, cids_of(ws)).0
            == StoreOutcome::Done,
        r matches Err(e) ==> e is MessageStoreError && handler_outcome(
            Err::<Reply, HandlerError>(e),
        ) == lift(delete_all(old(message_store)@, old(data_store)@, tenant@, cids_of(ws))).0,
        final(message_store)@ == delete_all(
            old(message_store)@,
            old(data_store)@,
            tenant@,
            cids_of(ws),
        ).1,
        final(data_store)@ == delete_all(
            old(message_store)@,
            old(data_store)@,
            tenant@,
            cids_of(ws),
        ).2,
{
    proof {
    }
    let ghost cids = cids_of(ws);
    let ghost s0 = message_store@;
    let ghost d0 = data_store@;
    let mut n: usize = 0;
    assert(cids.take(0) =~= Seq::<Seq<char>>::empty());
    while n < found.len()
        invariant
            n <= found@.len(),
            found@.len() == ws.len(),
            cids == cids_of(ws),
            answers(messages@, rows),
            picks(found@, rows, ws),
            message_store@.wf(),
            data_store@.wf(),
            s0 == old(message_store)@,
            d0 == old(data_store)@,
            delete_all(s0, d0, tenant@, cids.take(n as int)) == (
                StoreOutcome::Done,
                message_store@,
                data_store@,
            ),
        decreases found@.len() - n,
    {
        proof {
            lemma_picks_at(found@, rows, ws, n as int);
            lemma_answers_at(messages@, rows, found@[n as int] as int);
        }
        let ghost prev_s = message_store@;
        let ghost prev_d = data_store@;
        proof {
            assert(cids.take(n + 1).drop_last() =~= cids.take(n as int));
            assert(cids.take(n + 1).last() == ws[n as int].cid);
        }
        match remove_one(message_store, data_store, tenant, &messages[found[n]].0, Ghost(ws[n as int])) {
            Ok(()) => {},
            Err(e) => {
                proof {
                    assert(delete_all(s0, d0, tenant@, cids.take(n + 1)) == delete_spec(
                        prev_s,
                        prev_d,
                        tenant@,
                        ws[n as int].cid,
                    ));
                    let rest = cids.subrange(n + 1, cids.len() as int);
                    lemma_delete_all_stops(s0, d0, tenant@, cids.take(n + 1), rest);
                    assert(cids.take(n + 1) + rest =~= cids);
                }
                return Err(e);
            },
        }
        n = n + 1;
    }
    proof {
        assert(cids.take(cids.len() as int) =~= cids);
    }
    Ok(())
}

/// Once a removal fails, the removals after it do nothing.
pub proof fn lemma_delete_all_stops(
    s: StoreView,
    d: StoreView,
    tenant: Seq<char>,
    done: Seq<Seq<char>>,
    rest: Seq<Seq<char>>,
)
    requires
        delete_all(s, d, tenant, done).0 != StoreOutcome::Done,
    ensures
        delete_all(s, d, tenant, done + rest) == delete_all(s, d, tenant, done),
    decreases rest.len(),
{
    if rest.len() > 0 {
        lemma_delete_all_stops(s, d, tenant, done, rest.drop_last());
        assert((done + rest).drop_last() =~= done + rest.drop_last());
    } else {
        assert(done + rest =~= done);
    }
}

/// Handles record writes.
pub struct RecordsWriteHandler;

impl RecordsWriteHandler {
    /// Handles the write `message` of `tenant` at `now`, given how its
    /// authorization verified.
    pub fn handle(
        message_store: &mut SurrealDB,
        data_store: &mut SurrealDB,
        tenant: &str,
        message: Message,
        auth: Result<(), VerifyAuthError>,
        now: Timestamp,
    ) -> (r: Result<Reply, HandlerError>)
        requires
            old(message_store)@.wf(),
            old(data_store)@.wf(),
            message.data matches Some(Data::Encrypted(_)) ==> !write_keeps(
                old(message_store)@,
                old(data_store)@,
                tenant@,
                message,
            ),
        ensures
            final(message_store)@.wf(),
            final(data_store)@.wf(),
            auth matches Err(e) ==> r == Err::<Reply, HandlerError>(HandlerError::VerifyError(e))
                && final(message_store)@ == old(message_store)@ && final(data_store)@ == old(
                data_store,
            )@,
            auth is Ok ==> handler_outcome(r) == write_spec(
                old(message_store)@,
                old(data_store)@,
                tenant@,
                message,
                now,
            ).0 && final(message_store)@ == write_spec(
                old(message_store)@,
                old(data_store)@,
                tenant@,
                message,
                now,
            ).1 && final(data_store)@ == write_spec(
                old(message_store)@,
                old(data_store)@,
                tenant@,
                message,
                now,
            ).2,
            r matches Ok(rep) ==> is_status_reply(rep),
    {
        match auth {
            Err(e) => {
                return Err(HandlerError::VerifyError(e));
            },
            Ok(()) => {},
        }
        let entry_id = match message.generate_record_id() {
            Ok(id) => id,
            Err(e) => {
                return Err(HandlerError::CborEncode(e));
            },
        };
        let ghost s0 = message_store@;
        let ghost d0 = data_store@;
        let ghost rows = record_history(s0.messages, tenant@, message.record_id@);
        let filter = history_filter(&message.record_id);
        let messages = message_store.query_keyed(tenant, &filter);
        proof {
            lemma_query_result_keeps(
                s0.messages,
                tenant@,
                Some(message.record_id@),
                Some(FilterDateSort::CreatedDescending),
                |m: MessageRow| descriptor_encodable(m.message.descriptor),
            );
            reveal(answers);
            assert(answers(messages@, rows));
        }
        if str_eq(entry_id.as_str(), message.record_id.as_str()) {
            if messages.len() > 0 {
                return Ok(status_reply());
            }
            return store_and_reply(message_store, data_store, tenant, message, now);
        }
        if messages.len() == 0 {
            return Err(HandlerError::InvalidDescriptor("Initial entry not found".to_owned()));
        }
        let descriptor = match &message.descriptor {
            Descriptor::RecordsWrite(d) => d,
            _ => {
                return Err(HandlerError::InvalidDescriptor("Not a RecordsWrite message".to_owned()));
            },
        };
        let parent_id = match &descriptor.parent_id {
            Some(p) => p,
            None => {
                return Err(HandlerError::InvalidDescriptor("No parent id".to_owned()));
            },
        };
        let ts = descriptor.message_timestamp.unix_nanos;
        let c = checkpoint_index(&messages, Ghost(rows));
        proof {
            lemma_answers_at(messages@, rows, c as int);
        }
        let checkpoint_entry_id = match messages[c].1.generate_record_id() {
            Ok(id) => id,
            Err(e) => {
                return Err(HandlerError::CborEncode(e));
            },
        };
        if !str_eq(parent_id.as_str(), checkpoint_entry_id.as_str()) {
            return Err(
                HandlerError::InvalidDescriptor(
                    "Parent id does not match latest checkpoint entry".to_owned(),
                ),
            );
        }
        let checkpoint_time = match &messages[c].1.descriptor {
            Descriptor::RecordsDelete(d) => d.message_timestamp.unix_nanos,
            Descriptor::RecordsWrite(d) => d.message_timestamp.unix_nanos,
            _ => {
                return Err(
                    HandlerError::InvalidDescriptor(
                        "Latest checkpoint is not a RecordsDelete or RecordsWrite message".to_owned(),
                    ),
                );
            },
        };
        if ts <= checkpoint_time {
            return Err(
                HandlerError::InvalidDescriptor(
                    "Message timestamp is not greater than the latest checkpoint entry".to_owned(),
                ),
            );
        }
        let ghost ws = existing_writes(rows, message.record_id@);
        let found = write_indices(&messages, &message.record_id, Ghost(rows));
        proof {
            }
        if found.len() == 0 {
            return store_and_reply(message_store, data_store, tenant, message, now);
        }
        proof {
            assert forall|q: int| 0 <= q < ws.len() implies (#[trigger] ws[q]).message.descriptor is RecordsWrite by {
                rows.lemma_filter_pred(write_of(message.record_id@), q);
            }
        }
        if !supersedes_all(&messages, &found, ts, &entry_id, Ghost(rows), Ghost(ws)) {
            return Ok(status_reply());
        }
        match remove_writes(message_store, data_store, tenant, &messages, &found, Ghost(rows), Ghost(ws)) {
            Ok(()) => {},
            Err(e) => {
                return Err(e);
            },
        }
        store_and_reply(message_store, data_store, tenant, message, now)
    }
}

} // verus!
