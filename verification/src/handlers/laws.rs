//! What the handlers promise across messages.

use vstd::prelude::*;

use crate::ipld::utf8;
use crate::message::builder::{builds, data_cid_text, needs_id, MessageBuildError, MessageBuilder};
use crate::message::data::Data;
use crate::message::descriptor::{descriptor_encodable, Descriptor, FilterDateSort};
use crate::message::{message_cid, record_id_of, Message};
use crate::store::surrealdb::{
    data_cid_of, data_lookup, insert_sorted, last_index, lemma_sort_keeps, message_key, put_spec,
    query_result, ref_key, select, selects, sort_messages, stripped, MessageRow, StoreOutcome,
    StoreView,
};
use crate::timestamp::Timestamp;

use super::records::delete::delete_record_spec;
use super::records::read::{data_cid_chain, read_index, settling};
use super::records::record_history;
use super::records::write::{
    checkpoint, cids_of, deletion, delete_all, existing_writes, supersedes, write_of, write_spec,
};
use super::records::{entry_key, entry_lookup, first_index, lemma_first_index};
use crate::store::surrealdb::lemma_last_index;
use super::records::commit::commit_spec;
use super::HandlerOutcome;
use crate::store::laws::{law_delete_counts_references, law_put_counts_references, lemma_delete_keeps};
use crate::{processes, HandleMessageError, Processed, VerifyAuthError, DWN};

verus! {

/// Whether `m` is the initial entry of its record: its entry id is its record id.
pub open spec fn is_initial_entry(m: Message) -> bool {
    descriptor_encodable(m.descriptor) && record_id_of(m.descriptor) == m.record_id@
}

/// An initial entry of a record that already has messages changes nothing, and
/// the handler replies.
pub proof fn law_initial_entry_kept_once(
    s: StoreView,
    d: StoreView,
    tenant: Seq<char>,
    m: Message,
    now: Timestamp,
)
    requires
        is_initial_entry(m),
        record_history(s.messages, tenant, m.record_id@).len() > 0,
    ensures
        write_spec(s, d, tenant, m, now) == (HandlerOutcome::Replied, s, d),
{
}

/// An initial entry of a record with no message is kept, and found under its
/// tenant and CID without its data, when the store accepts it.
pub proof fn law_initial_entry_stored(
    s: StoreView,
    d: StoreView,
    tenant: Seq<char>,
    m: Message,
    now: Timestamp,
)
    requires
        is_initial_entry(m),
        record_history(s.messages, tenant, m.record_id@).len() == 0,
        put_spec(s, d, tenant, m, now).0 == StoreOutcome::Done,
    ensures
        ({
            let w = write_spec(s, d, tenant, m, now);
            &&& w.0 == HandlerOutcome::Replied
            &&& w.1 == put_spec(s, d, tenant, m, now).1
            &&& last_index(w.1.messages, message_key(tenant, message_cid(m))) matches Some(i)
                && w.1.messages[i].message == stripped(m)
        }),
{
    crate::store::laws::law_put_then_get(s, d, tenant, m, now);
}

/// Writing the same initial entry twice keeps it once: the second write, at any
/// instant, changes nothing.
pub proof fn law_duplicate_initial_entry(
    s: StoreView,
    d: StoreView,
    tenant: Seq<char>,
    m: Message,
    now: Timestamp,
    later: Timestamp,
)
    requires
        is_initial_entry(m),
        write_spec(s, d, tenant, m, now).0 == HandlerOutcome::Replied,
    ensures
        ({
            let w = write_spec(s, d, tenant, m, now);
            write_spec(w.1, w.2, tenant, m, later) == (HandlerOutcome::Replied, w.1, w.2)
        }),
{
    let w = write_spec(s, d, tenant, m, now);
    if record_history(s.messages, tenant, m.record_id@).len() == 0 {
        reveal(put_spec);
        let t = w.1.messages;
        let rid = Some(m.record_id@);
        assert(selects(t.last(), tenant, rid));
        assert(select(t, tenant, rid).len() > 0);
        lemma_sort_keeps(
            select(t, tenant, rid),
            crate::message::descriptor::FilterDateSort::CreatedDescending,
            |r: crate::store::surrealdb::MessageRow| true,
        );
    }
}

/// Whether `m` is a write whose descriptor names the CID of its base64 data.
pub open spec fn names_own_data(m: Message) -> bool {
    &&& m.data matches Some(Data::Base64(x))
    &&& m.descriptor matches Descriptor::RecordsWrite(w) && w.data_cid matches Some(c) && c@
        == data_cid_text(m.data->0->Base64_0@)
}

/// A record created by an initial entry that carries new data is answered, by a
/// query of its record id and by a read, with the entry without its data, and the
/// read finds the data under the CID the entry names: the bytes of its text.
pub proof fn law_read_after_write(
    s: StoreView,
    d: StoreView,
    tenant: Seq<char>,
    m: Message,
    now: Timestamp,
)
    requires
        is_initial_entry(m),
        names_own_data(m),
        record_history(s.messages, tenant, m.record_id@).len() == 0,
        last_index(s.refs, ref_key(data_cid_of(m)->0)) is None,
        put_spec(s, d, tenant, m, now).0 == StoreOutcome::Done,
    ensures
        ({
            let w = write_spec(s, d, tenant, m, now);
            let rows = record_history(w.1.messages, tenant, m.record_id@);
            let text = m.data->0->Base64_0@;
            &&& w.0 == HandlerOutcome::Replied
            &&& query_result(w.1.messages, tenant, Some(m.record_id@), None).len() == 1
            &&& query_result(w.1.messages, tenant, Some(m.record_id@), None)[0].message
                == stripped(m)
            &&& read_index(rows) == Some(0int)
            &&& rows[0].message == stripped(m)
            &&& data_cid_chain(rows, record_id_of(rows[0].message.descriptor), rows.len())
                == Some(data_cid_text(text))
            &&& data_lookup(w.2.data, data_cid_text(text)) == Some(utf8(text))
        }),
{
    let rid = Some(m.record_id@);
    let k = FilterDateSort::CreatedDescending;
    lemma_sort_keeps(select(s.messages, tenant, rid), k, |r: MessageRow| true);
    crate::store::laws::law_put_stores_new_data(s, d, tenant, m, now);
    reveal(put_spec);
    let w = write_spec(s, d, tenant, m, now);
    let t = w.1.messages;
    assert(t.drop_last() == s.messages);
    assert(selects(t.last(), tenant, rid));
    let sel = select(t, tenant, rid);
    assert(sel =~= seq![t.last()]);
    assert(sel.drop_last() =~= Seq::<MessageRow>::empty());
    assert(sort_messages(sel.drop_last(), k) =~= Seq::<MessageRow>::empty());
    assert(insert_sorted(Seq::<MessageRow>::empty(), t.last(), k) =~= seq![t.last()]);
    let rows = record_history(t, tenant, m.record_id@);
    assert(rows =~= seq![t.last()]);
    crate::store::surrealdb::lemma_first_index(rows, settling());
    assert(!settling()(rows[0]));
    let entry = record_id_of(rows[0].message.descriptor);
    assert(rows.drop_last() =~= Seq::<MessageRow>::empty());
    assert(super::records::entry_key(entry)(rows.last()));
}

/// A write built with base64 data and without a record id is the initial entry of
/// a new record, and names the CID of its own data.
pub proof fn law_built_write_is_initial_entry(b: MessageBuilder, t: Timestamp, m: Message)
    requires
        builds(b, t, Ok::<Message, MessageBuildError>(m)),
        b.descriptor is RecordsWrite,
        b.data matches Some(Data::Base64(_)),
        needs_id(b.record_id),
    ensures
        is_initial_entry(m),
        names_own_data(m),
{
}

/// Removing messages one after another, when every removal succeeds, keeps the
/// store well formed; every message left was kept before, and none is left under
/// the tenant and a CID removed.
pub proof fn lemma_delete_all_keeps(
    s: StoreView,
    d: StoreView,
    tenant: Seq<char>,
    cids: Seq<Seq<char>>,
)
    requires
        s.wf(),
    ensures
        ({
            let q = delete_all(s, d, tenant, cids);
            q.0 == StoreOutcome::Done ==> {
                &&& q.1.wf()
                &&& forall|k: int|
                    0 <= k < q.1.messages.len() ==> s.messages.contains(#[trigger] q.1.messages[k])
                &&& forall|k: int, j: int|
                    0 <= k < q.1.messages.len() && 0 <= j < cids.len() ==> !(
                    #[trigger] q.1.messages[k].tenant == tenant && q.1.messages[k].cid
                        == #[trigger] cids[j])
            }
        }),
    decreases cids.len(),
{
    if cids.len() > 0 {
        let front = cids.drop_last();
        lemma_delete_all_keeps(s, d, tenant, front);
        let before = delete_all(s, d, tenant, front);
        let q = delete_all(s, d, tenant, cids);
        if q.0 == StoreOutcome::Done {
            assert(before.0 == StoreOutcome::Done);
            crate::store::laws::lemma_delete_keeps(before.1, before.2, tenant, cids.last());
            assert forall|k: int| 0 <= k < q.1.messages.len() implies s.messages.contains(
                #[trigger] q.1.messages[k],
            ) by {
                let x = q.1.messages[k];
                assert(before.1.messages.contains(x));
                let k2 = choose|k2: int| 0 <= k2 < before.1.messages.len() && before.1.messages[k2] == x;
                assert(s.messages.contains(before.1.messages[k2]));
            }
            assert forall|k: int, j: int|
                0 <= k < q.1.messages.len() && 0 <= j < cids.len() implies !(
                #[trigger] q.1.messages[k].tenant == tenant && q.1.messages[k].cid
                    == #[trigger] cids[j]) by {
                let x = q.1.messages[k];
                if j < cids.len() - 1 {
                    assert(cids[j] == front[j]);
                    assert(before.1.messages.contains(x));
                    let k2 = choose|k2: int| 0 <= k2 < before.1.messages.len() && before.1.messages[k2] == x;
                    assert(!(before.1.messages[k2].tenant == tenant && before.1.messages[k2].cid == front[j]));
                }
            }
        }
    }
}

/// A write that supersedes every write of its record, and that the store accepts,
/// replaces them: afterwards the record's only write is the new one, and it is kept.
pub proof fn law_update_replaces_writes(
    s: StoreView,
    d: StoreView,
    tenant: Seq<char>,
    m: Message,
    now: Timestamp,
)
    requires
        s.wf(),
        descriptor_encodable(m.descriptor),
        m.descriptor is RecordsWrite,
        record_id_of(m.descriptor) != m.record_id@,
        existing_writes(record_history(s.messages, tenant, m.record_id@), m.record_id@).len() > 0,
        forall|q: int|
            0 <= q < existing_writes(record_history(s.messages, tenant, m.record_id@), m.record_id@).len()
                ==> supersedes(
                m.descriptor->RecordsWrite_0.message_timestamp.unix_nanos as int,
                record_id_of(m.descriptor),
                #[trigger] existing_writes(
                    record_history(s.messages, tenant, m.record_id@),
                    m.record_id@,
                )[q],
            ),
        write_spec(s, d, tenant, m, now).0 == HandlerOutcome::Replied,
    ensures
        ({
            let h = record_history(write_spec(s, d, tenant, m, now).1.messages, tenant, m.record_id@);
            &&& forall|k: int|
                0 <= k < h.len() && (#[trigger] h[k]).message.descriptor is RecordsWrite
                    ==> h[k].message == stripped(m)
            &&& exists|k: int| 0 <= k < h.len() && (#[trigger] h[k]).message == stripped(m)
        }),
{
    let rid = m.record_id@;
    let rows = record_history(s.messages, tenant, rid);
    let ws = existing_writes(rows, rid);
    let cids = cids_of(ws);
    let del = delete_all(s, d, tenant, cids);
    let w = write_spec(s, d, tenant, m, now);
    assert(del.0 == StoreOutcome::Done);
    assert(put_spec(del.1, del.2, tenant, m, now).0 == StoreOutcome::Done);
    lemma_delete_all_keeps(s, d, tenant, cids);
    reveal(put_spec);
    let fm = w.1.messages;
    assert(fm.drop_last() == del.1.messages);
    let row = fm.last();
    assert(row.message == stripped(m));
    let p = |x: MessageRow|
        (x.message.descriptor is RecordsWrite && selects(x, tenant, Some(rid))) ==> x.message
            == stripped(m);
    crate::store::laws::law_query_answers_selected(
        s.messages,
        tenant,
        Some(rid),
        Some(FilterDateSort::CreatedDescending),
    );
    assert forall|k: int| 0 <= k < fm.len() implies p(#[trigger] fm[k]) by {
        if k < fm.len() - 1 {
            let x = fm[k];
            assert(x == del.1.messages[k]);
            if x.message.descriptor is RecordsWrite && selects(x, tenant, Some(rid)) {
                assert(s.messages.contains(x));
                let i = choose|i: int| 0 <= i < s.messages.len() && s.messages[i] == x;
                assert(selects(s.messages[i], tenant, Some(rid)));
                assert(rows.contains(s.messages[i]));
                let r = choose|r: int| 0 <= r < rows.len() && rows[r] == x;
                assert(write_of(rid)(rows[r]));
                rows.lemma_filter_contains(write_of(rid), r);
                assert(ws.contains(x));
                let j = choose|j: int| 0 <= j < ws.len() && ws[j] == x;
                assert(cids[j] == x.cid);
                assert(!(del.1.messages[k].tenant == tenant && del.1.messages[k].cid == cids[j]));
            }
        }
    }
    crate::store::surrealdb::lemma_query_result_keeps(
        fm,
        tenant,
        Some(rid),
        Some(FilterDateSort::CreatedDescending),
        p,
    );
    let h = record_history(fm, tenant, rid);
    assert(selects(row, tenant, Some(rid)));
    crate::store::laws::law_query_answers_selected(
        fm,
        tenant,
        Some(rid),
        Some(FilterDateSort::CreatedDescending),
    );
    assert(h.contains(fm[fm.len() - 1]));
}

/// A deletion that the store carries out leaves the tenant no message of the
/// record: a query of the record answers with nothing, and a read finds no record.
pub proof fn law_delete_removes_record(s: StoreView, d: StoreView, tenant: Seq<char>, m: Message)
    requires
        s.wf(),
        delete_record_spec(s, d, tenant, m).0 == HandlerOutcome::Replied,
    ensures
        record_history(delete_record_spec(s, d, tenant, m).1.messages, tenant, m.record_id@).len()
            == 0,
        query_result(delete_record_spec(s, d, tenant, m).1.messages, tenant, Some(m.record_id@), None).len()
            == 0,
        read_index(record_history(delete_record_spec(s, d, tenant, m).1.messages, tenant, m.record_id@))
            is None,
{
    let rid = Some(m.record_id@);
    let rows = record_history(s.messages, tenant, m.record_id@);
    let cids = cids_of(rows);
    let del = delete_all(s, d, tenant, cids);
    assert(del.0 == StoreOutcome::Done);
    lemma_delete_all_keeps(s, d, tenant, cids);
    let fm = del.1.messages;
    crate::store::laws::law_query_answers_selected(
        s.messages,
        tenant,
        rid,
        Some(FilterDateSort::CreatedDescending),
    );
    let p = |x: MessageRow| !selects(x, tenant, rid);
    assert forall|k: int| 0 <= k < fm.len() implies p(#[trigger] fm[k]) by {
        let x = fm[k];
        if selects(x, tenant, rid) {
            assert(s.messages.contains(x));
            let i = choose|i: int| 0 <= i < s.messages.len() && s.messages[i] == x;
            assert(rows.contains(s.messages[i]));
            let r = choose|r: int| 0 <= r < rows.len() && rows[r] == x;
            assert(cids[r] == x.cid);
            assert(!(fm[k].tenant == tenant && fm[k].cid == cids[r]));
        }
    }
    crate::store::surrealdb::lemma_select_keeps(fm, tenant, rid, p);
    let sel = select(fm, tenant, rid);
    if sel.len() > 0 {
        assert(p(sel[0]) && selects(sel[0], tenant, rid));
    }
    lemma_sort_keeps(sel, FilterDateSort::CreatedDescending, |r: MessageRow| true);
    let h = record_history(fm, tenant, m.record_id@);
    crate::store::surrealdb::lemma_first_index(h, settling());
}

/// Removing messages one after another keeps the store well formed and each count
/// equal to the number of stored messages that carry its data.
pub proof fn lemma_delete_all_counts(
    s: StoreView,
    d: StoreView,
    tenant: Seq<char>,
    cids: Seq<Seq<char>>,
)
    requires
        s.wf(),
        s.refs_counted(),
    ensures
        delete_all(s, d, tenant, cids).1.wf(),
        delete_all(s, d, tenant, cids).1.refs_counted(),
    decreases cids.len(),
{
    if cids.len() > 0 {
        let front = cids.drop_last();
        lemma_delete_all_counts(s, d, tenant, front);
        let before = delete_all(s, d, tenant, front);
        if before.0 == StoreOutcome::Done {
            lemma_delete_keeps(before.1, before.2, tenant, cids.last());
            law_delete_counts_references(before.1, before.2, tenant, cids.last());
        }
    }
}

/// A write or a commit that the handler carries out, and any deletion, keep each
/// count equal to the number of stored messages that carry its data.
pub proof fn law_handlers_keep_counts(
    s: StoreView,
    d: StoreView,
    tenant: Seq<char>,
    m: Message,
    now: Timestamp,
)
    requires
        s.wf(),
        s.refs_counted(),
    ensures
        write_spec(s, d, tenant, m, now).0 == HandlerOutcome::Replied ==> write_spec(
            s,
            d,
            tenant,
            m,
            now,
        ).1.refs_counted(),
        commit_spec(s, d, tenant, m, now).0 == HandlerOutcome::Replied ==> commit_spec(
            s,
            d,
            tenant,
            m,
            now,
        ).1.refs_counted(),
        delete_record_spec(s, d, tenant, m).1.refs_counted(),
{
    if put_spec(s, d, tenant, m, now).0 == StoreOutcome::Done {
        law_put_counts_references(s, d, tenant, m, now);
    }
    let rows = record_history(s.messages, tenant, m.record_id@);
    let writes = existing_writes(rows, m.record_id@);
    let del = delete_all(s, d, tenant, cids_of(writes));
    lemma_delete_all_counts(s, d, tenant, cids_of(writes));
    if put_spec(del.1, del.2, tenant, m, now).0 == StoreOutcome::Done {
        law_put_counts_references(del.1, del.2, tenant, m, now);
    }
    lemma_delete_all_counts(s, d, tenant, cids_of(rows));
}

/// Every message that a node answers without error keeps each count of its message
/// store equal to the number of stored messages that carry its data.
pub proof fn law_node_keeps_counts(
    before: DWN,
    after: DWN,
    tenant: Seq<char>,
    message: Message,
    auth: Result<(), VerifyAuthError>,
    now: Timestamp,
    r: Result<Processed, HandleMessageError>,
)
    requires
        before.message_store@.wf(),
        before.message_store@.refs_counted(),
        processes(before, after, tenant, message, auth, now, r),
        r is Ok,
    ensures
        after.message_store@.refs_counted(),
{
    law_handlers_keep_counts(before.message_store@, before.data_store@, tenant, message, now);
}

/// Whether `rows[j]` is the latest checkpoint of a record's history (newest first):
/// the newest deletion, or the oldest message when the history has no deletion.
pub open spec fn is_latest_checkpoint(rows: Seq<MessageRow>, j: int) -> bool {
    &&& 0 <= j < rows.len()
    &&& {
        ||| rows[j].message.descriptor is RecordsDelete && forall|k: int|
            0 <= k < j ==> !((#[trigger] rows[k]).message.descriptor is RecordsDelete)
        ||| j == rows.len() - 1 && forall|k: int|
            0 <= k < rows.len() ==> !((#[trigger] rows[k]).message.descriptor is RecordsDelete)
    }
}

/// Whether the tenant keeps `m`, without its data, in the message table `t`.
pub open spec fn keeps_message(t: Seq<MessageRow>, tenant: Seq<char>, m: Message) -> bool {
    last_index(t, message_key(tenant, message_cid(m))) matches Some(i) && t[i].message == stripped(m)
}

/// Whether a deletion or a write is dated strictly before the instant `ts`.
pub open spec fn dated_before(d: Descriptor, ts: int) -> bool {
    match d {
        Descriptor::RecordsDelete(x) => (x.message_timestamp.unix_nanos as int) < ts,
        Descriptor::RecordsWrite(x) => (x.message_timestamp.unix_nanos as int) < ts,
        _ => false,
    }
}

proof fn lemma_checkpoint_is_latest(rows: Seq<MessageRow>)
    requires
        rows.len() > 0,
    ensures
        is_latest_checkpoint(
            rows,
            match first_index(rows, deletion()) {
                Some(i) => i,
                None => rows.len() - 1,
            },
        ),
        checkpoint(rows) == rows[match first_index(rows, deletion()) {
            Some(i) => i,
            None => rows.len() - 1,
        }],
{
    lemma_first_index(rows, deletion());
    let j = match first_index(rows, deletion()) {
        Some(i) => i,
        None => rows.len() - 1,
    };
    assert forall|k: int| 0 <= k < j implies !((#[trigger] rows[k]).message.descriptor is RecordsDelete) by {
        assert(!deletion()(rows[k]));
    }
    if first_index(rows, deletion()) is None {
        assert forall|k: int| 0 <= k < rows.len() implies !((#[trigger] rows[k]).message.descriptor is RecordsDelete) by {
            assert(!deletion()(rows[k]));
        }
    }
}

proof fn lemma_latest_checkpoint_unique(rows: Seq<MessageRow>, j: int, k: int)
    requires
        is_latest_checkpoint(rows, j),
        is_latest_checkpoint(rows, k),
    ensures
        j == k,
{
    if j != k {
        if rows[j].message.descriptor is RecordsDelete && rows[k].message.descriptor is RecordsDelete {
            if j < k {
                assert(!(rows[j].message.descriptor is RecordsDelete));
            } else {
                assert(!(rows[k].message.descriptor is RecordsDelete));
            }
        } else if rows[j].message.descriptor is RecordsDelete {
            assert(!(rows[j].message.descriptor is RecordsDelete));
        } else {
            assert(!(rows[k].message.descriptor is RecordsDelete));
        }
    }
}

/// An update (a write that is not its record's initial entry) that the handler keeps
/// names, as parent, the entry id of the record's latest checkpoint, and is dated
/// after that checkpoint.
pub proof fn law_update_follows_latest_checkpoint(
    s: StoreView,
    d: StoreView,
    tenant: Seq<char>,
    m: Message,
    now: Timestamp,
)
    requires
        record_id_of(m.descriptor) != m.record_id@,
        !keeps_message(s.messages, tenant, m),
        write_spec(s, d, tenant, m, now).0 == HandlerOutcome::Replied,
        keeps_message(write_spec(s, d, tenant, m, now).1.messages, tenant, m),
    ensures
        m.descriptor is RecordsWrite,
        ({
            let w = m.descriptor->RecordsWrite_0;
            let rows = record_history(s.messages, tenant, m.record_id@);
            exists|j: int|
                #[trigger] is_latest_checkpoint(rows, j) && (w.parent_id matches Some(p) && p@
                    == record_id_of(rows[j].message.descriptor)) && dated_before(
                    rows[j].message.descriptor,
                    w.message_timestamp.unix_nanos as int,
                )
        }),
{
    let rows = record_history(s.messages, tenant, m.record_id@);
    if rows.len() > 0 {
        lemma_checkpoint_is_latest(rows);
    }
}

/// An update whose parent is the entry id of its record's latest checkpoint, that is
/// dated after that checkpoint and after every write of the record, is not refused:
/// the handler keeps it, unless the store fails.
pub proof fn law_update_after_latest_checkpoint_is_kept(
    s: StoreView,
    d: StoreView,
    tenant: Seq<char>,
    m: Message,
    now: Timestamp,
    j: int,
)
    requires
        descriptor_encodable(m.descriptor),
        m.descriptor is RecordsWrite,
        record_id_of(m.descriptor) != m.record_id@,
        is_latest_checkpoint(record_history(s.messages, tenant, m.record_id@), j),
        m.descriptor->RecordsWrite_0.parent_id matches Some(p) && p@ == record_id_of(
            record_history(s.messages, tenant, m.record_id@)[j].message.descriptor,
        ),
        dated_before(
            record_history(s.messages, tenant, m.record_id@)[j].message.descriptor,
            m.descriptor->RecordsWrite_0.message_timestamp.unix_nanos as int,
        ),
        forall|k: int|
            0 <= k < record_history(s.messages, tenant, m.record_id@).len() && (#[trigger] record_history(
                s.messages,
                tenant,
                m.record_id@,
            )[k]).message.descriptor is RecordsWrite && record_history(
                s.messages,
                tenant,
                m.record_id@,
            )[k].message.record_id@ == m.record_id@ ==> dated_before(
                record_history(s.messages, tenant, m.record_id@)[k].message.descriptor,
                m.descriptor->RecordsWrite_0.message_timestamp.unix_nanos as int,
            ),
    ensures
        write_spec(s, d, tenant, m, now).0 != HandlerOutcome::Invalid,
        write_spec(s, d, tenant, m, now).0 == HandlerOutcome::Replied ==> keeps_message(
            write_spec(s, d, tenant, m, now).1.messages,
            tenant,
            m,
        ),
{
    let rid = m.record_id@;
    let rows = record_history(s.messages, tenant, rid);
    let ts = m.descriptor->RecordsWrite_0.message_timestamp.unix_nanos as int;
    let entry_id = record_id_of(m.descriptor);
    lemma_checkpoint_is_latest(rows);
    let c = match first_index(rows, deletion()) {
        Some(i) => i,
        None => rows.len() - 1,
    };
    lemma_latest_checkpoint_unique(rows, j, c);
    let ws = existing_writes(rows, rid);
    assert forall|q: int| 0 <= q < ws.len() implies supersedes(ts, entry_id, #[trigger] ws[q]) by {
        rows.lemma_filter_pred(write_of(rid), q);
        assert(ws.contains(ws[q]));
        rows.lemma_filter_contains_rev(write_of(rid), ws[q]);
        let k = choose|k: int| 0 <= k < rows.len() && rows[k] == ws[q];
        assert(dated_before(rows[k].message.descriptor, ts));
    }
    let del = delete_all(s, d, tenant, cids_of(ws));
    reveal(put_spec);
    if ws.len() == 0 {
        if put_spec(s, d, tenant, m, now).0 == StoreOutcome::Done {
            crate::store::laws::law_put_then_get(s, d, tenant, m, now);
        }
    } else if del.0 == StoreOutcome::Done {
        if put_spec(del.1, del.2, tenant, m, now).0 == StoreOutcome::Done {
            crate::store::laws::law_put_then_get(del.1, del.2, tenant, m, now);
        }
    }
}

/// A commit that the handler keeps is dated no earlier than its parent: the entry of
/// the record's history whose entry id is the commit's parent id (of several, the
/// one listed last), which is a commit or a write.
pub proof fn law_commit_not_older_than_parent(
    s: StoreView,
    d: StoreView,
    tenant: Seq<char>,
    m: Message,
    now: Timestamp,
)
    requires
        commit_spec(s, d, tenant, m, now).0 == HandlerOutcome::Replied,
    ensures
        m.descriptor is RecordsCommit,
        ({
            let c = m.descriptor->RecordsCommit_0;
            let rows = record_history(s.messages, tenant, m.record_id@);
            let ct = c.message_timestamp.unix_nanos as int;
            exists|p: int|
                0 <= p < rows.len() && record_id_of(#[trigger] rows[p].message.descriptor)
                    == c.parent_id@ && (forall|q: int|
                    p < q < rows.len() ==> record_id_of((#[trigger] rows[q]).message.descriptor)
                        != c.parent_id@) && match rows[p].message.descriptor {
                    Descriptor::RecordsCommit(x) => (x.message_timestamp.unix_nanos as int) <= ct,
                    Descriptor::RecordsWrite(x) => (x.message_timestamp.unix_nanos as int) <= ct,
                    _ => false,
                }
        }),
{
    let c = m.descriptor->RecordsCommit_0;
    let rows = record_history(s.messages, tenant, m.record_id@);
    lemma_last_index(rows, entry_key(c.parent_id@));
    if let Some(p) = entry_lookup(rows, c.parent_id@) {
        assert(entry_key(c.parent_id@)(rows[p]));
        assert forall|q: int| p < q < rows.len() implies record_id_of(
            (#[trigger] rows[q]).message.descriptor,
        ) != c.parent_id@ by {
            assert(!entry_key(c.parent_id@)(rows[q]));
        }
    }
}

} // verus!
