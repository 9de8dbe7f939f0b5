//! What the store's operations promise of one another.

use vstd::prelude::*;

use crate::ipld::utf8;
use crate::message::descriptor::{descriptor_encodable, Descriptor, FilterDateSort};
use crate::message::{message_cid, Message};
use crate::timestamp::Timestamp;

use super::surrealdb::{
    data_cid_of, dated, data_delete_spec, data_key, data_lookup, data_put_spec, delete_spec,
    first_index, goes_before, insert_sorted, last_index, lemma_first_index, lemma_insert_sorted,
    lemma_last_index, lemma_query_result_keeps, message_cid_key, message_key, put_spec, query_result, ref_key, remove_at,
    select, selects, sort_messages, stripped, DataRow, MessageRow, StoreOutcome, StoreView,
    carriers, ref_count, RefRow, lemma_remove_at_unique, message_row,
};

verus! {

/// A message that a put keeps is found under its tenant and CID, without its data.
pub proof fn law_put_then_get(s: StoreView, d: StoreView, tenant: Seq<char>, m: Message, now: Timestamp)
    requires
        put_spec(s, d, tenant, m, now).0 == StoreOutcome::Done,
    ensures
        ({
            let t = put_spec(s, d, tenant, m, now).1.messages;
            last_index(t, message_key(tenant, message_cid(m))) matches Some(i) && t[i].message
                == stripped(m)
        }),
{
    reveal(put_spec);
}

/// Removing a message that a put kept, under the same tenant and CID, succeeds and
/// leaves no message of the tenant under that CID.
pub proof fn law_delete_after_put(
    s: StoreView,
    d: StoreView,
    tenant: Seq<char>,
    m: Message,
    now: Timestamp,
)
    requires
        s.wf(),
        put_spec(s, d, tenant, m, now).0 == StoreOutcome::Done,
    ensures
        ({
            let p = put_spec(s, d, tenant, m, now);
            let q = delete_spec(p.1, p.2, tenant, message_cid(m));
            q.0 == StoreOutcome::Done && last_index(
                q.1.messages,
                message_key(tenant, message_cid(m)),
            ) is None
        }),
{
    reveal(put_spec);
    reveal(delete_spec);
    let p = put_spec(s, d, tenant, m, now);
    let key = message_key(tenant, message_cid(m));
    let t = p.1.messages;
    assert(t.drop_last() =~= s.messages);
    lemma_last_index(s.messages, key);
    lemma_last_index(t, message_cid_key(message_cid(m)));
    assert(remove_at(t, t.len() - 1) =~= s.messages);
}

/// A tenant that keeps no message under a CID that another tenant keeps removes
/// nothing, and succeeds.
pub proof fn law_delete_other_tenant(s: StoreView, d: StoreView, tenant: Seq<char>, cid: Seq<char>)
    requires
        last_index(s.messages, message_cid_key(cid)) is Some,
        last_index(s.messages, message_key(tenant, cid)) is None,
    ensures
        delete_spec(s, d, tenant, cid) == (StoreOutcome::Done, s, d),
{
    reveal(delete_spec);
}

/// Removing a CID that no tenant keeps fails as not found and changes nothing.
pub proof fn law_delete_missing(s: StoreView, d: StoreView, tenant: Seq<char>, cid: Seq<char>)
    requires
        last_index(s.messages, message_cid_key(cid)) is None,
    ensures
        delete_spec(s, d, tenant, cid) == (StoreOutcome::Missing, s, d),
{
    reveal(delete_spec);
}

/// Data that a put stores is read back as it was written.
pub proof fn law_data_put_then_get(t: Seq<DataRow>, cid: Seq<char>, bytes: Seq<u8>)
    requires
        data_put_spec(t, cid, bytes) is Some,
    ensures
        data_lookup(data_put_spec(t, cid, bytes)->0, cid) == Some(bytes),
{
}

/// No data is read back under a CID after its removal.
pub proof fn law_data_delete_then_get(t: Seq<DataRow>, cid: Seq<char>)
    requires
        forall|i: int, j: int| 0 <= i < j < t.len() ==> t[i].cid != t[j].cid,
    ensures
        data_lookup(data_delete_spec(t, cid), cid) is None,
{
    lemma_last_index(t, data_key(cid));
    let r = data_delete_spec(t, cid);
    match last_index(t, data_key(cid)) {
        Some(i) => {
            assert forall|j: int| 0 <= j < r.len() implies !data_key(cid)(r[j]) by {
                if j < i {
                    assert(r[j] == t[j]);
                } else {
                    assert(r[j] == t[j + 1]);
                }
            }
        },
        None => {},
    }
    lemma_last_index(r, data_key(cid));
}

/// A put of a message that carries data that no stored message carries stores the
/// data, read back as the bytes of its text, counted once.
pub proof fn law_put_stores_new_data(
    s: StoreView,
    d: StoreView,
    tenant: Seq<char>,
    m: Message,
    now: Timestamp,
)
    requires
        put_spec(s, d, tenant, m, now).0 == StoreOutcome::Done,
        data_cid_of(m) is Some,
        last_index(s.refs, ref_key(data_cid_of(m)->0)) is None,
    ensures
        ({
            let p = put_spec(s, d, tenant, m, now);
            let c = data_cid_of(m)->0;
            &&& data_lookup(p.2.data, c) == Some(utf8(m.data->0->Base64_0@))
            &&& last_index(p.1.refs, ref_key(c)) matches Some(i) && p.1.refs[i].count == 1
        }),
{
    reveal(put_spec);
}

/// A put of a message that carries data that stored messages carry counts one
/// more reference to it and leaves the data store as it was.
pub proof fn law_put_counts_shared_data(
    s: StoreView,
    d: StoreView,
    tenant: Seq<char>,
    m: Message,
    now: Timestamp,
    i: int,
)
    requires
        put_spec(s, d, tenant, m, now).0 == StoreOutcome::Done,
        data_cid_of(m) is Some,
        last_index(s.refs, ref_key(data_cid_of(m)->0)) == Some(i),
    ensures
        ({
            let p = put_spec(s, d, tenant, m, now);
            &&& p.1.refs[i].count == s.refs[i].count + 1
            &&& p.2 == d
        }),
{
    reveal(put_spec);
    lemma_last_index(s.refs, ref_key(data_cid_of(m)->0));
}

/// Removing a message keeps its data while other messages refer to it, counting
/// one reference less, and removes the data with its last reference.
pub proof fn law_delete_releases_data(
    s: StoreView,
    d: StoreView,
    tenant: Seq<char>,
    cid: Seq<char>,
    i: int,
    j: int,
)
    requires
        s.wf(),
        last_index(s.messages, message_key(tenant, cid)) == Some(i),
        s.messages[i].data_cid is Some,
        last_index(s.refs, ref_key(s.messages[i].data_cid->0)) == Some(j),
    ensures
        ({
            let q = delete_spec(s, d, tenant, cid);
            let c = s.messages[i].data_cid->0;
            &&& q.0 == StoreOutcome::Done
            &&& s.refs[j].count > 1 ==> q.2 == d && q.1.refs[j].count == s.refs[j].count - 1
            &&& s.refs[j].count <= 1 ==> q.2.data == data_delete_spec(d.data, c) && last_index(
                q.1.refs,
                ref_key(c),
            ) is None
        }),
{
    reveal(delete_spec);
    lemma_last_index(s.messages, message_key(tenant, cid));
    lemma_last_index(s.messages, message_cid_key(cid));
    assert(message_cid_key(cid)(s.messages[i]));
    let c = s.messages[i].data_cid->0;
    lemma_last_index(s.refs, ref_key(c));
    if s.refs[j].count <= 1 {
        let r = remove_at(s.refs, j);
        assert forall|k: int| 0 <= k < r.len() implies !ref_key(c)(r[k]) by {
            if k < j {
                assert(r[k] == s.refs[k]);
            } else {
                assert(r[k] == s.refs[k + 1]);
            }
        }
        lemma_last_index(r, ref_key(c));
    }
}

/// Whether `s` is in order `k`: no element strictly precedes one before it.
pub open spec fn sorted_by(s: Seq<MessageRow>, k: FilterDateSort) -> bool {
    forall|i: int, j: int| 0 <= i < j < s.len() ==> !goes_before(#[trigger] s[j], #[trigger] s[i], k)
}

/// The predicate of the elements that `x` strictly precedes.
pub open spec fn followed_by(x: MessageRow, k: FilterDateSort) -> spec_fn(MessageRow) -> bool {
    |y: MessageRow| goes_before(x, y, k)
}

/// Inserting into a sorted sequence keeps it sorted, and adds one element.
pub proof fn lemma_insert_sorted_sorted(s: Seq<MessageRow>, x: MessageRow, k: FilterDateSort)
    requires
        sorted_by(s, k),
    ensures
        sorted_by(insert_sorted(s, x, k), k),
        insert_sorted(s, x, k).to_multiset() == s.to_multiset().insert(x),
{
    let f = followed_by(x, k);
    lemma_first_index(s, f);
    let p = match first_index(s, f) {
        Some(i) => i,
        None => s.len() as int,
    };
    assert forall|j: int| 0 <= j < p implies !goes_before(x, #[trigger] s[j], k) by {
        assert(!f(s[j]));
    }
    lemma_insert_sorted(s, x, k, p);
    let r = s.insert(p, x);
    vstd::seq_lib::to_multiset_insert(s, p, x);
    assert forall|i: int, j: int| 0 <= i < j < r.len() implies !goes_before(
        #[trigger] r[j],
        #[trigger] r[i],
        k,
    ) by {
        if j < p {
            assert(r[i] == s[i] && r[j] == s[j]);
        } else if j == p {
            assert(r[i] == s[i] && r[j] == x);
        } else if i > p {
            assert(r[i] == s[i - 1] && r[j] == s[j - 1]);
        } else if i == p {
            assert(r[i] == x && r[j] == s[j - 1]);
            assert(goes_before(x, s[p], k));
            if p < j - 1 {
                assert(!goes_before(s[j - 1], s[p], k));
            }
        } else {
            assert(r[i] == s[i] && r[j] == s[j - 1]);
        }
    }
}

/// Sorting gives a sorted permutation.
pub proof fn lemma_sort_sorted(s: Seq<MessageRow>, k: FilterDateSort)
    ensures
        sorted_by(sort_messages(s, k), k),
        sort_messages(s, k).to_multiset() == s.to_multiset(),
    decreases s.len(),
{
    if s.len() == 0 {
        assert(sort_messages(s, k) == s);
    } else {
        lemma_sort_sorted(s.drop_last(), k);
        lemma_insert_sorted_sorted(sort_messages(s.drop_last(), k), s.last(), k);
        assert(s.drop_last().push(s.last()) =~= s);
        vstd::seq_lib::to_multiset_build(s.drop_last(), s.last());
    }
}

/// A query that asks for an order answers in that order.
pub proof fn law_query_sorted(
    t: Seq<MessageRow>,
    tenant: Seq<char>,
    record_id: Option<Seq<char>>,
    k: FilterDateSort,
)
    ensures
        sorted_by(query_result(t, tenant, record_id, Some(k)), k),
{
    lemma_sort_sorted(select(t, tenant, record_id), k);
}

/// The instant at which a commit, a deletion or a write is dated: its message timestamp.
pub open spec fn entry_instant(m: Message) -> Option<int> {
    match m.descriptor {
        Descriptor::RecordsCommit(x) => Some(x.message_timestamp.unix_nanos as int),
        Descriptor::RecordsDelete(x) => Some(x.message_timestamp.unix_nanos as int),
        Descriptor::RecordsWrite(x) => Some(x.message_timestamp.unix_nanos as int),
        _ => None,
    }
}

/// A query that sorts by creation lists the commits, deletions and writes it answers
/// with by their message timestamps: oldest first when ascending, newest first when
/// descending.
pub proof fn law_query_by_message_timestamp(
    s: StoreView,
    tenant: Seq<char>,
    record_id: Option<Seq<char>>,
    k: FilterDateSort,
)
    requires
        s.wf(),
        k is CreatedAscending || k is CreatedDescending,
    ensures
        ({
            let q = query_result(s.messages, tenant, record_id, Some(k));
            forall|i: int, j: int|
                0 <= i < j < q.len() && entry_instant(#[trigger] q[i].message) is Some
                    && entry_instant(#[trigger] q[j].message) is Some ==> if k is CreatedAscending {
                    entry_instant(q[i].message)->0 <= entry_instant(q[j].message)->0
                } else {
                    entry_instant(q[i].message)->0 >= entry_instant(q[j].message)->0
                }
        }),
{
    let t = s.messages;
    let q = query_result(t, tenant, record_id, Some(k));
    law_query_sorted(t, tenant, record_id, k);
    let p = |r: MessageRow| dated(r);
    assert forall|i: int| 0 <= i < t.len() implies p(#[trigger] t[i]) by {}
    lemma_query_result_keeps(t, tenant, record_id, Some(k), p);
    assert forall|i: int, j: int|
        0 <= i < j < q.len() && entry_instant(#[trigger] q[i].message) is Some && entry_instant(
            #[trigger] q[j].message,
        ) is Some implies if k is CreatedAscending {
        entry_instant(q[i].message)->0 <= entry_instant(q[j].message)->0
    } else {
        entry_instant(q[i].message)->0 >= entry_instant(q[j].message)->0
    } by {
        assert(p(q[i]) && p(q[j]));
        assert(!goes_before(q[j], q[i], k));
    }
}

/// A query answers with each stored message that it selects, once, and with no
/// other: its answer is a permutation of the selected messages in store order.
pub proof fn law_query_answers_selected(
    t: Seq<MessageRow>,
    tenant: Seq<char>,
    record_id: Option<Seq<char>>,
    sort: Option<FilterDateSort>,
)
    ensures
        query_result(t, tenant, record_id, sort).to_multiset() == select(t, tenant, record_id).to_multiset(),
        forall|i: int|
            0 <= i < t.len() && selects(t[i], tenant, record_id) ==> #[trigger] query_result(
                t,
                tenant,
                record_id,
                sort,
            ).contains(t[i]),
{
    if let Some(k) = sort {
        lemma_sort_sorted(select(t, tenant, record_id), k);
    }
    let q = query_result(t, tenant, record_id, sort);
    assert forall|i: int| 0 <= i < t.len() && selects(t[i], tenant, record_id) implies #[trigger] q.contains(t[i]) by {
        lemma_select_contains(t, tenant, record_id, i);
        vstd::seq_lib::to_multiset_contains(select(t, tenant, record_id), t[i]);
        vstd::seq_lib::to_multiset_contains(q, t[i]);
    }
}

/// Each stored message that a query selects is among those that `select` picks.
pub proof fn lemma_select_contains(
    t: Seq<MessageRow>,
    tenant: Seq<char>,
    record_id: Option<Seq<char>>,
    i: int,
)
    requires
        0 <= i < t.len(),
        selects(t[i], tenant, record_id),
    ensures
        select(t, tenant, record_id).contains(t[i]),
    decreases t.len(),
{
    let u = select(t, tenant, record_id);
    if i == t.len() - 1 {
        assert(u[u.len() - 1] == t[i]);
    } else {
        assert(t.drop_last()[i] == t[i]);
        lemma_select_contains(t.drop_last(), tenant, record_id, i);
        let v = select(t.drop_last(), tenant, record_id);
        let w = choose|w: int| 0 <= w < v.len() && v[w] == t[i];
        if selects(t.last(), tenant, record_id) {
            assert(u[w] == v[w]);
        }
    }
}

/// Removing a message keeps the store well formed; every message left was kept
/// before, and none is left under the tenant and CID removed.
pub proof fn lemma_delete_keeps(s: StoreView, d: StoreView, tenant: Seq<char>, cid: Seq<char>)
    requires
        s.wf(),
    ensures
        ({
            let q = delete_spec(s, d, tenant, cid);
            &&& q.1.wf()
            &&& forall|k: int|
                0 <= k < q.1.messages.len() ==> s.messages.contains(#[trigger] q.1.messages[k])
                    && !(q.1.messages[k].tenant == tenant && q.1.messages[k].cid == cid)
        }),
{
    reveal(delete_spec);
    let q = delete_spec(s, d, tenant, cid);
    lemma_last_index(s.messages, message_cid_key(cid));
    lemma_last_index(s.messages, message_key(tenant, cid));
    match last_index(s.messages, message_key(tenant, cid)) {
        None => {
            assert forall|k: int| 0 <= k < q.1.messages.len() implies s.messages.contains(
                #[trigger] q.1.messages[k],
            ) && !(q.1.messages[k].tenant == tenant && q.1.messages[k].cid == cid) by {
                assert(!message_key(tenant, cid)(s.messages[k]));
            }
        },
        Some(i) => {
            let t = remove_at(s.messages, i);
            assert(q.1.messages == t);
            assert forall|k: int| 0 <= k < t.len() implies s.messages.contains(#[trigger] t[k])
                && !(t[k].tenant == tenant && t[k].cid == cid) by {
                let k2 = if k < i { k } else { k + 1 };
                assert(t[k] == s.messages[k2]);
                assert(k2 != i);
                if t[k].tenant == tenant && t[k].cid == cid {
                    if k2 < i {
                        assert(!(s.messages[k2].tenant == s.messages[i].tenant
                            && s.messages[k2].cid == s.messages[i].cid));
                    } else {
                        assert(!(s.messages[i].tenant == s.messages[k2].tenant
                            && s.messages[i].cid == s.messages[k2].cid));
                    }
                }
            }
            assert forall|a: int, b: int| 0 <= a < b < t.len() implies !(t[a].tenant == t[b].tenant
                && t[a].cid == t[b].cid) by {
                let a2 = if a < i { a } else { a + 1 };
                let b2 = if b < i { b } else { b + 1 };
                assert(t[a] == s.messages[a2] && t[b] == s.messages[b2]);
            }
            assert forall|k: int| 0 <= k < t.len() implies descriptor_encodable(
                #[trigger] t[k].message.descriptor,
            ) && t[k].record_id == t[k].message.record_id@ && t[k].message.data is None
                && dated(t[k]) by {
                let k2 = if k < i { k } else { k + 1 };
                assert(t[k] == s.messages[k2]);
            }
            match s.messages[i].data_cid {
                None => {},
                Some(c) => {
                    lemma_last_index(s.refs, ref_key(c));
                    match last_index(s.refs, ref_key(c)) {
                        None => {},
                        Some(j) => {
                            if s.refs[j].count > 1 {
                                assert forall|a: int, b: int|
                                    0 <= a < b < q.1.refs.len() implies q.1.refs[a].cid
                                    != q.1.refs[b].cid by {
                                    assert(s.refs[a].cid != s.refs[b].cid);
                                }
                            } else {
                                let r = remove_at(s.refs, j);
                                assert forall|a: int, b: int|
                                    0 <= a < b < r.len() implies r[a].cid != r[b].cid by {
                                    let a2 = if a < j { a } else { a + 1 };
                                    let b2 = if b < j { b } else { b + 1 };
                                    assert(r[a] == s.refs[a2] && r[b] == s.refs[b2]);
                                }
                                assert forall|a: int| 0 <= a < r.len() implies #[trigger] r[a].count
                                    <= u64::MAX by {
                                    let a2 = if a < j { a } else { a + 1 };
                                    assert(r[a] == s.refs[a2]);
                                }
                            }
                        },
                    }
                },
            }
        },
    }
}

/// Whether no two rows of a reference table count the same data.
pub open spec fn cids_distinct(refs: Seq<RefRow>) -> bool {
    forall|a: int, b: int| 0 <= a < b < refs.len() ==> refs[a].cid != refs[b].cid
}

/// Adding a message counts one more carrier of its data, and no more.
pub proof fn lemma_carriers_push(t: Seq<MessageRow>, r: MessageRow, c: Seq<char>)
    ensures
        carriers(t.push(r), c) == carriers(t, c) + if r.data_cid == Some(c) {
            1nat
        } else {
            0nat
        },
{
    assert(t.push(r).drop_last() =~= t);
}

/// Removing a message counts one carrier less of its data, and no less.
pub proof fn lemma_carriers_remove_at(t: Seq<MessageRow>, i: int, c: Seq<char>)
    requires
        0 <= i < t.len(),
    ensures
        carriers(remove_at(t, i), c) + (if t[i].data_cid == Some(c) {
            1nat
        } else {
            0nat
        }) == carriers(t, c),
    decreases t.len(),
{
    let u = remove_at(t, i);
    if i == t.len() - 1 {
        assert(u =~= t.drop_last());
    } else {
        lemma_carriers_remove_at(t.drop_last(), i, c);
        assert(u.drop_last() =~= remove_at(t.drop_last(), i));
        assert(u.last() == t.last());
        assert(t.drop_last()[i] == t[i]);
    }
}

/// In a table whose rows count distinct data, the count kept for data is that of
/// its row, and zero when it has none.
pub proof fn lemma_ref_count_rows(refs: Seq<RefRow>, c: Seq<char>)
    requires
        cids_distinct(refs),
    ensures
        (forall|j: int| 0 <= j < refs.len() ==> #[trigger] refs[j].cid != c) ==> ref_count(refs, c)
            == 0,
        forall|j: int| 0 <= j < refs.len() && #[trigger] refs[j].cid == c ==> ref_count(refs, c)
            == refs[j].count,
{
    lemma_last_index(refs, ref_key(c));
    assert forall|j: int| 0 <= j < refs.len() && #[trigger] refs[j].cid == c implies ref_count(
        refs,
        c,
    ) == refs[j].count by {
        assert(ref_key(c)(refs[j]));
        let x = last_index(refs, ref_key(c))->0;
        if x < j {
            assert(refs[x].cid != refs[j].cid);
        } else if x > j {
            assert(refs[j].cid != refs[x].cid);
        }
    }
    if forall|j: int| 0 <= j < refs.len() ==> #[trigger] refs[j].cid != c {
        if last_index(refs, ref_key(c)) is Some {
            let x = last_index(refs, ref_key(c))->0;
            assert(refs[x].cid != c);
        }
    }
}

/// Setting the count of the row of `c` to `n` makes `n` the count kept for `c` and
/// changes no other count.
pub proof fn lemma_ref_count_update(refs: Seq<RefRow>, i: int, c: Seq<char>, n: nat, e: Seq<char>)
    requires
        cids_distinct(refs),
        0 <= i < refs.len(),
        refs[i].cid == c,
    ensures
        cids_distinct(refs.update(i, RefRow { cid: c, count: n })),
        ref_count(refs.update(i, RefRow { cid: c, count: n }), e) == if e == c {
            n
        } else {
            ref_count(refs, e)
        },
{
    let r = refs.update(i, RefRow { cid: c, count: n });
    assert forall|a: int, b: int| 0 <= a < b < r.len() implies r[a].cid != r[b].cid by {
        assert(refs[a].cid != refs[b].cid);
    }
    lemma_ref_count_rows(refs, e);
    lemma_ref_count_rows(r, e);
    if e == c {
        assert(r[i].cid == c);
    } else if exists|j: int| 0 <= j < refs.len() && #[trigger] refs[j].cid == e {
        let j = choose|j: int| 0 <= j < refs.len() && #[trigger] refs[j].cid == e;
        assert(r[j] == refs[j]);
    } else {
        assert forall|j: int| 0 <= j < r.len() implies #[trigger] r[j].cid != e by {
            if j != i {
                assert(r[j] == refs[j]);
            }
        }
    }
}

/// Adding a row that counts `c` once, where none counted it, makes one the count
/// kept for `c` and changes no other count.
pub proof fn lemma_ref_count_push(refs: Seq<RefRow>, c: Seq<char>, e: Seq<char>)
    requires
        cids_distinct(refs),
        last_index(refs, ref_key(c)) is None,
    ensures
        cids_distinct(refs.push(RefRow { cid: c, count: 1 })),
        ref_count(refs.push(RefRow { cid: c, count: 1 }), e) == if e == c {
            1
        } else {
            ref_count(refs, e)
        },
{
    let r = refs.push(RefRow { cid: c, count: 1 });
    lemma_last_index(refs, ref_key(c));
    assert forall|a: int, b: int| 0 <= a < b < r.len() implies r[a].cid != r[b].cid by {
        if b == refs.len() {
            assert(!ref_key(c)(refs[a]));
        } else {
            assert(refs[a].cid != refs[b].cid);
        }
    }
    assert(r.drop_last() =~= refs);
    assert(r.last() == RefRow { cid: c, count: 1 });
    if e == c {
        assert(ref_key(e)(r.last()));
        assert(last_index(r, ref_key(e)) == Some(refs.len() as int));
    } else {
        assert(!ref_key(e)(r.last()));
        assert(last_index(r, ref_key(e)) == last_index(refs, ref_key(e)));
        lemma_last_index(refs, ref_key(e));
        if let Some(x) = last_index(refs, ref_key(e)) {
            assert(r[x] == refs[x]);
        }
    }
}

/// Removing the row of `c` makes zero the count kept for `c` and changes no other
/// count.
pub proof fn lemma_ref_count_remove(refs: Seq<RefRow>, j: int, c: Seq<char>, e: Seq<char>)
    requires
        cids_distinct(refs),
        0 <= j < refs.len(),
        refs[j].cid == c,
    ensures
        cids_distinct(remove_at(refs, j)),
        ref_count(remove_at(refs, j), e) == if e == c {
            0
        } else {
            ref_count(refs, e)
        },
{
    let r = remove_at(refs, j);
    lemma_remove_at_unique(refs, j, |x: RefRow| x.cid);
    lemma_ref_count_rows(refs, e);
    lemma_ref_count_rows(r, e);
    if exists|a: int| 0 <= a < refs.len() && a != j && #[trigger] refs[a].cid == e {
        let a = choose|a: int| 0 <= a < refs.len() && a != j && #[trigger] refs[a].cid == e;
        let a2 = if a < j { a } else { a - 1 };
        assert(r[a2] == refs[a]);
        if e == c {
            if a < j {
                assert(refs[a].cid != refs[j].cid);
            } else {
                assert(refs[j].cid != refs[a].cid);
            }
        }
    } else {
        assert forall|k: int| 0 <= k < r.len() implies #[trigger] r[k].cid != e by {
            let k2 = if k < j { k } else { k + 1 };
            assert(r[k] == refs[k2]);
        }
    }
}

/// A put that the store carries out keeps each count equal to the number of stored
/// messages that carry its data. A message with data that `n` stored messages carry
/// is then counted `n + 1` times, and its data is written to the data store, once,
/// only when `n` is zero; otherwise the data store is left as it was.
pub proof fn law_put_counts_references(
    s: StoreView,
    d: StoreView,
    tenant: Seq<char>,
    m: Message,
    now: Timestamp,
)
    requires
        s.wf(),
        s.refs_counted(),
        put_spec(s, d, tenant, m, now).0 == StoreOutcome::Done,
    ensures
        ({
            let p = put_spec(s, d, tenant, m, now);
            &&& p.1.refs_counted()
            &&& data_cid_of(m) matches Some(c) ==> {
                let n = carriers(s.messages, c);
                &&& ref_count(p.1.refs, c) == n + 1
                &&& n == 0 ==> p.2 == StoreView {
                    data: d.data.push(DataRow { cid: c, data: utf8(m.data->0->Base64_0@) }),
                    ..d
                }
                &&& n > 0 ==> p.2 == d
            }
        }),
{
    reveal(put_spec);
    let p = put_spec(s, d, tenant, m, now);
    let row = message_row(tenant, m, now);
    assert(p.1.messages == s.messages.push(row));
    assert(cids_distinct(s.refs));
    match data_cid_of(m) {
        None => {
            assert(p.1.refs == s.refs);
            assert forall|e: Seq<char>| #[trigger] ref_count(p.1.refs, e) == carriers(
                p.1.messages,
                e,
            ) by {
                lemma_carriers_push(s.messages, row, e);
                assert(ref_count(s.refs, e) == carriers(s.messages, e));
            }
        },
        Some(c) => {
            lemma_last_index(s.refs, ref_key(c));
            lemma_ref_count_rows(s.refs, c);
            match last_index(s.refs, ref_key(c)) {
                Some(i) => {
                    let n = s.refs[i].count;
                    assert(ref_count(s.refs, c) == n);
                    assert(ref_count(s.refs, c) == carriers(s.messages, c));
                    assert(p.1.refs == s.refs.update(i, RefRow { cid: c, count: n + 1 }));
                    assert forall|e: Seq<char>| #[trigger] ref_count(p.1.refs, e) == carriers(
                        p.1.messages,
                        e,
                    ) by {
                        lemma_carriers_push(s.messages, row, e);
                        lemma_ref_count_update(s.refs, i, c, n + 1, e);
                        assert(ref_count(s.refs, e) == carriers(s.messages, e));
                    }
                    assert forall|k: int| 0 <= k < p.1.refs.len() implies #[trigger] p.1.refs[k].count
                        >= 1 by {
                        assert(s.refs[k].count >= 1);
                    }
                    lemma_ref_count_update(s.refs, i, c, n + 1, c);
                },
                None => {
                    assert(ref_count(s.refs, c) == carriers(s.messages, c));
                    assert(p.1.refs == s.refs.push(RefRow { cid: c, count: 1 }));
                    assert forall|e: Seq<char>| #[trigger] ref_count(p.1.refs, e) == carriers(
                        p.1.messages,
                        e,
                    ) by {
                        lemma_carriers_push(s.messages, row, e);
                        lemma_ref_count_push(s.refs, c, e);
                        assert(ref_count(s.refs, e) == carriers(s.messages, e));
                    }
                    assert forall|k: int| 0 <= k < p.1.refs.len() implies #[trigger] p.1.refs[k].count
                        >= 1 by {
                        if k < s.refs.len() {
                            assert(s.refs[k].count >= 1);
                        }
                    }
                    lemma_ref_count_push(s.refs, c, c);
                },
            }
        },
    }
}

/// Removing a message keeps each count equal to the number of stored messages that
/// carry its data. The data of the message removed stays in the data store while
/// other stored messages carry it, and leaves it with the last of them.
pub proof fn law_delete_counts_references(s: StoreView, d: StoreView, tenant: Seq<char>, cid: Seq<char>)
    requires
        s.wf(),
        s.refs_counted(),
    ensures
        ({
            let q = delete_spec(s, d, tenant, cid);
            &&& q.1.refs_counted()
            &&& last_index(s.messages, message_key(tenant, cid)) matches Some(i) ==> (
            s.messages[i].data_cid matches Some(c) ==> {
                &&& carriers(q.1.messages, c) + 1 == carriers(s.messages, c)
                &&& carriers(s.messages, c) > 1 ==> q.2 == d
                &&& carriers(s.messages, c) == 1 ==> q.2 == StoreView {
                    data: data_delete_spec(d.data, c),
                    ..d
                }
            })
        }),
{
    reveal(delete_spec);
    let q = delete_spec(s, d, tenant, cid);
    assert(cids_distinct(s.refs));
    lemma_last_index(s.messages, message_cid_key(cid));
    lemma_last_index(s.messages, message_key(tenant, cid));
    if last_index(s.messages, message_cid_key(cid)) is Some {
        if let Some(i) = last_index(s.messages, message_key(tenant, cid)) {
            let t = remove_at(s.messages, i);
            assert(q.1.messages == t);
            match s.messages[i].data_cid {
                None => {
                    assert forall|e: Seq<char>| #[trigger] ref_count(q.1.refs, e) == carriers(
                        q.1.messages,
                        e,
                    ) by {
                        lemma_carriers_remove_at(s.messages, i, e);
                        assert(ref_count(s.refs, e) == carriers(s.messages, e));
                    }
                },
                Some(c) => {
                    lemma_carriers_remove_at(s.messages, i, c);
                    assert(ref_count(s.refs, c) == carriers(s.messages, c));
                    lemma_last_index(s.refs, ref_key(c));
                    let j = last_index(s.refs, ref_key(c))->0;
                    let n = s.refs[j].count;
                    if n > 1 {
                        assert(q.1.refs == s.refs.update(j, RefRow { cid: c, count: (n - 1) as nat }));
                        assert forall|e: Seq<char>| #[trigger] ref_count(q.1.refs, e) == carriers(
                            q.1.messages,
                            e,
                        ) by {
                            lemma_carriers_remove_at(s.messages, i, e);
                            lemma_ref_count_update(s.refs, j, c, (n - 1) as nat, e);
                            assert(ref_count(s.refs, e) == carriers(s.messages, e));
                        }
                        assert forall|k: int| 0 <= k < q.1.refs.len() implies #[trigger] q.1.refs[k].count
                            >= 1 by {
                            assert(s.refs[k].count >= 1);
                        }
                    } else {
                        assert(q.1.refs == remove_at(s.refs, j));
                        assert forall|e: Seq<char>| #[trigger] ref_count(q.1.refs, e) == carriers(
                            q.1.messages,
                            e,
                        ) by {
                            lemma_carriers_remove_at(s.messages, i, e);
                            lemma_ref_count_remove(s.refs, j, c, e);
                            assert(ref_count(s.refs, e) == carriers(s.messages, e));
                        }
                        assert forall|k: int| 0 <= k < q.1.refs.len() implies #[trigger] q.1.refs[k].count
                            >= 1 by {
                            let k2 = if k < j { k } else { k + 1 };
                            assert(q.1.refs[k] == s.refs[k2]);
                            assert(s.refs[k2].count >= 1);
                        }
                    }
                },
            }
        }
    }
}

} // verus!
