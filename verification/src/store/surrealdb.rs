//! An in-memory store for messages and record data.
//!
//! Data is kept by CID. Messages are kept by tenant and message CID, with the
//! record they belong to, their creation and publication instants and the CID of
//! their data; the data itself goes to a data store, shared between the messages
//! that carry it and counted by reference.
//!
//! The contracts speak of the store's view: its three tables as sequences of rows,
//! in the order in which rows were added. What each operation does to the view is
//! a spec function of this module (`put_spec`, `delete_spec`, `query_result`, ...).

use vstd::prelude::*;

use crate::cid::{cid_from_bytes, cid_v1, Cid, DAG_CBOR};
use crate::ipld::utf8;
use crate::message::builder::data_cid_text;
use crate::message::data::Data;
use crate::message::descriptor::{descriptor_encodable, Descriptor, Filter, FilterDateSort};
use crate::message::{message_cbor, message_cid, message_same, Message};
use crate::text::str_eq;
use crate::timestamp::{now_utc, Timestamp};

use super::laws::{law_delete_counts_references, law_put_counts_references};
use super::{DataStoreError, GetDataResults, MessageStoreError, PutDataResults};

verus! {

/// The last index of `s` whose element satisfies `p`.
pub open spec fn last_index<T>(s: Seq<T>, p: spec_fn(T) -> bool) -> Option<int>
    decreases s.len(),
{
    if s.len() == 0 {
        None
    } else if p(s.last()) {
        Some(s.len() - 1)
    } else {
        last_index(s.drop_last(), p)
    }
}

/// `last_index` finds the last satisfying element, and none exists when it finds nothing.
pub proof fn lemma_last_index<T>(s: Seq<T>, p: spec_fn(T) -> bool)
    ensures
        last_index(s, p) is None <==> forall|j: int| 0 <= j < s.len() ==> !p(s[j]),
        last_index(s, p) matches Some(i) ==> 0 <= i < s.len() && p(s[i]) && forall|j: int|
            i < j < s.len() ==> !p(s[j]),
    decreases s.len(),
{
    if s.len() > 0 && !p(s.last()) {
        lemma_last_index(s.drop_last(), p);
        match last_index(s, p) {
            Some(i) => {
                assert(s.drop_last()[i] == s[i]);
                assert forall|j: int| i < j < s.len() implies !p(s[j]) by {
                    if j < s.len() - 1 {
                        assert(s.drop_last()[j] == s[j]);
                    }
                }
            },
            None => {
                assert forall|j: int| 0 <= j < s.len() implies !p(s[j]) by {
                    if j < s.len() - 1 {
                        assert(s.drop_last()[j] == s[j]);
                    }
                }
            },
        }
    }
}

/// The first index of `s` whose element satisfies `p`.
pub open spec fn first_index<T>(s: Seq<T>, p: spec_fn(T) -> bool) -> Option<int>
    decreases s.len(),
{
    if s.len() == 0 {
        None
    } else if p(s[0]) {
        Some(0)
    } else {
        match first_index(s.drop_first(), p) {
            Some(i) => Some(i + 1),
            None => None,
        }
    }
}

/// `first_index` finds the first satisfying element, and none exists when it finds nothing.
pub proof fn lemma_first_index<T>(s: Seq<T>, p: spec_fn(T) -> bool)
    ensures
        first_index(s, p) is None <==> forall|j: int| 0 <= j < s.len() ==> !p(s[j]),
        first_index(s, p) matches Some(i) ==> 0 <= i < s.len() && p(s[i]) && forall|j: int|
            0 <= j < i ==> !p(s[j]),
    decreases s.len(),
{
    if s.len() > 0 && !p(s[0]) {
        let t = s.drop_first();
        lemma_first_index(t, p);
        match first_index(t, p) {
            Some(i) => {
                assert(t[i] == s[i + 1]);
                assert forall|j: int| 0 <= j < i + 1 implies !p(s[j]) by {
                    if j > 0 {
                        assert(t[j - 1] == s[j]);
                    }
                }
            },
            None => {
                assert forall|j: int| 0 <= j < s.len() implies !p(s[j]) by {
                    if j > 0 {
                        assert(t[j - 1] == s[j]);
                    }
                }
            },
        }
    }
}

/// Finding an element that satisfies `p`, after none before it does, is `first_index`.
pub proof fn lemma_first_index_at<T>(s: Seq<T>, p: spec_fn(T) -> bool, i: int)
    requires
        0 <= i < s.len(),
        p(s[i]),
        forall|j: int| 0 <= j < i ==> !p(#[trigger] s[j]),
    ensures
        first_index(s, p) == Some(i),
{
    lemma_first_index(s, p);
    let f = first_index(s, p)->0;
    if f < i {
        assert(!p(s[f]));
    }
    if f > i {
        assert(!p(s[i]));
    }
}

/// The sequence without its element at `i`.
pub open spec fn remove_at<T>(s: Seq<T>, i: int) -> Seq<T> {
    s.subrange(0, i) + s.subrange(i + 1, s.len() as int)
}

/// Stored data: its CID and bytes.
#[derive(Debug)]
pub struct DbData {
    pub cid: String,
    pub data: Vec<u8>,
}

/// The number of stored messages that carry a piece of data.
#[derive(Debug)]
pub struct DataRef {
    pub cid: String,
    pub ref_count: u64,
}

/// A stored message and what the store keeps beside it.
#[derive(Debug)]
pub struct DbMessage {
    pub cid: String,
    pub tenant: String,
    pub record_id: String,
    pub data_cid: Option<String>,
    pub date_created: Timestamp,
    pub date_published: Timestamp,
    pub message: Message,
}

/// A row of the data table.
pub struct DataRow {
    pub cid: Seq<char>,
    pub data: Seq<u8>,
}

/// A row of the reference table.
pub struct RefRow {
    pub cid: Seq<char>,
    pub count: nat,
}

/// A row of the message table.
pub struct MessageRow {
    pub cid: Seq<char>,
    pub tenant: Seq<char>,
    pub record_id: Seq<char>,
    pub data_cid: Option<Seq<char>>,
    pub created: int,
    pub published: int,
    pub message: Message,
}

/// The view of a store: its three tables.
pub struct StoreView {
    pub messages: Seq<MessageRow>,
    pub refs: Seq<RefRow>,
    pub data: Seq<DataRow>,
}

/// The view of an optional string.
pub open spec fn opt_view(s: Option<String>) -> Option<Seq<char>> {
    match s {
        Some(v) => Some(v@),
        None => None,
    }
}

impl View for DbData {
    type V = DataRow;

    open spec fn view(&self) -> DataRow {
        DataRow { cid: self.cid@, data: self.data@ }
    }
}

impl View for DataRef {
    type V = RefRow;

    open spec fn view(&self) -> RefRow {
        RefRow { cid: self.cid@, count: self.ref_count as nat }
    }
}

impl View for DbMessage {
    type V = MessageRow;

    open spec fn view(&self) -> MessageRow {
        MessageRow {
            cid: self.cid@,
            tenant: self.tenant@,
            record_id: self.record_id@,
            data_cid: opt_view(self.data_cid),
            created: self.date_created.unix_nanos as int,
            published: self.date_published.unix_nanos as int,
            message: self.message,
        }
    }
}

/// The in-memory store.
pub struct SurrealDB {
    messages: Vec<DbMessage>,
    refs: Vec<DataRef>,
    data: Vec<DbData>,
}

impl View for SurrealDB {
    type V = StoreView;

    closed spec fn view(&self) -> StoreView {
        StoreView {
            messages: self.messages@.map_values(|m: DbMessage| m@),
            refs: self.refs@.map_values(|r: DataRef| r@),
            data: self.data@.map_values(|d: DbData| d@),
        }
    }
}

/// The predicate of a data row with the given CID.
pub open spec fn data_key(cid: Seq<char>) -> spec_fn(DataRow) -> bool {
    |d: DataRow| d.cid == cid
}

/// The predicate of a reference row for the given data CID.
pub open spec fn ref_key(cid: Seq<char>) -> spec_fn(RefRow) -> bool {
    |r: RefRow| r.cid == cid
}

/// The predicate of a message row with the given tenant and CID.
pub open spec fn message_key(tenant: Seq<char>, cid: Seq<char>) -> spec_fn(MessageRow) -> bool {
    |m: MessageRow| m.tenant == tenant && m.cid == cid
}

/// The predicate of a message row with the given CID, for any tenant.
pub open spec fn message_cid_key(cid: Seq<char>) -> spec_fn(MessageRow) -> bool {
    |m: MessageRow| m.cid == cid
}

/// Whether a stored message is dated by its own descriptor: a commit, a deletion or
/// a write is created at its message timestamp, and a write with a publication date
/// is published then.
pub open spec fn dated(r: MessageRow) -> bool {
    match r.message.descriptor {
        Descriptor::RecordsCommit(x) => r.created == x.message_timestamp.unix_nanos,
        Descriptor::RecordsDelete(x) => r.created == x.message_timestamp.unix_nanos,
        Descriptor::RecordsWrite(x) => {
            &&& r.created == x.message_timestamp.unix_nanos
            &&& x.date_published matches Some(p) ==> r.published == p.unix_nanos
        },
        _ => true,
    }
}

impl StoreView {
    /// No two rows of a table share a key, every stored message can be encoded, is
    /// kept without its data and under its own record id, is dated by its own
    /// descriptor where that dates it, and counts fit in a `u64`.
    pub open spec fn wf(self) -> bool {
        &&& forall|i: int, j: int|
            0 <= i < j < self.data.len() ==> self.data[i].cid != self.data[j].cid
        &&& forall|i: int, j: int|
            0 <= i < j < self.refs.len() ==> self.refs[i].cid != self.refs[j].cid
        &&& forall|i: int, j: int|
            0 <= i < j < self.messages.len() ==> !(self.messages[i].tenant
                == self.messages[j].tenant && self.messages[i].cid == self.messages[j].cid)
        &&& forall|i: int|
            0 <= i < self.messages.len() ==> descriptor_encodable(
                #[trigger] self.messages[i].message.descriptor,
            )
        &&& forall|i: int| 0 <= i < self.refs.len() ==> #[trigger] self.refs[i].count <= u64::MAX
        &&& forall|i: int|
            0 <= i < self.messages.len() ==> (#[trigger] self.messages[i]).record_id
                == self.messages[i].message.record_id@ && self.messages[i].message.data is None
                && dated(self.messages[i])
    }
}

/// The number of stored messages that carry the data under `c`.
pub open spec fn carriers(t: Seq<MessageRow>, c: Seq<char>) -> nat
    decreases t.len(),
{
    if t.len() == 0 {
        0
    } else {
        carriers(t.drop_last(), c) + if t.last().data_cid == Some(c) {
            1nat
        } else {
            0nat
        }
    }
}

/// The reference count kept for the data under `c`: zero when none is kept.
pub open spec fn ref_count(refs: Seq<RefRow>, c: Seq<char>) -> nat {
    match last_index(refs, ref_key(c)) {
        Some(i) => refs[i].count,
        None => 0,
    }
}

impl StoreView {
    /// Whether the count kept for each piece of data is the number of stored
    /// messages that carry it, and no count of zero is kept.
    ///
    /// Every put that succeeds and every removal keep this. A put refused after its
    /// data was counted (the data store already holds the data, or the tenant
    /// already keeps the message) leaves the count raised, so a store can lose it.
    pub open spec fn refs_counted(self) -> bool {
        &&& forall|c: Seq<char>| #[trigger] ref_count(self.refs, c) == carriers(self.messages, c)
        &&& forall|i: int| 0 <= i < self.refs.len() ==> #[trigger] self.refs[i].count >= 1
    }
}

/// What storing data under `cid` does to a data table: `None` when the CID is taken.
pub open spec fn data_put_spec(t: Seq<DataRow>, cid: Seq<char>, bytes: Seq<u8>) -> Option<
    Seq<DataRow>,
> {
    match last_index(t, data_key(cid)) {
        Some(_) => None,
        None => Some(t.push(DataRow { cid, data: bytes })),
    }
}

/// The data stored under a CID, if any.
pub open spec fn data_lookup(t: Seq<DataRow>, cid: Seq<char>) -> Option<Seq<u8>> {
    match last_index(t, data_key(cid)) {
        Some(i) => Some(t[i].data),
        None => None,
    }
}

/// What removing the data under `cid` does to a data table.
pub open spec fn data_delete_spec(t: Seq<DataRow>, cid: Seq<char>) -> Seq<DataRow> {
    match last_index(t, data_key(cid)) {
        Some(i) => remove_at(t, i),
        None => t,
    }
}

/// The message with its data left out, as the store keeps it.
pub open spec fn stripped(m: Message) -> Message {
    Message { data: None, ..m }
}

/// The CID text under which the data of a message is kept, if it has base64 data.
pub open spec fn data_cid_of(m: Message) -> Option<Seq<char>> {
    match m.data {
        Some(Data::Base64(s)) => Some(data_cid_text(s@)),
        _ => None,
    }
}

/// The creation instant of a stored message: that of its descriptor for a commit,
/// a delete or a write, `now` otherwise.
pub open spec fn created_instant(d: Descriptor, now: Timestamp) -> int {
    match d {
        Descriptor::RecordsCommit(x) => x.message_timestamp.unix_nanos as int,
        Descriptor::RecordsDelete(x) => x.message_timestamp.unix_nanos as int,
        Descriptor::RecordsWrite(x) => x.message_timestamp.unix_nanos as int,
        _ => now.unix_nanos as int,
    }
}

/// The publication instant of a stored message: the publication date of a write
/// that has one, `now` otherwise.
pub open spec fn published_instant(d: Descriptor, now: Timestamp) -> int {
    match d {
        Descriptor::RecordsWrite(x) => match x.date_published {
            Some(p) => p.unix_nanos as int,
            None => now.unix_nanos as int,
        },
        _ => now.unix_nanos as int,
    }
}

/// The row under which the store keeps `m` for `tenant`.
pub open spec fn message_row(tenant: Seq<char>, m: Message, now: Timestamp) -> MessageRow {
    MessageRow {
        cid: message_cid(m),
        tenant,
        record_id: m.record_id@,
        data_cid: data_cid_of(m),
        created: created_instant(m.descriptor, now),
        published: published_instant(m.descriptor, now),
        message: stripped(m),
    }
}

/// How a store operation ends, as far as its contract tells errors apart.
pub enum StoreOutcome {
    Done,
    EncodeFailed,
    BackendFailed,
    DataBackendFailed,
    Missing,
}

/// The outcome that a store result shows.
pub open spec fn outcome_of<T>(r: Result<T, MessageStoreError>) -> StoreOutcome {
    match r {
        Ok(_) => StoreOutcome::Done,
        Err(MessageStoreError::MessageEncode(_)) => StoreOutcome::EncodeFailed,
        Err(MessageStoreError::DataStore(_)) => StoreOutcome::DataBackendFailed,
        Err(MessageStoreError::NotFound) => StoreOutcome::Missing,
        Err(_) => StoreOutcome::BackendFailed,
    }
}

/// What storing `m` for `tenant` at `now` does to a message store `s` and a data
/// store `d`, and how it ends.
///
/// In order: the message is encoded (ending with `Encode` when one of its instants
/// cannot be written); when it carries data, one more reference to the data is
/// counted (ending with `Backend` when the count cannot grow) and new data is
/// written to the data store (ending with `DataBackend` when the data store already
/// holds data under that CID); then the message is kept without its data (ending
/// with `Backend` when the tenant already keeps a message with that CID). An ending
/// leaves the earlier steps done.
#[verifier::opaque]
pub open spec fn put_spec(s: StoreView, d: StoreView, tenant: Seq<char>, m: Message, now: Timestamp) -> (
    StoreOutcome,
    StoreView,
    StoreView,
) {
    if !descriptor_encodable(m.descriptor) {
        (StoreOutcome::EncodeFailed, s, d)
    } else {
        let counted: (StoreOutcome, StoreView, StoreView) = match data_cid_of(m) {
            None => (StoreOutcome::Done, s, d),
            Some(c) => match last_index(s.refs, ref_key(c)) {
                Some(i) => if s.refs[i].count >= u64::MAX {
                    (StoreOutcome::BackendFailed, s, d)
                } else {
                    (
                        StoreOutcome::Done,
                        StoreView {
                            refs: s.refs.update(i, RefRow { cid: c, count: s.refs[i].count + 1 }),
                            ..s
                        },
                        d,
                    )
                },
                None => {
                    let s1 = StoreView { refs: s.refs.push(RefRow { cid: c, count: 1 }), ..s };
                    match data_put_spec(d.data, c, utf8(m.data->0->Base64_0@)) {
                        Some(t) => (StoreOutcome::Done, s1, StoreView { data: t, ..d }),
                        None => (StoreOutcome::DataBackendFailed, s1, d),
                    }
                },
            },
        };
        if counted.0 != StoreOutcome::Done {
            counted
        } else if last_index(counted.1.messages, message_key(tenant, message_cid(m))) is Some {
            (StoreOutcome::BackendFailed, counted.1, counted.2)
        } else {
            (
                StoreOutcome::Done,
                StoreView {
                    messages: counted.1.messages.push(message_row(tenant, m, now)),
                    ..counted.1
                },
                counted.2,
            )
        }
    }
}

/// What removing the message under `cid` for `tenant` does to a message store `s`
/// and a data store `d`, and how it ends.
///
/// When no tenant keeps a message under the CID, it ends with `NotFound` and changes
/// nothing; when only other tenants do, it changes nothing. Otherwise the message is
/// removed, and one reference less to its data is counted: a count of one or less is
/// removed, and the data with it.
#[verifier::opaque]
pub open spec fn delete_spec(s: StoreView, d: StoreView, tenant: Seq<char>, cid: Seq<char>) -> (
    StoreOutcome,
    StoreView,
    StoreView,
) {
    if last_index(s.messages, message_cid_key(cid)) is None {
        (StoreOutcome::Missing, s, d)
    } else {
        match last_index(s.messages, message_key(tenant, cid)) {
            None => (StoreOutcome::Done, s, d),
            Some(i) => {
                let s1 = StoreView { messages: remove_at(s.messages, i), ..s };
                match s.messages[i].data_cid {
                    None => (StoreOutcome::Done, s1, d),
                    Some(c) => match last_index(s.refs, ref_key(c)) {
                        None => (StoreOutcome::Done, s1, d),
                        Some(j) => if s.refs[j].count > 1 {
                            (
                                StoreOutcome::Done,
                                StoreView {
                                    refs: s.refs.update(
                                        j,
                                        RefRow { cid: c, count: (s.refs[j].count - 1) as nat },
                                    ),
                                    ..s1
                                },
                                d,
                            )
                        } else {
                            (
                                StoreOutcome::Done,
                                StoreView { refs: remove_at(s.refs, j), ..s1 },
                                StoreView { data: data_delete_spec(d.data, c), ..d },
                            )
                        },
                    },
                }
            },
        }
    }
}

/// Whether a stored message belongs to `tenant` and has the record id `record_id`,
/// when one is asked for: of a filter, only the record id selects.
pub open spec fn selects(m: MessageRow, tenant: Seq<char>, record_id: Option<Seq<char>>) -> bool {
    &&& m.tenant == tenant
    &&& record_id matches Some(r) ==> m.record_id == r
}

/// The stored messages that a query selects, in store order.
pub open spec fn select(t: Seq<MessageRow>, tenant: Seq<char>, record_id: Option<Seq<char>>) -> Seq<
    MessageRow,
>
    decreases t.len(),
{
    if t.len() == 0 {
        Seq::empty()
    } else if selects(t.last(), tenant, record_id) {
        select(t.drop_last(), tenant, record_id).push(t.last())
    } else {
        select(t.drop_last(), tenant, record_id)
    }
}

/// The instant by which a sort order compares stored messages.
pub open spec fn sort_key(m: MessageRow, k: FilterDateSort) -> int {
    match k {
        FilterDateSort::CreatedAscending | FilterDateSort::CreatedDescending => m.created,
        _ => m.published,
    }
}

/// Whether `a` strictly precedes `b` in a sort order.
pub open spec fn goes_before(a: MessageRow, b: MessageRow, k: FilterDateSort) -> bool {
    match k {
        FilterDateSort::CreatedAscending | FilterDateSort::PublishedAscending => sort_key(a, k)
            < sort_key(b, k),
        _ => sort_key(a, k) > sort_key(b, k),
    }
}

/// `s` with `x` inserted before the first element that `x` strictly precedes.
pub open spec fn insert_sorted(s: Seq<MessageRow>, x: MessageRow, k: FilterDateSort) -> Seq<MessageRow>
    decreases s.len(),
{
    if s.len() == 0 {
        seq![x]
    } else if goes_before(x, s[0], k) {
        seq![x] + s
    } else {
        seq![s[0]] + insert_sorted(s.drop_first(), x, k)
    }
}

/// The stable sort of `s` in order `k`: elements that compare equal keep their order.
pub open spec fn sort_messages(s: Seq<MessageRow>, k: FilterDateSort) -> Seq<MessageRow>
    decreases s.len(),
{
    if s.len() == 0 {
        s
    } else {
        insert_sorted(sort_messages(s.drop_last(), k), s.last(), k)
    }
}

/// The stored messages that a query answers with, in answer order: those of
/// `tenant` with the record id `record_id` when one is asked for, sorted by `sort`
/// when one is asked for.
pub open spec fn query_result(
    t: Seq<MessageRow>,
    tenant: Seq<char>,
    record_id: Option<Seq<char>>,
    sort: Option<FilterDateSort>,
) -> Seq<MessageRow> {
    match sort {
        Some(k) => sort_messages(select(t, tenant, record_id), k),
        None => select(t, tenant, record_id),
    }
}

/// The answer to a query with `filter`.
pub open spec fn filter_result(t: Seq<MessageRow>, tenant: Seq<char>, filter: Filter) -> Seq<MessageRow> {
    query_result(t, tenant, opt_view(filter.record_id), filter.date_sort)
}

/// Inserting before the first strictly following element is splicing at that index.
pub proof fn lemma_insert_sorted(s: Seq<MessageRow>, x: MessageRow, k: FilterDateSort, p: int)
    requires
        0 <= p <= s.len(),
        forall|j: int| 0 <= j < p ==> !goes_before(x, #[trigger] s[j], k),
        p < s.len() ==> goes_before(x, s[p], k),
    ensures
        insert_sorted(s, x, k) == s.insert(p, x),
    decreases s.len(),
{
    if s.len() == 0 {
        assert(s.insert(p, x) =~= seq![x]);
    } else if p == 0 {
        assert(s.insert(0, x) =~= seq![x] + s);
    } else {
        let t = s.drop_first();
        assert forall|j: int| 0 <= j < p - 1 implies !goes_before(x, #[trigger] t[j], k) by {
            assert(t[j] == s[j + 1]);
        }
        lemma_insert_sorted(t, x, k, p - 1);
        assert(seq![s[0]] + t.insert(p - 1, x) =~= s.insert(p, x));
    }
}

/// A property that every stored message has, every message that `select` picks has.
pub proof fn lemma_select_keeps(
    t: Seq<MessageRow>,
    tenant: Seq<char>,
    record_id: Option<Seq<char>>,
    p: spec_fn(MessageRow) -> bool,
)
    requires
        forall|i: int| 0 <= i < t.len() ==> p(#[trigger] t[i]),
    ensures
        forall|i: int|
            0 <= i < select(t, tenant, record_id).len() ==> p(
                #[trigger] select(t, tenant, record_id)[i],
            ) && selects(select(t, tenant, record_id)[i], tenant, record_id),
    decreases t.len(),
{
    if t.len() > 0 {
        let u = t.drop_last();
        assert forall|i: int| 0 <= i < u.len() implies p(#[trigger] u[i]) by {
            assert(u[i] == t[i]);
        }
        lemma_select_keeps(u, tenant, record_id, p);
        assert(p(t[t.len() - 1]));
        let r = select(t, tenant, record_id);
        let ru = select(u, tenant, record_id);
        assert forall|i: int| 0 <= i < r.len() implies p(#[trigger] r[i]) && selects(
            r[i],
            tenant,
            record_id,
        ) by {
            if i < ru.len() {
                assert(r[i] == ru[i]);
            }
        }
    }
}

/// Inserting an element with a property into a sequence whose elements have it
/// gives a sequence whose elements have it.
pub proof fn lemma_insert_sorted_keeps(
    s: Seq<MessageRow>,
    x: MessageRow,
    k: FilterDateSort,
    p: spec_fn(MessageRow) -> bool,
)
    requires
        p(x),
        forall|i: int| 0 <= i < s.len() ==> p(#[trigger] s[i]),
    ensures
        insert_sorted(s, x, k).len() == s.len() + 1,
        forall|i: int|
            0 <= i < insert_sorted(s, x, k).len() ==> p(#[trigger] insert_sorted(s, x, k)[i]),
    decreases s.len(),
{
    if s.len() > 0 && !goes_before(x, s[0], k) {
        let u = s.drop_first();
        assert forall|i: int| 0 <= i < u.len() implies p(#[trigger] u[i]) by {
            assert(u[i] == s[i + 1]);
        }
        lemma_insert_sorted_keeps(u, x, k, p);
        let r = insert_sorted(s, x, k);
        assert forall|i: int| 0 <= i < r.len() implies p(#[trigger] r[i]) by {
            if i > 0 {
                assert(r[i] == insert_sorted(u, x, k)[i - 1]);
            }
        }
    } else if s.len() > 0 {
        let r = insert_sorted(s, x, k);
        assert forall|i: int| 0 <= i < r.len() implies p(#[trigger] r[i]) by {
            if i > 0 {
                assert(r[i] == s[i - 1]);
            }
        }
    }
}

/// Sorting keeps the length, and a property that every element has.
pub proof fn lemma_sort_keeps(s: Seq<MessageRow>, k: FilterDateSort, p: spec_fn(MessageRow) -> bool)
    requires
        forall|i: int| 0 <= i < s.len() ==> p(#[trigger] s[i]),
    ensures
        sort_messages(s, k).len() == s.len(),
        forall|i: int| 0 <= i < sort_messages(s, k).len() ==> p(#[trigger] sort_messages(s, k)[i]),
    decreases s.len(),
{
    if s.len() > 0 {
        let u = s.drop_last();
        assert forall|i: int| 0 <= i < u.len() implies p(#[trigger] u[i]) by {
            assert(u[i] == s[i]);
        }
        lemma_sort_keeps(u, k, p);
        assert(p(s[s.len() - 1]));
        lemma_insert_sorted_keeps(sort_messages(u, k), s.last(), k, p);
    }
}

/// Every message of a query's answer has a property that every stored message
/// has, and is one that the query selects.
pub proof fn lemma_query_result_keeps(
    t: Seq<MessageRow>,
    tenant: Seq<char>,
    record_id: Option<Seq<char>>,
    sort: Option<FilterDateSort>,
    p: spec_fn(MessageRow) -> bool,
)
    requires
        forall|i: int| 0 <= i < t.len() ==> p(#[trigger] t[i]),
    ensures
        forall|i: int|
            0 <= i < query_result(t, tenant, record_id, sort).len() ==> p(
                #[trigger] query_result(t, tenant, record_id, sort)[i],
            ) && selects(query_result(t, tenant, record_id, sort)[i], tenant, record_id),
{
    lemma_select_keeps(t, tenant, record_id, p);
    if let Some(k) = sort {
        let q = |m: MessageRow| p(m) && selects(m, tenant, record_id);
        let sel = select(t, tenant, record_id);
        assert forall|i: int| 0 <= i < sel.len() implies q(#[trigger] sel[i]) by {}
        lemma_sort_keeps(sel, k, q);
    }
}

proof fn lemma_remove_at_map<A, B>(s: Seq<A>, f: spec_fn(A) -> B, i: int)
    requires
        0 <= i < s.len(),
    ensures
        remove_at(s, i).map_values(f) == remove_at(s.map_values(f), i),
{
    assert(remove_at(s, i).map_values(f) =~= remove_at(s.map_values(f), i));
}

/// Removing an element keeps the keys of a sequence distinct.
pub proof fn lemma_remove_at_unique<A>(s: Seq<A>, i: int, key: spec_fn(A) -> Seq<char>)
    requires
        0 <= i < s.len(),
        forall|a: int, b: int| 0 <= a < b < s.len() ==> key(s[a]) != key(s[b]),
    ensures
        forall|a: int, b: int|
            0 <= a < b < remove_at(s, i).len() ==> key(remove_at(s, i)[a]) != key(
                remove_at(s, i)[b],
            ),
{
    let t = remove_at(s, i);
    assert forall|a: int, b: int| 0 <= a < b < t.len() implies key(t[a]) != key(t[b]) by {
        let a2 = if a < i {
            a
        } else {
            a + 1
        };
        let b2 = if b < i {
            b
        } else {
            b + 1
        };
        assert(t[a] == s[a2]);
        assert(t[b] == s[b2]);
    }
}

impl SurrealDB {
    /// An empty store.
    pub fn new() -> (db: SurrealDB)
        ensures
            db@.wf(),
            db@.refs_counted(),
            db@.data.len() == 0,
            db@.messages.len() == 0,
            db@.refs.len() == 0,
    {
        let db = SurrealDB { messages: Vec::new(), refs: Vec::new(), data: Vec::new() };
        assert(db@.data =~= Seq::<DataRow>::empty());
        assert(db@.refs =~= Seq::<RefRow>::empty());
        assert(db@.messages =~= Seq::<MessageRow>::empty());
        assert forall|c: Seq<char>| #[trigger] ref_count(db@.refs, c) == carriers(db@.messages, c) by {}
        db
    }

    fn find_data(&self, cid: &str) -> (r: Option<usize>)
        ensures
            r matches Some(i) ==> last_index(self@.data, data_key(cid@)) == Some(i as int) && i
                < self.data@.len(),
            r is None ==> last_index(self@.data, data_key(cid@)) is None,
    {
        proof {
            lemma_last_index(self@.data, data_key(cid@));
        }
        let mut i = self.data.len();
        while i > 0
            invariant
                i <= self.data@.len(),
                self@.data.len() == self.data@.len(),
                forall|j: int| 0 <= j < self.data@.len() ==> self@.data[j] == self.data@[j]@,
                forall|j: int| i <= j < self.data@.len() ==> !data_key(cid@)(self@.data[j]),
            decreases i,
        {
            if str_eq(self.data[i - 1].cid.as_str(), cid) {
                proof {
                    let k = (i - 1) as int;
                    assert(self@.data[k] == self.data@[k]@);
                    assert((data_key(cid@))(self@.data[k]));
                    lemma_last_index(self@.data, data_key(cid@));
                    let x = last_index(self@.data, data_key(cid@))->0;
                    if x < k {
                        assert(!(data_key(cid@))(self@.data[k]));
                    }
                    if x > k {
                        assert(!(data_key(cid@))(self@.data[x]));
                    }
                }
                return Some(i - 1);
            }
            i = i - 1;
        }
        None
    }

    fn find_ref(&self, cid: &str) -> (r: Option<usize>)
        ensures
            r matches Some(i) ==> last_index(self@.refs, ref_key(cid@)) == Some(i as int) && i
                < self.refs@.len(),
            r is None ==> last_index(self@.refs, ref_key(cid@)) is None,
    {
        proof {
            lemma_last_index(self@.refs, ref_key(cid@));
        }
        let mut i = self.refs.len();
        while i > 0
            invariant
                i <= self.refs@.len(),
                self@.refs.len() == self.refs@.len(),
                forall|j: int| 0 <= j < self.refs@.len() ==> self@.refs[j] == self.refs@[j]@,
                forall|j: int| i <= j < self.refs@.len() ==> !ref_key(cid@)(self@.refs[j]),
            decreases i,
        {
            if str_eq(self.refs[i - 1].cid.as_str(), cid) {
                proof {
                    let k = (i - 1) as int;
                    assert(self@.refs[k] == self.refs@[k]@);
                    assert((ref_key(cid@))(self@.refs[k]));
                    lemma_last_index(self@.refs, ref_key(cid@));
                    let x = last_index(self@.refs, ref_key(cid@))->0;
                    if x < k {
                        assert(!(ref_key(cid@))(self@.refs[k]));
                    }
                    if x > k {
                        assert(!(ref_key(cid@))(self@.refs[x]));
                    }
                }
                return Some(i - 1);
            }
            i = i - 1;
        }
        None
    }

    fn find_message(&self, tenant: &str, cid: &str) -> (r: Option<usize>)
        ensures
            r matches Some(i) ==> last_index(self@.messages, message_key(tenant@, cid@)) == Some(
                i as int,
            ) && i < self.messages@.len(),
            r is None ==> last_index(self@.messages, message_key(tenant@, cid@)) is None,
    {
        proof {
            lemma_last_index(self@.messages, message_key(tenant@, cid@));
        }
        let mut i = self.messages.len();
        while i > 0
            invariant
                i <= self.messages@.len(),
                self@.messages.len() == self.messages@.len(),
                forall|j: int|
                    0 <= j < self.messages@.len() ==> self@.messages[j] == self.messages@[j]@,
                forall|j: int|
                    i <= j < self.messages@.len() ==> !message_key(tenant@, cid@)(
                        self@.messages[j],
                    ),
            decreases i,
        {
            let m = &self.messages[i - 1];
            if str_eq(m.tenant.as_str(), tenant) && str_eq(m.cid.as_str(), cid) {
                proof {
                    let k = (i - 1) as int;
                    assert(self@.messages[k] == self.messages@[k]@);
                    assert((message_key(tenant@, cid@))(self@.messages[k]));
                    lemma_last_index(self@.messages, message_key(tenant@, cid@));
                    let x = last_index(self@.messages, message_key(tenant@, cid@))->0;
                    if x < k {
                        assert(!(message_key(tenant@, cid@))(self@.messages[k]));
                    }
                    if x > k {
                        assert(!(message_key(tenant@, cid@))(self@.messages[x]));
                    }
                }
                return Some(i - 1);
            }
            i = i - 1;
        }
        None
    }

    fn has_message_cid(&self, cid: &str) -> (r: bool)
        ensures
            r == (last_index(self@.messages, message_cid_key(cid@)) is Some),
    {
        proof {
            lemma_last_index(self@.messages, message_cid_key(cid@));
        }
        let mut i = self.messages.len();
        while i > 0
            invariant
                i <= self.messages@.len(),
                self@.messages.len() == self.messages@.len(),
                forall|j: int|
                    0 <= j < self.messages@.len() ==> self@.messages[j] == self.messages@[j]@,
                forall|j: int|
                    i <= j < self.messages@.len() ==> !message_cid_key(cid@)(self@.messages[j]),
            decreases i,
        {
            if str_eq(self.messages[i - 1].cid.as_str(), cid) {
                proof {
                    let k = (i - 1) as int;
                    assert(self@.messages[k] == self.messages@[k]@);
                    assert((message_cid_key(cid@))(self@.messages[k]));
                    lemma_last_index(self@.messages, message_cid_key(cid@));
                    let x = last_index(self@.messages, message_cid_key(cid@))->0;
                    if x < k {
                        assert(!(message_cid_key(cid@))(self@.messages[k]));
                    }
                    if x > k {
                        assert(!(message_cid_key(cid@))(self@.messages[x]));
                    }
                }
                return true;
            }
            i = i - 1;
        }
        false
    }

    /// Stores data under a CID. Fails, storing nothing, when data is already stored
    /// under that CID.
    pub fn data_put(&mut self, cid: String, value: Vec<u8>) -> (r: Result<PutDataResults, DataStoreError>)
        requires
            old(self)@.wf(),
        ensures
            final(self)@.wf(),
            final(self)@.messages == old(self)@.messages,
            final(self)@.refs == old(self)@.refs,
            match data_put_spec(old(self)@.data, cid@, value@) {
                Some(t) => r is Ok && r->Ok_0.size == value@.len() && final(self)@.data == t,
                None => r is Err && r->Err_0 is BackendError && final(self)@.data == old(self)@.data,
            },
    {
        match self.find_data(cid.as_str()) {
            Some(_) => Err(DataStoreError::BackendError("data record already exists".to_owned())),
            None => {
                proof {
                    lemma_last_index(self@.data, data_key(cid@));
                }
                let size = value.len();
                self.data.push(DbData { cid, data: value });
                proof {
                    assert(self@.data =~= old(self)@.data.push(self.data@.last()@));
                    assert(self@.messages =~= old(self)@.messages);
                    assert(self@.refs =~= old(self)@.refs);
                }
                Ok(PutDataResults { size })
            },
        }
    }

    /// The data stored under a CID, if any.
    pub fn data_get(&self, cid: &str) -> (r: Result<Option<GetDataResults>, DataStoreError>)
        ensures
            r is Ok,
            match data_lookup(self@.data, cid@) {
                Some(d) => r->Ok_0 matches Some(g) && g.data@ == d && g.size == d.len(),
                None => r->Ok_0 is None,
            },
    {
        match self.find_data(cid) {
            Some(i) => {
                let data = self.data[i].data.clone();
                Ok(Some(GetDataResults { size: data.len(), data }))
            },
            None => Ok(None),
        }
    }

    /// Removes the data stored under a CID, if any.
    pub fn data_delete(&mut self, cid: &str) -> (r: Result<(), DataStoreError>)
        requires
            old(self)@.wf(),
        ensures
            final(self)@.wf(),
            r is Ok,
            final(self)@.messages == old(self)@.messages,
            final(self)@.refs == old(self)@.refs,
            final(self)@.data == data_delete_spec(old(self)@.data, cid@),
    {
        match self.find_data(cid) {
            Some(i) => {
                self.data.remove(i);
                proof {
                    lemma_remove_at_map(old(self).data@, |d: DbData| d@, i as int);
                    assert(self.data@ =~= remove_at(old(self).data@, i as int));
                    lemma_remove_at_unique(old(self)@.data, i as int, |d: DataRow| d.cid);
                    assert(self@.messages =~= old(self)@.messages);
                    assert(self@.refs =~= old(self)@.refs);
                }
                Ok(())
            },
            None => Ok(()),
        }
    }
}


/// The creation and publication instants under which the store keeps a message
/// with descriptor `d`, read at `now`.
fn instants(d: &Descriptor, now: Timestamp) -> (r: (Timestamp, Timestamp))
    ensures
        r.0.unix_nanos == created_instant(*d, now),
        r.1.unix_nanos == published_instant(*d, now),
{
    let created = match d {
        Descriptor::RecordsCommit(x) => x.message_timestamp,
        Descriptor::RecordsDelete(x) => x.message_timestamp,
        Descriptor::RecordsWrite(x) => x.message_timestamp,
        _ => now,
    };
    let published = match d {
        Descriptor::RecordsWrite(x) => match x.date_published {
            Some(p) => p,
            None => now,
        },
        _ => now,
    };
    (created, published)
}

/// Whether stored message `a` strictly precedes `b` in sort order `k`.
fn precedes(a: &DbMessage, b: &DbMessage, k: FilterDateSort) -> (r: bool)
    ensures
        r == goes_before(a@, b@, k),
{
    match k {
        FilterDateSort::CreatedAscending => a.date_created.unix_nanos < b.date_created.unix_nanos,
        FilterDateSort::CreatedDescending => a.date_created.unix_nanos > b.date_created.unix_nanos,
        FilterDateSort::PublishedAscending => a.date_published.unix_nanos
            < b.date_published.unix_nanos,
        FilterDateSort::PublishedDescending => a.date_published.unix_nanos
            > b.date_published.unix_nanos,
    }
}

/// Whether stored message `m` belongs to `tenant` and passes `filter`.
fn passes(m: &DbMessage, tenant: &str, filter: &Filter) -> (r: bool)
    ensures
        r == selects(m@, tenant@, opt_view(filter.record_id)),
{
    if !str_eq(m.tenant.as_str(), tenant) {
        return false;
    }
    match &filter.record_id {
        Some(r) => str_eq(m.record_id.as_str(), r.as_str()),
        None => true,
    }
}

/// The rows of `t` at the indices `idx`, in that order.
pub open spec fn rows_at(t: Seq<MessageRow>, idx: Seq<usize>) -> Seq<MessageRow> {
    idx.map_values(|k: usize| t[k as int])
}

impl SurrealDB {
    /// Keeps `message` for `tenant`, its data in `data_store`, at the instant `now`
    /// for whatever the message does not date itself. Gives back the message's CID.
    pub fn put_at(
        &mut self,
        tenant: &str,
        message: Message,
        data_store: &mut SurrealDB,
        now: Timestamp,
    ) -> (r: Result<Cid, MessageStoreError>)
        requires
            old(self)@.wf(),
            old(data_store)@.wf(),
            !(message.data matches Some(Data::Encrypted(_))),
        ensures
            final(self)@.wf(),
            final(data_store)@.wf(),
            outcome_of(r) == put_spec(old(self)@, old(data_store)@, tenant@, message, now).0,
            final(self)@ == put_spec(old(self)@, old(data_store)@, tenant@, message, now).1,
            final(data_store)@ == put_spec(old(self)@, old(data_store)@, tenant@, message, now).2,
            old(self)@.refs_counted() && r is Ok ==> final(self)@.refs_counted(),
            r matches Ok(c) ==> c@ == cid_v1(DAG_CBOR, message_cbor(message)),
            r matches Err(e) ==> (e is MessageEncode || e is BackendError || e is DataStore),
    {
        proof {
            if old(self)@.refs_counted() && put_spec(
                old(self)@,
                old(data_store)@,
                tenant@,
                message,
                now,
            ).0 == StoreOutcome::Done {
                law_put_counts_references(old(self)@, old(data_store)@, tenant@, message, now);
            }
            reveal(put_spec);
        }
        let ghost m0 = message;
        let cbor = match message.to_cbor() {
            Ok(b) => b,
            Err(e) => {
                return Err(MessageStoreError::MessageEncode(e));
            },
        };
        let cid = cid_from_bytes(DAG_CBOR, cbor.as_slice());
        let cid_text = cid.to_string();
        assert(cid_text@ == message_cid(m0)) by {
            reveal(message_cid);
        }
        let mut message = message;
        let data = message.data.take();
        assert(message == stripped(m0));
        let mut data_cid: Option<String> = None;
        match data {
            Some(d) => {
                let c = d.cid().to_string();
                assert(c@ == data_cid_text(d->Base64_0@));
                proof {
                    lemma_last_index(self@.refs, ref_key(c@));
                }
                match self.find_ref(c.as_str()) {
                    Some(i) => {
                        let count = self.refs[i].ref_count;
                        if count == u64::MAX {
                            return Err(
                                MessageStoreError::BackendError(
                                    "data reference count overflow".to_owned(),
                                ),
                            );
                        }
                        let ghost before = self.refs@;
                        self.refs[i] = DataRef { cid: c.clone(), ref_count: count + 1 };
                        proof {
                            assert(self.refs@ =~= before.update(i as int, self.refs@[i as int]));
                            assert(self@.refs =~= old(self)@.refs.update(
                                i as int,
                                RefRow { cid: c@, count: (count + 1) as nat },
                            ));
                            assert forall|a: int, b: int|
                                0 <= a < b < self@.refs.len() implies self@.refs[a].cid
                                != self@.refs[b].cid by {
                                assert(old(self)@.refs[a].cid != old(self)@.refs[b].cid);
                            }
                        }
                    },
                    None => {
                        self.refs.push(DataRef { cid: c.clone(), ref_count: 1 });
                        proof {
                            assert(self@.refs =~= old(self)@.refs.push(RefRow { cid: c@, count: 1 }));
                        }
                        let bytes = d.into_bytes();
                        match data_store.data_put(c.clone(), bytes) {
                            Ok(_) => {},
                            Err(e) => {
                                proof {
                                    assert(self@.messages =~= old(self)@.messages);
                                    assert(self@.data =~= old(self)@.data);
                                }
                                return Err(MessageStoreError::DataStore(e));
                            },
                        }
                    },
                }
                data_cid = Some(c);
            },
            None => {},
        }
        proof {
            assert(self@.messages =~= old(self)@.messages);
            assert(self@.data =~= old(self)@.data);
            lemma_last_index(self@.messages, message_key(tenant@, cid_text@));
        }
        if self.find_message(tenant, cid_text.as_str()).is_some() {
            return Err(MessageStoreError::BackendError("message already exists".to_owned()));
        }
        let (date_created, date_published) = instants(&message.descriptor, now);
        let record_id = message.record_id.clone();
        let row = DbMessage {
            cid: cid_text,
            tenant: tenant.to_owned(),
            record_id,
            data_cid,
            date_created,
            date_published,
            message,
        };
        assert(row@ == message_row(tenant@, m0, now));
        let ghost before = self@;
        self.messages.push(row);
        proof {
            assert(self@.messages =~= before.messages.push(message_row(tenant@, m0, now)));
            assert(self@.refs =~= before.refs);
            assert(self@.data =~= before.data);
        }
        Ok(cid)
    }

    /// Keeps `message` for `tenant`, its data in `data_store`, dating what the message
    /// does not date itself by the clock. Gives back the message's CID.
    pub fn put(&mut self, tenant: &str, message: Message, data_store: &mut SurrealDB) -> (r: Result<
        Cid,
        MessageStoreError,
    >)
        requires
            old(self)@.wf(),
            old(data_store)@.wf(),
            !(message.data matches Some(Data::Encrypted(_))),
        ensures
            final(self)@.wf(),
            final(data_store)@.wf(),
            exists|now: Timestamp|
                {
                    let p = #[trigger] put_spec(old(self)@, old(data_store)@, tenant@, message, now);
                    &&& outcome_of(r) == p.0
                    &&& final(self)@ == p.1
                    &&& final(data_store)@ == p.2
                },
            old(self)@.refs_counted() && r is Ok ==> final(self)@.refs_counted(),
            r matches Ok(c) ==> c@ == cid_v1(DAG_CBOR, message_cbor(message)),
            r matches Err(e) ==> (e is MessageEncode || e is BackendError || e is DataStore),
    {
        let now = now_utc();
        let ghost m = message;
        let r = self.put_at(tenant, message, data_store, now);
        assert(put_spec(old(self)@, old(data_store)@, tenant@, m, now).1 == self@);
        r
    }

    /// Removes the message that `tenant` keeps under `cid`, and the data it carried
    /// when no other message carries it.
    pub fn delete(&mut self, tenant: &str, cid: String, data_store: &mut SurrealDB) -> (r: Result<
        (),
        MessageStoreError,
    >)
        requires
            old(self)@.wf(),
            old(data_store)@.wf(),
        ensures
            final(self)@.wf(),
            final(data_store)@.wf(),
            outcome_of(r) == delete_spec(old(self)@, old(data_store)@, tenant@, cid@).0,
            final(self)@ == delete_spec(old(self)@, old(data_store)@, tenant@, cid@).1,
            final(data_store)@ == delete_spec(old(self)@, old(data_store)@, tenant@, cid@).2,
            old(self)@.refs_counted() ==> final(self)@.refs_counted(),
            r matches Err(e) ==> e is NotFound,
    {
        proof {
            if old(self)@.refs_counted() {
                law_delete_counts_references(old(self)@, old(data_store)@, tenant@, cid@);
            }
            reveal(delete_spec);
        }
        if !self.has_message_cid(cid.as_str()) {
            return Err(MessageStoreError::NotFound);
        }
        let i = match self.find_message(tenant, cid.as_str()) {
            Some(i) => i,
            None => {
                return Ok(());
            },
        };
        let removed = self.messages.remove(i);
        proof {
            lemma_remove_at_map(old(self).messages@, |m: DbMessage| m@, i as int);
            assert(self.messages@ =~= remove_at(old(self).messages@, i as int));
            assert(self@.messages =~= remove_at(old(self)@.messages, i as int));
            assert(removed@ == old(self)@.messages[i as int]);
            assert forall|a: int, b: int|
                0 <= a < b < self@.messages.len() implies !(self@.messages[a].tenant
                == self@.messages[b].tenant && self@.messages[a].cid
                == self@.messages[b].cid) by {
                let t = remove_at(old(self)@.messages, i as int);
                let a2 = if a < i { a } else { a + 1 };
                let b2 = if b < i { b } else { b + 1 };
                assert(t[a] == old(self)@.messages[a2]);
                assert(t[b] == old(self)@.messages[b2]);
            }
            assert forall|a: int| 0 <= a < self@.messages.len() implies descriptor_encodable(
                #[trigger] self@.messages[a].message.descriptor,
            ) by {
                let a2 = if a < i { a } else { a + 1 };
                assert(self@.messages[a] == old(self)@.messages[a2]);
            }
        }
        match removed.data_cid {
            None => Ok(()),
            Some(c) => match self.find_ref(c.as_str()) {
                None => Ok(()),
                Some(j) => {
                    proof {
                        assert(self@.refs =~= old(self)@.refs);
                        lemma_last_index(self@.refs, ref_key(c@));
                    }
                    let count = self.refs[j].ref_count;
                    if count > 1 {
                        let ghost before = self.refs@;
                        self.refs[j] = DataRef { cid: c, ref_count: count - 1 };
                        proof {
                            assert(self.refs@ =~= before.update(j as int, self.refs@[j as int]));
                            assert(self@.refs =~= old(self)@.refs.update(
                                j as int,
                                RefRow { cid: removed@.data_cid->0, count: (count - 1) as nat },
                            ));
                            assert forall|a: int, b: int|
                                0 <= a < b < self@.refs.len() implies self@.refs[a].cid
                                != self@.refs[b].cid by {
                                assert(old(self)@.refs[a].cid != old(self)@.refs[b].cid);
                            }
                        }
                        Ok(())
                    } else {
                        self.refs.remove(j);
                        proof {
                            lemma_remove_at_map(old(self).refs@, |r: DataRef| r@, j as int);
                            assert(self.refs@ =~= remove_at(old(self).refs@, j as int));
                            assert(self@.refs =~= remove_at(old(self)@.refs, j as int));
                            lemma_remove_at_unique(old(self)@.refs, j as int, |r: RefRow| r.cid);
                            assert forall|a: int| 0 <= a < self@.refs.len() implies #[trigger] self@.refs[a].count
                                <= u64::MAX by {
                                let a2 = if a < j { a } else { a + 1 };
                                assert(self@.refs[a] == old(self)@.refs[a2]);
                            }
                        }
                        let _ = data_store.data_delete(c.as_str());
                        Ok(())
                    }
                },
            },
        }
    }

    /// The message that `tenant` keeps under `cid`, without its data.
    pub fn get(&self, tenant: &str, cid: &str) -> (r: Result<Message, MessageStoreError>)
        ensures
            match last_index(self@.messages, message_key(tenant@, cid@)) {
                Some(i) => r matches Ok(m) && message_same(m, self@.messages[i].message),
                None => r matches Err(e) && e is NotFound,
            },
    {
        match self.find_message(tenant, cid) {
            Some(i) => Ok(self.messages[i].message.clone()),
            None => Err(MessageStoreError::NotFound),
        }
    }

    /// The indices of the stored messages that a query with `filter` answers with, in
    /// answer order.
    fn query_order(&self, tenant: &str, filter: &Filter) -> (order: Vec<usize>)
        ensures
            forall|j: int| 0 <= j < order@.len() ==> order@[j] < self@.messages.len(),
            rows_at(self@.messages, order@) == filter_result(self@.messages, tenant@, *filter),
    {
        let ghost t = self@.messages;
        let mut idx: Vec<usize> = Vec::new();
        let mut i: usize = 0;
        while i < self.messages.len()
            invariant
                i <= self.messages@.len(),
                t == self@.messages,
                t.len() == self.messages@.len(),
                forall|j: int| 0 <= j < t.len() ==> t[j] == self.messages@[j]@,
                forall|j: int| 0 <= j < idx@.len() ==> idx@[j] < t.len(),
                rows_at(t, idx@) == select(t.take(i as int), tenant@, opt_view(filter.record_id)),
            decreases self.messages@.len() - i,
        {
            let ghost before = idx@;
            let ok = passes(&self.messages[i], tenant, filter);
            if ok {
                idx.push(i);
            }
            proof {
                assert(t.take(i + 1).drop_last() =~= t.take(i as int));
                assert(t.take(i + 1).last() == t[i as int]);
                if ok {
                    assert(rows_at(t, idx@) =~= rows_at(t, before).push(t[i as int]));
                }
            }
            i = i + 1;
        }
        assert(t.take(t.len() as int) =~= t);
        let ghost sel = rows_at(t, idx@);
        let mut order: Vec<usize> = Vec::new();
        match filter.date_sort {
            None => {
                order = idx;
            },
            Some(k) => {
                let mut n: usize = 0;
                assert(sel.take(0) =~= Seq::<MessageRow>::empty());
                assert(rows_at(t, order@) =~= Seq::<MessageRow>::empty());
                while n < idx.len()
                    invariant
                        n <= idx@.len(),
                        t == self@.messages,
                        t.len() == self.messages@.len(),
                        forall|j: int| 0 <= j < t.len() ==> t[j] == self.messages@[j]@,
                        forall|j: int| 0 <= j < idx@.len() ==> idx@[j] < t.len(),
                        forall|j: int| 0 <= j < order@.len() ==> order@[j] < t.len(),
                        sel == rows_at(t, idx@),
                        rows_at(t, order@) == sort_messages(sel.take(n as int), k),
                    decreases idx@.len() - n,
                {
                    let x = idx[n];
                    let mut p: usize = 0;
                    while p < order.len() && !precedes(&self.messages[x], &self.messages[order[p]], k)
                        invariant
                            p <= order@.len(),
                            x < t.len(),
                            t.len() == self.messages@.len(),
                            forall|j: int| 0 <= j < t.len() ==> t[j] == self.messages@[j]@,
                            forall|j: int| 0 <= j < order@.len() ==> order@[j] < t.len(),
                            forall|j: int|
                                0 <= j < p ==> !goes_before(
                                    t[x as int],
                                    #[trigger] rows_at(t, order@)[j],
                                    k,
                                ),
                        decreases order@.len() - p,
                    {
                        p = p + 1;
                    }
                    let ghost before = order@;
                    proof {
                        lemma_insert_sorted(rows_at(t, before), t[x as int], k, p as int);
                        assert(sel.take(n + 1).drop_last() =~= sel.take(n as int));
                        assert(sel.take(n + 1).last() == t[x as int]);
                    }
                    order.insert(p, x);
                    proof {
                        assert(rows_at(t, order@) =~= rows_at(t, before).insert(p as int, t[x as int]));
                    }
                    n = n + 1;
                }
                assert(sel.take(sel.len() as int) =~= sel);
            },
        }
        assert(rows_at(t, order@) == filter_result(t, tenant@, *filter));
        order
    }

    /// The messages that `tenant` keeps and that `filter` selects, sorted as the
    /// filter asks; messages that compare equal keep the order in which they were
    /// stored.
    pub fn query(&self, tenant: &str, filter: &Filter) -> (r: Result<Vec<Message>, MessageStoreError>)
        ensures
            r matches Ok(v) && v@.len() == filter_result(self@.messages, tenant@, *filter).len()
                && forall|i: int|
                0 <= i < v@.len() ==> message_same(
                    #[trigger] v@[i],
                    filter_result(self@.messages, tenant@, *filter)[i].message,
                ),
    {
        let ghost t = self@.messages;
        let ghost q = filter_result(t, tenant@, *filter);
        let order = self.query_order(tenant, filter);
        let mut out: Vec<Message> = Vec::new();
        let mut m: usize = 0;
        while m < order.len()
            invariant
                m <= order@.len(),
                t == self@.messages,
                t.len() == self.messages@.len(),
                forall|j: int| 0 <= j < t.len() ==> t[j] == self.messages@[j]@,
                forall|j: int| 0 <= j < order@.len() ==> order@[j] < t.len(),
                rows_at(t, order@) == q,
                out@.len() == m,
                forall|j: int| 0 <= j < m ==> message_same(#[trigger] out@[j], q[j].message),
            decreases order@.len() - m,
        {
            let o = order[m];
            out.push(self.messages[o].message.clone());
            m = m + 1;
        }
        Ok(out)
    }

    /// The messages that `tenant` keeps and that `filter` selects, each with the CID
    /// under which the store keeps it, in the order of `query`.
    pub fn query_keyed(&self, tenant: &str, filter: &Filter) -> (r: Vec<(String, Message)>)
        ensures
            r@.len() == filter_result(self@.messages, tenant@, *filter).len(),
            forall|i: int|
                0 <= i < r@.len() ==> (#[trigger] r@[i]).0@ == filter_result(
                    self@.messages,
                    tenant@,
                    *filter,
                )[i].cid && message_same(
                    r@[i].1,
                    filter_result(self@.messages, tenant@, *filter)[i].message,
                ),
    {
        let ghost t = self@.messages;
        let ghost q = filter_result(t, tenant@, *filter);
        let order = self.query_order(tenant, filter);
        let mut out: Vec<(String, Message)> = Vec::new();
        let mut m: usize = 0;
        while m < order.len()
            invariant
                m <= order@.len(),
                t == self@.messages,
                t.len() == self.messages@.len(),
                forall|j: int| 0 <= j < t.len() ==> t[j] == self.messages@[j]@,
                forall|j: int| 0 <= j < order@.len() ==> order@[j] < t.len(),
                rows_at(t, order@) == q,
                out@.len() == m,
                forall|j: int|
                    0 <= j < m ==> (#[trigger] out@[j]).0@ == q[j].cid && message_same(
                        out@[j].1,
                        q[j].message,
                    ),
            decreases order@.len() - m,
        {
            let o = order[m];
            let entry = (self.messages[o].cid.clone(), self.messages[o].message.clone());
            out.push(entry);
            m = m + 1;
        }
        out
    }
}

} // verus!
