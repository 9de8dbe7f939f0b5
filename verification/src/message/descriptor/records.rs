//! Descriptors of the Records interface.

use vstd::prelude::*;

use crate::ipld::{
    cbor_bool, cbor_map, cbor_null, cbor_text, opt_text_entry, text_entry, MapWriter,
};
use crate::timestamp::{now_utc, rfc3339, rfc3339_writable, Timestamp};
use crate::util::{timestamp_error, CborEncodeError};

use super::Encryption;

verus! {

/// A clone of an optional string.
pub fn clone_opt_string(s: &Option<String>) -> (c: Option<String>)
    ensures
        c == *s,
{
    match s {
        Some(v) => Some(v.clone()),
        None => None,
    }
}

/// The entry of an instant, written in RFC 3339.
pub open spec fn timestamp_entry(key: Seq<char>, t: Timestamp) -> (Seq<char>, Seq<u8>) {
    text_entry(key, rfc3339(t.unix_nanos))
}

/// Adds the entry of an instant, or fails when RFC 3339 cannot write it.
fn push_timestamp(w: &mut MapWriter, key: &str, t: &Timestamp) -> (r: Result<(), CborEncodeError>)
    requires
        old(w).wf(),
        old(w).entries().len() < 1000,
    ensures
        r is Ok <==> rfc3339_writable(*t),
        r is Ok ==> final(w).wf() && final(w).entries() == old(w).entries().push(
            timestamp_entry(key@, *t),
        ),
        r is Err ==> r->Err_0 is Serde,
{
    match t.to_rfc3339() {
        Some(text) => {
            w.push_text(key, text.as_str());
            Ok(())
        },
        None => Err(timestamp_error()),
    }
}

/// Reads a record.
#[derive(Debug, PartialEq, Eq)]
pub struct RecordsRead {
    pub message_timestamp: Timestamp,
    pub record_id: String,
}

impl RecordsRead {
    /// A read of `record_id`, stamped with the current time.
    pub fn new(record_id: String) -> (r: RecordsRead)
        ensures
            r.record_id == record_id,
    {
        RecordsRead { message_timestamp: now_utc(), record_id }
    }

    /// The map entries of the descriptor, in encoding order.
    pub open spec fn entries(self) -> Seq<(Seq<char>, Seq<u8>)> {
        seq![
            text_entry("method"@, "Read"@),
            text_entry("recordId"@, self.record_id@),
            text_entry("interface"@, "Records"@),
            timestamp_entry("messageTimestamp"@, self.message_timestamp),
        ]
    }

    /// Whether every instant of the descriptor can be written.
    pub open spec fn encodable(self) -> bool {
        rfc3339_writable(self.message_timestamp)
    }

    /// The DAG-CBOR encoding of the descriptor.
    pub fn to_cbor(&self) -> (r: Result<Vec<u8>, CborEncodeError>)
        ensures
            r is Ok <==> self.encodable(),
            r matches Ok(b) ==> b@ == cbor_map(self.entries()),
            r matches Err(e) ==> e is Serde,
    {
        let mut w = MapWriter::new();
        w.push_text("method", "Read");
        w.push_text("recordId", self.record_id.as_str());
        w.push_text("interface", "Records");
        push_timestamp(&mut w, "messageTimestamp", &self.message_timestamp)?;
        assert(w.entries() =~= self.entries());
        Ok(w.finish())
    }
}

impl Clone for RecordsRead {
    fn clone(&self) -> (c: Self)
        ensures
            c == *self,
    {
        RecordsRead { message_timestamp: self.message_timestamp, record_id: self.record_id.clone() }
    }
}

impl Default for RecordsRead {
    /// A read of the empty record id, stamped with the current time.
    fn default() -> (r: Self)
        ensures
            r.record_id@ == Seq::<char>::empty(),
    {
        RecordsRead { message_timestamp: now_utc(), record_id: String::new() }
    }
}

/// The order in which a query sorts its results.
#[derive(Clone, Copy, Debug, PartialEq, Eq)]
pub enum FilterDateSort {
    CreatedAscending,
    CreatedDescending,
    PublishedAscending,
    PublishedDescending,
}

/// A range of creation dates, as texts.
#[derive(Debug, PartialEq, Eq)]
pub struct FilterDateCreated {
    pub from: Option<String>,
    pub to: Option<String>,
}

impl Clone for FilterDateCreated {
    fn clone(&self) -> (c: Self)
        ensures
            c == *self,
    {
        FilterDateCreated { from: clone_opt_string(&self.from), to: clone_opt_string(&self.to) }
    }
}

/// The encoding of an optional text that is written as null when absent.
pub open spec fn cbor_text_or_null(s: Option<String>) -> Seq<u8> {
    match s {
        Some(v) => cbor_text(v@),
        None => cbor_null(),
    }
}

fn push_text_or_null(w: &mut MapWriter, key: &str, s: &Option<String>)
    requires
        old(w).wf(),
        old(w).entries().len() < 1000,
    ensures
        final(w).wf(),
        final(w).entries() == old(w).entries().push((key@, cbor_text_or_null(*s))),
{
    match s {
        Some(v) => {
            w.push_text(key, v.as_str());
        },
        None => {
            let null: [u8; 1] = [0xf6u8];
            assert(null@ == cbor_null());
            w.push_encoded(key, &null);
        },
    }
}

impl FilterDateCreated {
    /// The map entries, in encoding order; absent bounds are written as null.
    pub open spec fn entries(self) -> Seq<(Seq<char>, Seq<u8>)> {
        seq![("to"@, cbor_text_or_null(self.to)), ("from"@, cbor_text_or_null(self.from))]
    }

    /// The DAG-CBOR encoding of the range.
    pub fn to_cbor(&self) -> (b: Vec<u8>)
        ensures
            b@ == cbor_map(self.entries()),
    {
        let mut w = MapWriter::new();
        push_text_or_null(&mut w, "to", &self.to);
        push_text_or_null(&mut w, "from", &self.from);
        assert(w.entries() =~= self.entries());
        w.finish()
    }
}

/// Which records a query selects.
#[derive(Debug, PartialEq, Eq)]
pub struct Filter {
    pub attester: Option<String>,
    pub context_id: Option<String>,
    /// A media type, such as `application/json`.
    pub data_format: Option<String>,
    pub date_sort: Option<FilterDateSort>,
    pub message_timestamp: Option<FilterDateCreated>,
    pub parent_id: Option<String>,
    pub protocol: Option<String>,
    pub protocol_version: Option<String>,
    pub recipient: Option<String>,
    pub record_id: Option<String>,
    pub schema: Option<String>,
}

impl Clone for Filter {
    fn clone(&self) -> (c: Self)
        ensures
            c == *self,
    {
        Filter {
            attester: clone_opt_string(&self.attester),
            context_id: clone_opt_string(&self.context_id),
            data_format: clone_opt_string(&self.data_format),
            date_sort: self.date_sort,
            message_timestamp: match &self.message_timestamp {
                Some(m) => Some(m.clone()),
                None => None,
            },
            parent_id: clone_opt_string(&self.parent_id),
            protocol: clone_opt_string(&self.protocol),
            protocol_version: clone_opt_string(&self.protocol_version),
            recipient: clone_opt_string(&self.recipient),
            record_id: clone_opt_string(&self.record_id),
            schema: clone_opt_string(&self.schema),
        }
    }
}

impl Default for Filter {
    /// The filter that selects every record.
    fn default() -> (f: Self)
        ensures
            f == Filter::empty(),
    {
        Filter {
            attester: None,
            context_id: None,
            data_format: None,
            date_sort: None,
            message_timestamp: None,
            parent_id: None,
            protocol: None,
            protocol_version: None,
            recipient: None,
            record_id: None,
            schema: None,
        }
    }
}

impl Filter {
    /// The filter with no field set.
    pub open spec fn empty() -> Filter {
        Filter {
            attester: None,
            context_id: None,
            data_format: None,
            date_sort: None,
            message_timestamp: None,
            parent_id: None,
            protocol: None,
            protocol_version: None,
            recipient: None,
            record_id: None,
            schema: None,
        }
    }

    /// The map entries of the filter, in encoding order; absent fields are left out.
    /// A sort order is written as null, as an untagged unit variant is.
    pub open spec fn entries(self) -> Seq<(Seq<char>, Seq<u8>)> {
        opt_text_entry("schema"@, self.schema) + opt_text_entry("attester"@, self.attester)
            + (match self.date_sort {
            Some(_) => seq![("dateSort"@, cbor_null())],
            None => Seq::empty(),
        }) + opt_text_entry("parentId"@, self.parent_id) + opt_text_entry(
            "protocol"@,
            self.protocol,
        ) + opt_text_entry("recordId"@, self.record_id) + opt_text_entry(
            "contextId"@,
            self.context_id,
        ) + opt_text_entry("recipient"@, self.recipient) + opt_text_entry(
            "dataFormat"@,
            self.data_format,
        ) + opt_text_entry("protocolVersion"@, self.protocol_version)
            + (match self.message_timestamp {
            Some(m) => seq![("messageTimestamp"@, cbor_map(m.entries()))],
            None => Seq::empty(),
        })
    }

    /// The DAG-CBOR encoding of the filter.
    pub fn to_cbor(&self) -> (b: Vec<u8>)
        ensures
            b@ == cbor_map(self.entries()),
    {
        let mut w = MapWriter::new();
        w.push_opt_text("schema", &self.schema);
        w.push_opt_text("attester", &self.attester);
        let ghost e2 = w.entries();
        match self.date_sort {
            Some(_) => {
                let null: [u8; 1] = [0xf6u8];
                assert(null@ == cbor_null());
                w.push_encoded("dateSort", &null);
            },
            None => {},
        }
        assert(w.entries() =~= e2 + (match self.date_sort {
            Some(_) => seq![("dateSort"@, cbor_null())],
            None => Seq::empty(),
        }));
        w.push_opt_text("parentId", &self.parent_id);
        w.push_opt_text("protocol", &self.protocol);
        w.push_opt_text("recordId", &self.record_id);
        w.push_opt_text("contextId", &self.context_id);
        w.push_opt_text("recipient", &self.recipient);
        w.push_opt_text("dataFormat", &self.data_format);
        w.push_opt_text("protocolVersion", &self.protocol_version);
        let ghost e10 = w.entries();
        match &self.message_timestamp {
            Some(m) => {
                let enc = m.to_cbor();
                w.push_encoded("messageTimestamp", enc.as_slice());
            },
            None => {},
        }
        assert(w.entries() =~= e10 + (match self.message_timestamp {
            Some(m) => seq![("messageTimestamp"@, cbor_map(m.entries()))],
            None => Seq::empty(),
        }));
        assert(w.entries() =~= self.entries());
        w.finish()
    }
}

/// Queries records.
#[derive(Debug, PartialEq, Eq)]
pub struct RecordsQuery {
    pub filter: Option<Filter>,
    pub message_timestamp: Timestamp,
}

impl RecordsQuery {
    /// A query with the given filter, stamped with the current time.
    pub fn new(filter: Filter) -> (q: RecordsQuery)
        ensures
            q.filter == Some(filter),
    {
        RecordsQuery { filter: Some(filter), message_timestamp: now_utc() }
    }

    /// The map entries of the descriptor, in encoding order.
    pub open spec fn entries(self) -> Seq<(Seq<char>, Seq<u8>)> {
        (match self.filter {
            Some(f) => seq![("filter"@, cbor_map(f.entries()))],
            None => Seq::empty(),
        }) + seq![
            text_entry("method"@, "Query"@),
            text_entry("interface"@, "Records"@),
            timestamp_entry("messageTimestamp"@, self.message_timestamp),
        ]
    }

    /// Whether every instant of the descriptor can be written.
    pub open spec fn encodable(self) -> bool {
        rfc3339_writable(self.message_timestamp)
    }

    /// The DAG-CBOR encoding of the descriptor.
    pub fn to_cbor(&self) -> (r: Result<Vec<u8>, CborEncodeError>)
        ensures
            r is Ok <==> self.encodable(),
            r matches Ok(b) ==> b@ == cbor_map(self.entries()),
            r matches Err(e) ==> e is Serde,
    {
        let mut w = MapWriter::new();
        match &self.filter {
            Some(f) => {
                let enc = f.to_cbor();
                w.push_encoded("filter", enc.as_slice());
            },
            None => {},
        }
        w.push_text("method", "Query");
        w.push_text("interface", "Records");
        push_timestamp(&mut w, "messageTimestamp", &self.message_timestamp)?;
        assert(w.entries() =~= self.entries());
        Ok(w.finish())
    }
}

impl Clone for RecordsQuery {
    fn clone(&self) -> (c: Self)
        ensures
            c == *self,
    {
        RecordsQuery {
            filter: match &self.filter {
                Some(f) => Some(f.clone()),
                None => None,
            },
            message_timestamp: self.message_timestamp,
        }
    }
}

impl Default for RecordsQuery {
    /// A query without a filter, stamped with the current time.
    fn default() -> (q: Self)
        ensures
            q.filter is None,
    {
        RecordsQuery { filter: None, message_timestamp: now_utc() }
    }
}

/// Writes a record.
#[derive(Debug, PartialEq, Eq)]
pub struct RecordsWrite {
    pub data_cid: Option<String>,
    pub date_published: Option<Timestamp>,
    pub encryption: Option<Encryption>,
    pub message_timestamp: Timestamp,
    pub parent_id: Option<String>,
    pub protocol: Option<String>,
    pub protocol_version: Option<String>,
    pub published: Option<bool>,
    pub schema: Option<String>,
}

impl RecordsWrite {
    /// The map entries of the descriptor, in encoding order; absent fields are left out.
    pub open spec fn entries(self) -> Seq<(Seq<char>, Seq<u8>)> {
        self.head_entries() + self.middle_entries() + self.tail_entries()
    }

    /// The entries up to the interface.
    pub open spec fn head_entries(self) -> Seq<(Seq<char>, Seq<u8>)> {
        seq![text_entry("method"@, "Write"@)] + opt_text_entry("schema"@, self.schema)
            + opt_text_entry("data_cid"@, self.data_cid) + opt_text_entry(
            "parentId"@,
            self.parent_id,
        ) + opt_text_entry("protocol"@, self.protocol) + seq![
            text_entry("interface"@, "Records"@),
        ]
    }

    /// The publication flag, the encryption and the publication date.
    pub open spec fn middle_entries(self) -> Seq<(Seq<char>, Seq<u8>)> {
        (match self.published {
            Some(p) => seq![("published"@, cbor_bool(p))],
            None => Seq::empty(),
        }) + (match self.encryption {
            Some(e) => seq![text_entry("encryption"@, e.name())],
            None => Seq::empty(),
        }) + (match self.date_published {
            Some(t) => seq![timestamp_entry("datePublished"@, t)],
            None => Seq::empty(),
        })
    }

    /// The protocol version and the message timestamp.
    pub open spec fn tail_entries(self) -> Seq<(Seq<char>, Seq<u8>)> {
        opt_text_entry("protocolVersion"@, self.protocol_version) + seq![
            timestamp_entry("messageTimestamp"@, self.message_timestamp),
        ]
    }

    /// Whether every instant of the descriptor can be written.
    pub open spec fn encodable(self) -> bool {
        &&& rfc3339_writable(self.message_timestamp)
        &&& self.date_published matches Some(t) ==> rfc3339_writable(t)
    }

    fn push_head(&self, w: &mut MapWriter)
        requires
            old(w).wf(),
            old(w).entries().len() == 0,
        ensures
            final(w).wf(),
            final(w).entries() == self.head_entries(),
    {
        w.push_text("method", "Write");
        w.push_opt_text("schema", &self.schema);
        w.push_opt_text("data_cid", &self.data_cid);
        w.push_opt_text("parentId", &self.parent_id);
        w.push_opt_text("protocol", &self.protocol);
        w.push_text("interface", "Records");
        assert(w.entries() =~= self.head_entries());
    }

    fn push_middle(&self, w: &mut MapWriter) -> (r: Result<(), CborEncodeError>)
        requires
            old(w).wf(),
            old(w).entries().len() <= 6,
        ensures
            r is Ok <==> (self.date_published matches Some(t) ==> rfc3339_writable(t)),
            r is Ok ==> final(w).wf() && final(w).entries() == old(w).entries()
                + self.middle_entries(),
            r matches Err(e) ==> e is Serde,
    {
        let ghost e0 = w.entries();
        match self.published {
            Some(p) => {
                let b: [u8; 1] = [if p {
                    0xf5u8
                } else {
                    0xf4u8
                }];
                assert(b@ == cbor_bool(p));
                w.push_encoded("published", &b);
            },
            None => {},
        }
        let ghost e1 = w.entries();
        assert(e1 =~= e0 + (match self.published {
            Some(p) => seq![("published"@, cbor_bool(p))],
            None => Seq::empty(),
        }));
        match self.encryption {
            Some(e) => {
                w.push_text("encryption", e.as_str());
            },
            None => {},
        }
        let ghost e2 = w.entries();
        assert(e2 =~= e1 + (match self.encryption {
            Some(e) => seq![text_entry("encryption"@, e.name())],
            None => Seq::empty(),
        }));
        match &self.date_published {
            Some(t) => {
                push_timestamp(w, "datePublished", t)?;
            },
            None => {},
        }
        assert(w.entries() =~= e2 + (match self.date_published {
            Some(t) => seq![timestamp_entry("datePublished"@, t)],
            None => Seq::empty(),
        }));
        assert(w.entries() =~= e0 + self.middle_entries());
        Ok(())
    }

    /// The DAG-CBOR encoding of the descriptor.
    pub fn to_cbor(&self) -> (r: Result<Vec<u8>, CborEncodeError>)
        ensures
            r is Ok <==> self.encodable(),
            r matches Ok(b) ==> b@ == cbor_map(self.entries()),
            r matches Err(e) ==> e is Serde,
    {
        let mut w = MapWriter::new();
        self.push_head(&mut w);
        self.push_middle(&mut w)?;
        let ghost e = w.entries();
        w.push_opt_text("protocolVersion", &self.protocol_version);
        push_timestamp(&mut w, "messageTimestamp", &self.message_timestamp)?;
        assert(w.entries() =~= e + self.tail_entries());
        assert(w.entries() =~= self.entries());
        Ok(w.finish())
    }
}

impl Clone for RecordsWrite {
    fn clone(&self) -> (c: Self)
        ensures
            c == *self,
    {
        RecordsWrite {
            data_cid: clone_opt_string(&self.data_cid),
            date_published: self.date_published,
            encryption: self.encryption,
            message_timestamp: self.message_timestamp,
            parent_id: clone_opt_string(&self.parent_id),
            protocol: clone_opt_string(&self.protocol),
            protocol_version: clone_opt_string(&self.protocol_version),
            published: self.published,
            schema: clone_opt_string(&self.schema),
        }
    }
}

impl Default for RecordsWrite {
    /// A write with no optional field set but the publication date, which is the
    /// same current time as the message timestamp.
    fn default() -> (w: Self)
        ensures
            w.data_cid is None,
            w.date_published == Some(w.message_timestamp),
            w.encryption is None,
            w.parent_id is None,
            w.protocol is None,
            w.protocol_version is None,
            w.published is None,
            w.schema is None,
    {
        let time = now_utc();
        RecordsWrite {
            data_cid: None,
            date_published: Some(time),
            encryption: None,
            message_timestamp: time,
            parent_id: None,
            protocol: None,
            protocol_version: None,
            published: None,
            schema: None,
        }
    }
}

/// Commits a record to a written entry.
#[derive(Debug, PartialEq, Eq)]
pub struct RecordsCommit {
    pub parent_id: String,
    pub message_timestamp: Timestamp,
}

impl RecordsCommit {
    /// A commit onto the entry `parent_id`, stamped with the current time.
    pub fn new(parent_id: String) -> (c: RecordsCommit)
        ensures
            c.parent_id == parent_id,
    {
        RecordsCommit { parent_id, message_timestamp: now_utc() }
    }

    /// The map entries of the descriptor, in encoding order.
    pub open spec fn entries(self) -> Seq<(Seq<char>, Seq<u8>)> {
        seq![
            text_entry("method"@, "Commit"@),
            text_entry("parentId"@, self.parent_id@),
            text_entry("interface"@, "Records"@),
            timestamp_entry("messageTimestamp"@, self.message_timestamp),
        ]
    }

    /// Whether every instant of the descriptor can be written.
    pub open spec fn encodable(self) -> bool {
        rfc3339_writable(self.message_timestamp)
    }

    /// The DAG-CBOR encoding of the descriptor.
    pub fn to_cbor(&self) -> (r: Result<Vec<u8>, CborEncodeError>)
        ensures
            r is Ok <==> self.encodable(),
            r matches Ok(b) ==> b@ == cbor_map(self.entries()),
            r matches Err(e) ==> e is Serde,
    {
        let mut w = MapWriter::new();
        w.push_text("method", "Commit");
        w.push_text("parentId", self.parent_id.as_str());
        w.push_text("interface", "Records");
        push_timestamp(&mut w, "messageTimestamp", &self.message_timestamp)?;
        assert(w.entries() =~= self.entries());
        Ok(w.finish())
    }
}

impl Clone for RecordsCommit {
    fn clone(&self) -> (c: Self)
        ensures
            c == *self,
    {
        RecordsCommit { parent_id: self.parent_id.clone(), message_timestamp: self.message_timestamp }
    }
}

impl Default for RecordsCommit {
    /// A commit onto the empty entry id, stamped with the current time.
    fn default() -> (c: Self)
        ensures
            c.parent_id@ == Seq::<char>::empty(),
    {
        RecordsCommit { parent_id: String::new(), message_timestamp: now_utc() }
    }
}

/// Deletes a record.
#[derive(Debug, PartialEq, Eq)]
pub struct RecordsDelete {
    pub record_id: String,
    pub message_timestamp: Timestamp,
}

impl RecordsDelete {
    /// The map entries of the descriptor, in encoding order.
    pub open spec fn entries(self) -> Seq<(Seq<char>, Seq<u8>)> {
        seq![
            text_entry("method"@, "Delete"@),
            text_entry("recordId"@, self.record_id@),
            text_entry("interface"@, "Records"@),
            timestamp_entry("messageTimestamp"@, self.message_timestamp),
        ]
    }

    /// Whether every instant of the descriptor can be written.
    pub open spec fn encodable(self) -> bool {
        rfc3339_writable(self.message_timestamp)
    }

    /// The DAG-CBOR encoding of the descriptor.
    pub fn to_cbor(&self) -> (r: Result<Vec<u8>, CborEncodeError>)
        ensures
            r is Ok <==> self.encodable(),
            r matches Ok(b) ==> b@ == cbor_map(self.entries()),
            r matches Err(e) ==> e is Serde,
    {
        let mut w = MapWriter::new();
        w.push_text("method", "Delete");
        w.push_text("recordId", self.record_id.as_str());
        w.push_text("interface", "Records");
        push_timestamp(&mut w, "messageTimestamp", &self.message_timestamp)?;
        assert(w.entries() =~= self.entries());
        Ok(w.finish())
    }
}

impl Clone for RecordsDelete {
    fn clone(&self) -> (c: Self)
        ensures
            c == *self,
    {
        RecordsDelete { record_id: self.record_id.clone(), message_timestamp: self.message_timestamp }
    }
}

impl Default for RecordsDelete {
    /// A delete of the empty record id, stamped with the current time.
    fn default() -> (d: Self)
        ensures
            d.record_id@ == Seq::<char>::empty(),
    {
        RecordsDelete { record_id: String::new(), message_timestamp: now_utc() }
    }
}

} // verus!
