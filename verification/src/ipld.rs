//! The IPLD data model and its DAG-CBOR encoding.
//!
//! Every value the node hashes (descriptors, messages, record id generators) is
//! first turned into an [`Ipld`] value and then encoded as DAG-CBOR: integers and
//! lengths in their shortest form, maps with their keys in canonical order
//! (shorter keys first, then bytewise), links as tag 42 over the CID bytes.

use vstd::prelude::*;

use crate::cid::Cid;

verus! {

/// An IPLD value.
///
/// Map entries are kept in the order in which they are encoded; the library's
/// own values list their keys in canonical DAG-CBOR order.
#[derive(Debug, PartialEq, Eq)]
pub enum Ipld {
    Null,
    Bool(bool),
    Integer(i64),
    String(String),
    Bytes(Vec<u8>),
    List(Vec<Ipld>),
    Dict(Vec<(String, Ipld)>),
    Link(Cid),
}

/// The big-endian bytes of `n`, `k` bytes long.
pub open spec fn be_bytes(n: nat, k: nat) -> Seq<u8>
    decreases k,
{
    if k == 0 {
        Seq::empty()
    } else {
        be_bytes(n / 256, (k - 1) as nat).push((n % 256) as u8)
    }
}

/// The CBOR head of an item of major type `major` with argument `n`, in its shortest form.
pub open spec fn cbor_head(major: u8, n: nat) -> Seq<u8> {
    let m = (major * 32) as int;
    if n < 24 {
        seq![(m + n) as u8]
    } else if n < 0x100 {
        seq![(m + 24) as u8] + be_bytes(n, 1)
    } else if n < 0x1_0000 {
        seq![(m + 25) as u8] + be_bytes(n, 2)
    } else if n < 0x1_0000_0000 {
        seq![(m + 26) as u8] + be_bytes(n, 4)
    } else {
        seq![(m + 27) as u8] + be_bytes(n, 8)
    }
}

/// The UTF-8 bytes of a string.
pub open spec fn utf8(s: Seq<char>) -> Seq<u8> {
    vstd::utf8::encode_utf8(s)
}

/// The DAG-CBOR encoding of a text string.
pub open spec fn cbor_text(s: Seq<char>) -> Seq<u8> {
    cbor_head(3, utf8(s).len()) + utf8(s)
}

/// The DAG-CBOR encoding of an IPLD value.
pub open spec fn dag_cbor(v: Ipld) -> Seq<u8>
    decreases v, 1nat,
{
    match v {
        Ipld::Null => seq![0xf6u8],
        Ipld::Bool(b) => if b {
            seq![0xf5u8]
        } else {
            seq![0xf4u8]
        },
        Ipld::Integer(i) => if i >= 0 {
            cbor_head(0, i as nat)
        } else {
            cbor_head(1, (-1 - i) as nat)
        },
        Ipld::String(s) => cbor_text(s@),
        Ipld::Bytes(b) => cbor_head(2, b@.len()) + b@,
        Ipld::List(l) => cbor_head(4, l@.len()) + dag_cbor_items(l@, l@.len()),
        Ipld::Dict(m) => cbor_head(5, m@.len()) + dag_cbor_entries(m@, m@.len()),
        Ipld::Link(c) => seq![0xd8u8, 0x2au8] + cbor_head(2, c@.len() + 1) + seq![0u8] + c@,
    }
}

/// The encodings of the first `n` items of a list, one after another.
pub open spec fn dag_cbor_items(items: Seq<Ipld>, n: nat) -> Seq<u8>
    decreases items, 0nat, n,
{
    if n == 0 || n > items.len() {
        Seq::empty()
    } else {
        dag_cbor_items(items, (n - 1) as nat) + dag_cbor(items[n - 1])
    }
}

/// The encodings of the first `n` entries of a map, key then value, one after another.
pub open spec fn dag_cbor_entries(entries: Seq<(String, Ipld)>, n: nat) -> Seq<u8>
    decreases entries, 0nat, n,
{
    if n == 0 || n > entries.len() {
        Seq::empty()
    } else {
        dag_cbor_entries(entries, (n - 1) as nat) + cbor_text(entries[n - 1].0@) + dag_cbor(
            entries[n - 1].1,
        )
    }
}

/// Appends the big-endian bytes of `n`, `k` bytes long.
fn push_be_bytes(out: &mut Vec<u8>, n: u64, k: usize)
    requires
        k <= 8,
    ensures
        final(out)@ == old(out)@ + be_bytes(n as nat, k as nat),
    decreases k,
{
    if k > 0 {
        push_be_bytes(out, n / 256, k - 1);
        out.push((n % 256) as u8);
        assert((n / 256) as nat == (n as nat) / 256);
    }
}

/// Appends the CBOR head of an item of major type `major` with argument `n`.
pub fn push_cbor_head(out: &mut Vec<u8>, major: u8, n: u64)
    requires
        major < 8,
    ensures
        final(out)@ == old(out)@ + cbor_head(major, n as nat),
{
    let m: u8 = major * 32;
    if n < 24 {
        out.push(m + n as u8);
    } else if n < 0x100 {
        out.push(m + 24);
        push_be_bytes(out, n, 1);
    } else if n < 0x1_0000 {
        out.push(m + 25);
        push_be_bytes(out, n, 2);
    } else if n < 0x1_0000_0000 {
        out.push(m + 26);
        push_be_bytes(out, n, 4);
    } else {
        out.push(m + 27);
        push_be_bytes(out, n, 8);
    }
}

/// Appends the bytes of a slice.
fn push_all(out: &mut Vec<u8>, bytes: &[u8])
    ensures
        final(out)@ == old(out)@ + bytes@,
{
    let mut i: usize = 0;
    while i < bytes.len()
        invariant
            i <= bytes@.len(),
            out@ == old(out)@ + bytes@.subrange(0, i as int),
        decreases bytes@.len() - i,
    {
        out.push(bytes[i]);
        i = i + 1;
        assert(bytes@.subrange(0, i as int) == bytes@.subrange(0, i - 1) + seq![bytes@[i - 1]]);
    }
    assert(bytes@.subrange(0, bytes@.len() as int) == bytes@);
}

/// Appends the DAG-CBOR encoding of a text string.
pub fn push_cbor_text(out: &mut Vec<u8>, s: &str)
    ensures
        final(out)@ == old(out)@ + cbor_text(s@),
{
    let bytes = s.as_bytes();
    push_cbor_head(out, 3, bytes.len() as u64);
    push_all(out, bytes);
}

/// Appends the DAG-CBOR encoding of `v`.
pub fn push_dag_cbor(out: &mut Vec<u8>, v: &Ipld)
    ensures
        final(out)@ == old(out)@ + dag_cbor(*v),
    decreases *v,
{
    match v {
        Ipld::Null => {
            out.push(0xf6);
        },
        Ipld::Bool(b) => {
            if *b {
                out.push(0xf5);
            } else {
                out.push(0xf4);
            }
        },
        Ipld::Integer(i) => {
            if *i >= 0 {
                push_cbor_head(out, 0, *i as u64);
            } else {
                let n: i64 = -1 - *i;
                push_cbor_head(out, 1, n as u64);
            }
        },
        Ipld::String(s) => {
            push_cbor_text(out, s.as_str());
        },
        Ipld::Bytes(b) => {
            push_cbor_head(out, 2, b.len() as u64);
            push_all(out, b.as_slice());
        },
        Ipld::List(l) => {
            push_cbor_head(out, 4, l.len() as u64);
            let ghost start = out@;
            let mut i: usize = 0;
            while i < l.len()
                invariant
                    i <= l@.len(),
                    *v == Ipld::List(*l),
                    out@ == start + dag_cbor_items(l@, i as nat),
                decreases l@.len() - i,
            {
                assert(decreases_to!(*v => l@[i as int])) by {
                    assert(decreases_to!(*v => v->List_0));
                    assert(decreases_to!(*l => l@));
                    assert(decreases_to!(l@ => l@[i as int]));
                }
                push_dag_cbor(out, &l[i]);
                i = i + 1;
            }
        },
        Ipld::Dict(m) => {
            push_cbor_head(out, 5, m.len() as u64);
            let ghost start = out@;
            let mut i: usize = 0;
            while i < m.len()
                invariant
                    i <= m@.len(),
                    *v == Ipld::Dict(*m),
                    out@ == start + dag_cbor_entries(m@, i as nat),
                decreases m@.len() - i,
            {
                let entry = &m[i];
                assert(decreases_to!(*v => m@[i as int].1)) by {
                    assert(decreases_to!(*v => v->Dict_0));
                    assert(decreases_to!(*m => m@));
                    assert(decreases_to!(m@ => m@[i as int]));
                    assert(decreases_to!(m@[i as int] => m@[i as int].1));
                }
                push_cbor_text(out, entry.0.as_str());
                push_dag_cbor(out, &entry.1);
                i = i + 1;
            }
        },
        Ipld::Link(c) => {
            let bytes = c.to_bytes();
            out.push(0xd8);
            out.push(0x2a);
            push_cbor_head(out, 2, bytes.len() as u64 + 1);
            out.push(0);
            push_all(out, bytes.as_slice());
        },
    }
}

/// The DAG-CBOR encoding of `v`.
pub fn encode_dag_cbor(v: &Ipld) -> (bytes: Vec<u8>)
    ensures
        bytes@ == dag_cbor(*v),
{
    let mut out: Vec<u8> = Vec::new();
    push_dag_cbor(&mut out, v);
    assert(out@ == Seq::<u8>::empty() + dag_cbor(*v));
    out
}

/// The DAG-CBOR encoding of a map whose entries, in order, are the given keys and
/// encoded values.
pub open spec fn cbor_map(entries: Seq<(Seq<char>, Seq<u8>)>) -> Seq<u8> {
    cbor_head(5, entries.len()) + cbor_entries(entries)
}

/// The keys and encoded values of a map, one after another.
pub open spec fn cbor_entries(entries: Seq<(Seq<char>, Seq<u8>)>) -> Seq<u8>
    decreases entries.len(),
{
    if entries.len() == 0 {
        Seq::empty()
    } else {
        cbor_entries(entries.drop_last()) + cbor_text(entries.last().0) + entries.last().1
    }
}

/// An entry whose value is a text string.
pub open spec fn text_entry(key: Seq<char>, value: Seq<char>) -> (Seq<char>, Seq<u8>) {
    (key, cbor_text(value))
}

/// A one-entry sequence when `value` is present, an empty one otherwise.
pub open spec fn opt_text_entry(key: Seq<char>, value: Option<String>) -> Seq<(Seq<char>, Seq<u8>)> {
    match value {
        Some(v) => seq![text_entry(key, v@)],
        None => Seq::empty(),
    }
}

/// The DAG-CBOR encoding of a boolean.
pub open spec fn cbor_bool(b: bool) -> Seq<u8> {
    if b {
        seq![0xf5u8]
    } else {
        seq![0xf4u8]
    }
}

/// The DAG-CBOR encoding of null.
pub open spec fn cbor_null() -> Seq<u8> {
    seq![0xf6u8]
}

/// Builds the encoding of a map one entry at a time.
pub struct MapWriter {
    count: u64,
    body: Vec<u8>,
    entries: Ghost<Seq<(Seq<char>, Seq<u8>)>>,
}

impl MapWriter {
    /// The entries written so far.
    pub closed spec fn entries(&self) -> Seq<(Seq<char>, Seq<u8>)> {
        self.entries@
    }

    /// The writer's fields agree with its entries.
    pub closed spec fn wf(&self) -> bool {
        &&& self.count == self.entries@.len()
        &&& self.body@ == cbor_entries(self.entries@)
    }

    /// A writer with no entries.
    pub fn new() -> (w: MapWriter)
        ensures
            w.wf(),
            w.entries() == Seq::<(Seq<char>, Seq<u8>)>::empty(),
    {
        MapWriter { count: 0, body: Vec::new(), entries: Ghost(Seq::empty()) }
    }

    /// Adds an entry with an encoded value.
    pub fn push_encoded(&mut self, key: &str, value: &[u8])
        requires
            old(self).wf(),
            old(self).entries().len() < 1000,
        ensures
            final(self).wf(),
            final(self).entries() == old(self).entries().push((key@, value@)),
    {
        push_cbor_text(&mut self.body, key);
        push_all(&mut self.body, value);
        self.count = self.count + 1;
        let ghost e = self.entries@.push((key@, value@));
        assert(e.drop_last() =~= self.entries@);
        self.entries = Ghost(e);
    }

    /// Adds an entry whose value is a text string.
    pub fn push_text(&mut self, key: &str, value: &str)
        requires
            old(self).wf(),
            old(self).entries().len() < 1000,
        ensures
            final(self).wf(),
            final(self).entries() == old(self).entries().push(text_entry(key@, value@)),
    {
        let mut v: Vec<u8> = Vec::new();
        push_cbor_text(&mut v, value);
        assert(v@ == cbor_text(value@));
        self.push_encoded(key, v.as_slice());
    }

    /// Adds an entry whose value is a text string, when the value is present.
    pub fn push_opt_text(&mut self, key: &str, value: &Option<String>)
        requires
            old(self).wf(),
            old(self).entries().len() < 1000,
        ensures
            final(self).wf(),
            final(self).entries() == old(self).entries() + opt_text_entry(key@, *value),
    {
        match value {
            Some(v) => {
                self.push_text(key, v.as_str());
            },
            None => {
                assert(self.entries@ + Seq::empty() == self.entries@);
            },
        }
    }

    /// The encoding of the map.
    pub fn finish(self) -> (bytes: Vec<u8>)
        requires
            self.wf(),
        ensures
            bytes@ == cbor_map(self.entries()),
    {
        let mut out: Vec<u8> = Vec::new();
        push_cbor_head(&mut out, 5, self.count);
        push_all(&mut out, self.body.as_slice());
        out
    }
}

} // verus!
