//! Record data and its content identifier.
//!
//! The CID of a record's data is that of its DAG-PB form: a scalar value becomes a
//! node whose data is the value's DAG-CBOR encoding; a link becomes a node with
//! that one link; a list or a map becomes a node with one link per element, to
//! the element's own DAG-PB CID (named by the map key, in the order of the keys).

use vstd::prelude::*;

use crate::cid::{
    cid_from_bytes, cid_v1, is_leb128_run, law_varint_is_leb128, leb128_value, varint, Cid, DAG_PB,
};
use crate::ipld::{cbor_head, cbor_map, cbor_text, dag_cbor, encode_dag_cbor, utf8, Ipld, MapWriter};

verus! {

/// Encrypted record data, as a JWE.
#[derive(Debug, PartialEq, Eq)]
pub struct EncryptedData {
    pub protected: String,
    pub recipients: Vec<String>,
    pub ciphertext: String,
    pub iv: String,
    pub tag: String,
}

/// Record data.
#[derive(Debug, PartialEq, Eq)]
pub enum Data {
    Base64(String),
    Encrypted(EncryptedData),
}

/// A copy of a list of strings.
pub fn clone_strings(v: &Vec<String>) -> (c: Vec<String>)
    ensures
        c@ == v@,
{
    let mut c: Vec<String> = Vec::new();
    let mut i: usize = 0;
    while i < v.len()
        invariant
            i <= v@.len(),
            c@ == v@.subrange(0, i as int),
        decreases v@.len() - i,
    {
        c.push(v[i].clone());
        i = i + 1;
        assert(c@ =~= v@.subrange(0, i as int));
    }
    assert(v@.subrange(0, v@.len() as int) =~= v@);
    c
}

impl Clone for EncryptedData {
    fn clone(&self) -> (c: Self)
        ensures
            c.protected == self.protected,
            c.recipients@ == self.recipients@,
            c.ciphertext == self.ciphertext,
            c.iv == self.iv,
            c.tag == self.tag,
    {
        EncryptedData {
            protected: self.protected.clone(),
            recipients: clone_strings(&self.recipients),
            ciphertext: self.ciphertext.clone(),
            iv: self.iv.clone(),
            tag: self.tag.clone(),
        }
    }
}

/// The encodings of the first `n` strings of a list, one after another.
pub open spec fn cbor_texts(items: Seq<String>, n: nat) -> Seq<u8>
    decreases n,
{
    if n == 0 || n > items.len() {
        Seq::empty()
    } else {
        cbor_texts(items, (n - 1) as nat) + cbor_text(items[n - 1]@)
    }
}

/// The DAG-CBOR encoding of a list of strings.
pub open spec fn cbor_text_list(items: Seq<String>) -> Seq<u8> {
    crate::ipld::cbor_head(4, items.len()) + cbor_texts(items, items.len())
}

impl EncryptedData {
    /// The map entries, in encoding order.
    pub open spec fn entries(self) -> Seq<(Seq<char>, Seq<u8>)> {
        seq![
            ("iv"@, cbor_text(self.iv@)),
            ("tag"@, cbor_text(self.tag@)),
            ("protected"@, cbor_text(self.protected@)),
            ("ciphertext"@, cbor_text(self.ciphertext@)),
            ("recipients"@, cbor_text_list(self.recipients@)),
        ]
    }

    /// The DAG-CBOR encoding of the encrypted data.
    pub fn to_cbor(&self) -> (b: Vec<u8>)
        ensures
            b@ == cbor_map(self.entries()),
    {
        let mut list: Vec<u8> = Vec::new();
        crate::ipld::push_cbor_head(&mut list, 4, self.recipients.len() as u64);
        let ghost start = list@;
        let mut i: usize = 0;
        while i < self.recipients.len()
            invariant
                i <= self.recipients@.len(),
                list@ == start + cbor_texts(self.recipients@, i as nat),
            decreases self.recipients@.len() - i,
        {
            crate::ipld::push_cbor_text(&mut list, self.recipients[i].as_str());
            i = i + 1;
        }
        let mut w = MapWriter::new();
        w.push_text("iv", self.iv.as_str());
        w.push_text("tag", self.tag.as_str());
        w.push_text("protected", self.protected.as_str());
        w.push_text("ciphertext", self.ciphertext.as_str());
        w.push_encoded("recipients", list.as_slice());
        assert(w.entries() =~= self.entries());
        w.finish()
    }
}

impl Clone for Data {
    fn clone(&self) -> (c: Self)
        ensures
            match (*self, c) {
                (Data::Base64(a), Data::Base64(b)) => a == b,
                (Data::Encrypted(a), Data::Encrypted(b)) => a.protected == b.protected
                    && a.recipients@ == b.recipients@ && a.ciphertext == b.ciphertext && a.iv
                    == b.iv && a.tag == b.tag,
                _ => false,
            },
    {
        match self {
            Data::Base64(s) => Data::Base64(s.clone()),
            Data::Encrypted(e) => Data::Encrypted(e.clone()),
        }
    }
}

/// The DAG-CBOR encoding of record data: a one-entry map from the variant name to
/// the content.
pub open spec fn data_cbor(d: Data) -> Seq<u8> {
    match d {
        Data::Base64(s) => cbor_map(seq![("Base64"@, cbor_text(s@))]),
        Data::Encrypted(e) => cbor_map(seq![("Encrypted"@, cbor_map(e.entries()))]),
    }
}

/// A DAG-PB link field: the link's CID and optional name, inside a `Links` field.
pub open spec fn pb_link(hash: Seq<u8>, name: Option<Seq<char>>) -> Seq<u8> {
    let link = seq![0x0au8] + varint(hash.len()) + hash + match name {
        Some(n) => seq![0x12u8] + varint(utf8(n).len()) + utf8(n),
        None => Seq::empty(),
    };
    seq![0x12u8] + varint(link.len()) + link
}

/// Whether text `a` orders strictly before text `b`, character by character; for
/// UTF-8 text this is the order of the bytes, in which a map's keys are listed.
pub open spec fn text_lt(a: Seq<char>, b: Seq<char>) -> bool
    decreases a.len(),
{
    if a.len() == 0 {
        b.len() > 0
    } else if b.len() == 0 {
        false
    } else if a[0] != b[0] {
        (a[0] as u32) < (b[0] as u32)
    } else {
        text_lt(a.drop_first(), b.drop_first())
    }
}

/// Whether every map in an IPLD value lists its entries by strictly ascending key,
/// as a map keeps them: distinct keys, in the order of their bytes.
pub open spec fn keys_ordered(v: Ipld) -> bool
    decreases v, 1nat,
{
    match v {
        Ipld::List(l) => items_keys_ordered(l@, l@.len()),
        Ipld::Dict(m) => {
            &&& forall|i: int, j: int|
                0 <= i < j < m@.len() ==> text_lt(#[trigger] m@[i].0@, #[trigger] m@[j].0@)
            &&& entries_keys_ordered(m@, m@.len())
        },
        _ => true,
    }
}

/// Whether the first `n` items of a list have their maps' keys in order.
pub open spec fn items_keys_ordered(items: Seq<Ipld>, n: nat) -> bool
    decreases items, 0nat, n,
{
    if n == 0 || n > items.len() {
        true
    } else {
        items_keys_ordered(items, (n - 1) as nat) && keys_ordered(items[n - 1])
    }
}

/// Whether the values of the first `n` entries of a map have their maps' keys in order.
pub open spec fn entries_keys_ordered(entries: Seq<(String, Ipld)>, n: nat) -> bool
    decreases entries, 0nat, n,
{
    if n == 0 || n > entries.len() {
        true
    } else {
        entries_keys_ordered(entries, (n - 1) as nat) && keys_ordered(entries[n - 1].1)
    }
}

proof fn lemma_items_keys_ordered(items: Seq<Ipld>, n: nat, i: int)
    requires
        items_keys_ordered(items, n),
        0 <= i < n <= items.len(),
    ensures
        keys_ordered(items[i]),
    decreases n,
{
    if i < n - 1 {
        lemma_items_keys_ordered(items, (n - 1) as nat, i);
    }
}

proof fn lemma_entries_keys_ordered(entries: Seq<(String, Ipld)>, n: nat, i: int)
    requires
        entries_keys_ordered(entries, n),
        0 <= i < n <= entries.len(),
    ensures
        keys_ordered(entries[i].1),
    decreases n,
{
    if i < n - 1 {
        lemma_entries_keys_ordered(entries, (n - 1) as nat, i);
    }
}

/// The DAG-PB form of an IPLD value.
pub open spec fn pb_bytes(v: Ipld) -> Seq<u8>
    decreases v, 1nat,
{
    match v {
        Ipld::Link(c) => pb_link(c@, None),
        Ipld::List(l) => pb_list_links(l@, l@.len()),
        Ipld::Dict(m) => pb_dict_links(m@, m@.len()),
        _ => seq![0x0au8] + varint(dag_cbor(v).len()) + dag_cbor(v),
    }
}

/// The DAG-PB CID of an IPLD value.
pub open spec fn pb_cid(v: Ipld) -> Seq<u8>
    decreases v, 2nat,
{
    cid_v1(DAG_PB, pb_bytes(v))
}

/// The links to the first `n` items of a list.
pub open spec fn pb_list_links(items: Seq<Ipld>, n: nat) -> Seq<u8>
    decreases items, 0nat, n,
{
    if n == 0 || n > items.len() {
        Seq::empty()
    } else {
        pb_list_links(items, (n - 1) as nat) + pb_link(pb_cid(items[n - 1]), None)
    }
}

/// The links to the values of the first `n` entries of a map, named by their keys.
pub open spec fn pb_dict_links(entries: Seq<(String, Ipld)>, n: nat) -> Seq<u8>
    decreases entries, 0nat, n,
{
    if n == 0 || n > entries.len() {
        Seq::empty()
    } else {
        pb_dict_links(entries, (n - 1) as nat) + pb_link(
            pb_cid(entries[n - 1].1),
            Some(entries[n - 1].0@),
        )
    }
}

fn push_varint_len(out: &mut Vec<u8>, n: usize)
    ensures
        final(out)@ == old(out)@ + varint(n as nat),
    decreases n,
{
    if n < 128 {
        out.push(n as u8);
    } else {
        out.push((n % 128 + 128) as u8);
        push_varint_len(out, n / 128);
        assert((n / 128) as nat == (n as nat) / 128);
    }
}

fn push_bytes(out: &mut Vec<u8>, bytes: &[u8])
    ensures
        final(out)@ == old(out)@ + bytes@,
{
    let mut i: usize = 0;
    while i < bytes.len()
        invariant
            i <= bytes@.len(),
            out@ == old(out)@ + bytes@.subrange(0, i as int),
        decreases bytes@.len() - i,
    {
        out.push(bytes[i]);
        i = i + 1;
        assert(bytes@.subrange(0, i as int) == bytes@.subrange(0, i - 1) + seq![bytes@[i - 1]]);
    }
    assert(bytes@.subrange(0, bytes@.len() as int) == bytes@);
}

/// Appends a DAG-PB link field.
fn push_pb_link(out: &mut Vec<u8>, hash: &[u8], name: Option<&str>)
    ensures
        final(out)@ == old(out)@ + pb_link(hash@, match name {
            Some(n) => Some(n@),
            None => None,
        }),
{
    let mut link: Vec<u8> = Vec::new();
    link.push(0x0a);
    push_varint_len(&mut link, hash.len());
    push_bytes(&mut link, hash);
    let ghost before_name = link@;
    match name {
        Some(n) => {
            let b = n.as_bytes();
            link.push(0x12);
            push_varint_len(&mut link, b.len());
            push_bytes(&mut link, b);
        },
        None => {},
    }
    out.push(0x12);
    push_varint_len(out, link.len());
    push_bytes(out, link.as_slice());
}

/// The DAG-PB form of an IPLD value.
fn make_pb_compatible(v: &Ipld) -> (bytes: Vec<u8>)
    requires
        keys_ordered(*v),
    ensures
        bytes@ == pb_bytes(*v),
    decreases *v, 1nat,
{
    let mut out: Vec<u8> = Vec::new();
    match v {
        Ipld::Link(c) => {
            let hash = c.to_bytes();
            push_pb_link(&mut out, hash.as_slice(), None);
        },
        Ipld::List(l) => {
            let mut i: usize = 0;
            while i < l.len()
                invariant
                    i <= l@.len(),
                    *v == Ipld::List(*l),
                    keys_ordered(*v),
                    out@ == pb_list_links(l@, i as nat),
                decreases l@.len() - i,
            {
                assert(decreases_to!(*v => l@[i as int])) by {
                    assert(decreases_to!(*v => v->List_0));
                    assert(decreases_to!(*l => l@));
                    assert(decreases_to!(l@ => l@[i as int]));
                }
                proof {
                    lemma_items_keys_ordered(l@, l@.len(), i as int);
                }
                let cid = dag_pb_cid(&l[i]);
                let hash = cid.to_bytes();
                push_pb_link(&mut out, hash.as_slice(), None);
                i = i + 1;
            }
        },
        Ipld::Dict(m) => {
            let mut i: usize = 0;
            while i < m.len()
                invariant
                    i <= m@.len(),
                    *v == Ipld::Dict(*m),
                    keys_ordered(*v),
                    out@ == pb_dict_links(m@, i as nat),
                decreases m@.len() - i,
            {
                assert(decreases_to!(*v => m@[i as int].1)) by {
                    assert(decreases_to!(*v => v->Dict_0));
                    assert(decreases_to!(*m => m@));
                    assert(decreases_to!(m@ => m@[i as int]));
                    assert(decreases_to!(m@[i as int] => m@[i as int].1));
                }
                proof {
                    lemma_entries_keys_ordered(m@, m@.len(), i as int);
                }
                let entry = &m[i];
                let cid = dag_pb_cid(&entry.1);
                let hash = cid.to_bytes();
                push_pb_link(&mut out, hash.as_slice(), Some(entry.0.as_str()));
                i = i + 1;
            }
        },
        _ => {
            let data = encode_dag_cbor(v);
            out.push(0x0a);
            push_varint_len(&mut out, data.len());
            push_bytes(&mut out, data.as_slice());
        },
    }
    out
}

/// The CID of an IPLD value after DAG-PB encoding.
fn dag_pb_cid(v: &Ipld) -> (cid: Cid)
    requires
        keys_ordered(*v),
    ensures
        cid@ == pb_cid(*v),
    decreases *v, 2nat,
{
    let bytes = make_pb_compatible(v);
    cid_from_bytes(DAG_PB, bytes.as_slice())
}

/// The DAG-PB form of a text string: a node whose data is the string's DAG-CBOR encoding.
pub open spec fn pb_text(s: Seq<char>) -> Seq<u8> {
    seq![0x0au8] + varint(cbor_text(s).len()) + cbor_text(s)
}

/// The DAG-PB form of a text string is one length-delimited `Data` field (tag byte
/// 0x0a, then the length as one LEB128 run) holding the string's DAG-CBOR encoding.
pub proof fn law_pb_text_is_data_field(s: Seq<char>)
    ensures
        exists|k: int|
            {
                &&& 1 < k < pb_text(s).len()
                &&& pb_text(s)[0] == 0x0a
                &&& is_leb128_run(#[trigger] pb_text(s).subrange(1, k))
                &&& leb128_value(pb_text(s).subrange(1, k)) == cbor_text(s).len()
                &&& pb_text(s).subrange(k, pb_text(s).len() as int) == cbor_text(s)
            },
{
    let c = cbor_text(s);
    let v = varint(c.len());
    law_varint_is_leb128(c.len());
    let b = pb_text(s);
    let k: int = (1 + v.len()) as int;
    assert(b.subrange(1, k) =~= v);
    assert(b.subrange(k, b.len() as int) =~= c);
    assert(c.len() >= 1) by {
        assert(cbor_head(3, utf8(s).len()).len() >= 1);
    }
}

impl Data {
    /// The CID of base64 data after DAG-PB encoding.
    pub fn cid(&self) -> (cid: Cid)
        requires
            *self is Base64,
        ensures
            cid@ == cid_v1(DAG_PB, pb_text(self->Base64_0@)),
    {
        match self {
            Data::Base64(s) => {
                let v = Ipld::String(s.clone());
                let c = dag_pb_cid(&v);
                assert(dag_cbor(v) == cbor_text(s@));
                c
            },
            Data::Encrypted(_) => {
                proof {
                    assert(false);
                }
                cid_from_bytes(DAG_PB, &[])
            },
        }
    }

    /// The bytes of base64 data: those of its text.
    pub fn into_bytes(self) -> (bytes: Vec<u8>)
        requires
            self is Base64,
        ensures
            bytes@ == utf8(self->Base64_0@),
    {
        match self {
            Data::Base64(s) => {
                let mut out: Vec<u8> = Vec::new();
                push_bytes(&mut out, s.as_str().as_bytes());
                out
            },
            Data::Encrypted(_) => {
                proof {
                    assert(false);
                }
                Vec::new()
            },
        }
    }

    /// The DAG-CBOR encoding of the data.
    pub fn to_cbor(&self) -> (b: Vec<u8>)
        ensures
            b@ == data_cbor(*self),
    {
        let mut w = MapWriter::new();
        match self {
            Data::Base64(s) => {
                w.push_text("Base64", s.as_str());
                assert(w.entries() =~= seq![("Base64"@, cbor_text(s@))]);
            },
            Data::Encrypted(e) => {
                let enc = e.to_cbor();
                w.push_encoded("Encrypted", enc.as_slice());
                assert(w.entries() =~= seq![("Encrypted"@, cbor_map(e.entries()))]);
            },
        }
        w.finish()
    }
}

} // verus!
