//! Authorization of messages: JWS envelopes over an authorization payload.

use base64::engine::general_purpose::URL_SAFE_NO_PAD;
use base64::Engine;
use vstd::prelude::*;

use crate::ipld::{cbor_head, cbor_map, cbor_text, opt_text_entry, push_cbor_head, utf8, MapWriter};

verus! {

/// The base64url text, without padding, of a byte string.
pub uninterp spec fn base64url(bytes: Seq<u8>) -> Seq<char>;

/// Calls `base64`'s `URL_SAFE_NO_PAD.encode`; the contract names the text.
#[verifier::external_body]
fn base64url_encode(bytes: &[u8]) -> (text: String)
    ensures
        text@ == base64url(bytes@),
{
    URL_SAFE_NO_PAD.encode(bytes)
}

/// The lower-case hexadecimal digit of a value below 16.
pub open spec fn hex_digit(n: u8) -> u8 {
    if n < 10 {
        (48 + n) as u8
    } else {
        (87 + n) as u8
    }
}

/// How a JSON string writes one byte of its text: quote, backslash and control
/// bytes are escaped, the short forms used where JSON has them.
pub open spec fn json_escape_byte(b: u8) -> Seq<u8> {
    if b == 0x22 {
        seq![0x5cu8, 0x22u8]
    } else if b == 0x5c {
        seq![0x5cu8, 0x5cu8]
    } else if b == 0x08 {
        seq![0x5cu8, 0x62u8]
    } else if b == 0x0c {
        seq![0x5cu8, 0x66u8]
    } else if b == 0x0a {
        seq![0x5cu8, 0x6eu8]
    } else if b == 0x0d {
        seq![0x5cu8, 0x72u8]
    } else if b == 0x09 {
        seq![0x5cu8, 0x74u8]
    } else if b < 0x20 {
        seq![0x5cu8, 0x75u8, 0x30u8, 0x30u8, hex_digit(b / 16), hex_digit(b % 16)]
    } else {
        seq![b]
    }
}

/// The escaped form of a byte string inside a JSON string.
pub open spec fn json_escaped(bytes: Seq<u8>) -> Seq<u8>
    decreases bytes.len(),
{
    if bytes.len() == 0 {
        Seq::empty()
    } else {
        json_escaped(bytes.drop_last()) + json_escape_byte(bytes.last())
    }
}

/// The bytes of a JSON string holding `s`.
pub open spec fn json_string(s: Seq<char>) -> Seq<u8> {
    seq![0x22u8] + json_escaped(utf8(s)) + seq![0x22u8]
}

/// Calls `serde_json::to_vec` on a string slice. As the crate's source shows
/// (`format_escaped_str`), the result is the string between double quotes, its
/// quote and backslash bytes escaped, and its bytes below 0x20 escaped as `\b`,
/// `\f`, `\n`, `\r`, `\t` or `\u00` and two lower-case hex digits; serialising a
/// `str` into a vector does not fail.
#[verifier::external_body]
fn json_quote(s: &str) -> (bytes: Option<Vec<u8>>)
    ensures
        bytes is Some,
        bytes->Some_0@ == json_string(s@),
{
    serde_json::to_vec(s).ok()
}

/// Appends the bytes of a JSON string holding `s`.
pub fn push_json_string(out: &mut Vec<u8>, s: &str)
    ensures
        final(out)@ == old(out)@ + json_string(s@),
{
    if let Some(b) = json_quote(s) {
        push_bytes(out, b.as_slice());
    }
}

/// Appends the UTF-8 bytes of a string.
pub fn push_str(out: &mut Vec<u8>, s: &str)
    ensures
        final(out)@ == old(out)@ + utf8(s@),
{
    let bytes = s.as_bytes();
    let mut i: usize = 0;
    while i < bytes.len()
        invariant
            i <= bytes@.len(),
            out@ == old(out)@ + bytes@.subrange(0, i as int),
        decreases bytes@.len() - i,
    {
        out.push(bytes[i]);
        i = i + 1;
        assert(bytes@.subrange(0, i as int) == bytes@.subrange(0, i - 1) + seq![bytes@[i - 1]]);
    }
    assert(bytes@.subrange(0, bytes@.len() as int) == bytes@);
}

/// The payload that an authorization signs.
#[derive(Debug, PartialEq, Eq)]
pub struct AuthPayload {
    pub attestation_cid: Option<String>,
    pub descriptor_cid: String,
    pub permissions_grant_cid: Option<String>,
}

impl Clone for AuthPayload {
    fn clone(&self) -> (c: Self)
        ensures
            c == *self,
    {
        AuthPayload {
            attestation_cid: crate::message::descriptor::clone_opt_string(&self.attestation_cid),
            descriptor_cid: self.descriptor_cid.clone(),
            permissions_grant_cid: crate::message::descriptor::clone_opt_string(
                &self.permissions_grant_cid,
            ),
        }
    }
}

impl AuthPayload {
    /// The JSON text of the payload, fields in declaration order, absent ones left out.
    pub open spec fn json(self) -> Seq<u8> {
        utf8("{"@) + match self.attestation_cid {
            Some(a) => utf8("\"attestationCid\":"@) + json_string(a@) + utf8(","@),
            None => Seq::empty(),
        } + utf8("\"descriptorCid\":"@) + json_string(self.descriptor_cid@)
            + match self.permissions_grant_cid {
            Some(p) => utf8(",\"permissionsGrantCid\":"@) + json_string(p@),
            None => Seq::empty(),
        } + utf8("}"@)
    }

    /// The JSON text of the payload.
    pub fn to_json(&self) -> (bytes: Vec<u8>)
        ensures
            bytes@ == self.json(),
    {
        let mut out: Vec<u8> = Vec::new();
        push_str(&mut out, "{");
        let ghost a = out@;
        match &self.attestation_cid {
            Some(c) => {
                push_str(&mut out, "\"attestationCid\":");
                push_json_string(&mut out, c.as_str());
                push_str(&mut out, ",");
            },
            None => {},
        }
        let ghost b = out@;
        push_str(&mut out, "\"descriptorCid\":");
        push_json_string(&mut out, self.descriptor_cid.as_str());
        let ghost c = out@;
        match &self.permissions_grant_cid {
            Some(p) => {
                push_str(&mut out, ",\"permissionsGrantCid\":");
                push_json_string(&mut out, p.as_str());
            },
            None => {},
        }
        push_str(&mut out, "}");
        assert(out@ =~= self.json());
        out
    }

    /// The map entries of the payload, in encoding order.
    pub open spec fn entries(self) -> Seq<(Seq<char>, Seq<u8>)> {
        seq![("descriptorCid"@, cbor_text(self.descriptor_cid@))] + opt_text_entry(
            "attestationCid"@,
            self.attestation_cid,
        ) + opt_text_entry("permissionsGrantCid"@, self.permissions_grant_cid)
    }

    /// The DAG-CBOR encoding of the payload.
    pub fn to_cbor(&self) -> (b: Vec<u8>)
        ensures
            b@ == cbor_map(self.entries()),
    {
        let mut w = MapWriter::new();
        w.push_text("descriptorCid", self.descriptor_cid.as_str());
        w.push_opt_text("attestationCid", &self.attestation_cid);
        w.push_opt_text("permissionsGrantCid", &self.permissions_grant_cid);
        assert(w.entries() =~= self.entries());
        w.finish()
    }
}

/// The protected header of a signature: the algorithm and the DID URL of the key.
#[derive(Debug, PartialEq, Eq)]
pub struct Protected {
    /// The name of the signing algorithm, such as `EdDSA`.
    pub alg: String,
    /// The DID URL of the key that verifies the signature.
    pub kid: String,
}

impl Clone for Protected {
    fn clone(&self) -> (c: Self)
        ensures
            c == *self,
    {
        Protected { alg: self.alg.clone(), kid: self.kid.clone() }
    }
}

impl Protected {
    /// The JSON text of the header.
    pub open spec fn json(self) -> Seq<u8> {
        utf8("{\"alg\":"@) + json_string(self.alg@) + utf8(",\"kid\":"@) + json_string(self.kid@)
            + utf8("}"@)
    }

    /// The serialized header: its JSON text in base64url without padding.
    pub open spec fn encoded(self) -> Seq<char> {
        base64url(self.json())
    }

    /// The JSON text of the header.
    pub fn to_json(&self) -> (bytes: Vec<u8>)
        ensures
            bytes@ == self.json(),
    {
        let mut out: Vec<u8> = Vec::new();
        push_str(&mut out, "{\"alg\":");
        push_json_string(&mut out, self.alg.as_str());
        push_str(&mut out, ",\"kid\":");
        push_json_string(&mut out, self.kid.as_str());
        push_str(&mut out, "}");
        assert(out@ =~= self.json());
        out
    }

    /// The serialized header.
    pub fn encode(&self) -> (s: String)
        ensures
            s@ == self.encoded(),
    {
        let json = self.to_json();
        base64url_encode(json.as_slice())
    }
}

/// One signature of a JWS.
#[derive(Debug, PartialEq, Eq)]
pub struct SignatureEntry {
    pub protected: Protected,
    pub signature: String,
}

impl Clone for SignatureEntry {
    fn clone(&self) -> (c: Self)
        ensures
            c == *self,
    {
        SignatureEntry { protected: self.protected.clone(), signature: self.signature.clone() }
    }
}

impl SignatureEntry {
    /// The map entries of the signature, in encoding order.
    pub open spec fn entries(self) -> Seq<(Seq<char>, Seq<u8>)> {
        seq![
            ("protected"@, cbor_text(self.protected.encoded())),
            ("signature"@, cbor_text(self.signature@)),
        ]
    }

    /// The DAG-CBOR encoding of the signature.
    pub fn to_cbor(&self) -> (b: Vec<u8>)
        ensures
            b@ == cbor_map(self.entries()),
    {
        let protected = self.protected.encode();
        let mut w = MapWriter::new();
        w.push_text("protected", protected.as_str());
        w.push_text("signature", self.signature.as_str());
        assert(w.entries() =~= self.entries());
        w.finish()
    }
}

/// A JSON Web Signature in general serialization: a payload and its signatures.
#[derive(Debug, PartialEq, Eq)]
pub struct JWS<T> {
    pub payload: T,
    pub signatures: Vec<SignatureEntry>,
}

/// The encodings of the first `n` signatures, one after another.
pub open spec fn cbor_signatures(s: Seq<SignatureEntry>, n: nat) -> Seq<u8>
    decreases n,
{
    if n == 0 || n > s.len() {
        Seq::empty()
    } else {
        cbor_signatures(s, (n - 1) as nat) + cbor_map(s[n - 1].entries())
    }
}

/// The DAG-CBOR encoding of a JWS whose payload encodes to `payload`.
pub open spec fn jws_cbor(payload: Seq<u8>, signatures: Seq<SignatureEntry>) -> Seq<u8> {
    cbor_map(
        seq![
            ("payload"@, payload),
            ("signatures"@, cbor_head(4, signatures.len()) + cbor_signatures(
                signatures,
                signatures.len(),
            )),
        ],
    )
}

/// The DAG-CBOR encoding of a JWS given its payload's encoding.
fn jws_to_cbor(payload: &[u8], signatures: &Vec<SignatureEntry>) -> (b: Vec<u8>)
    ensures
        b@ == jws_cbor(payload@, signatures@),
{
    let mut list: Vec<u8> = Vec::new();
    push_cbor_head(&mut list, 4, signatures.len() as u64);
    let ghost start = list@;
    let mut i: usize = 0;
    while i < signatures.len()
        invariant
            i <= signatures@.len(),
            list@ == start + cbor_signatures(signatures@, i as nat),
        decreases signatures@.len() - i,
    {
        let enc = signatures[i].to_cbor();
        push_bytes(&mut list, enc.as_slice());
        i = i + 1;
    }
    let mut w = MapWriter::new();
    w.push_encoded("payload", payload);
    w.push_encoded("signatures", list.as_slice());
    assert(w.entries() =~= seq![
        ("payload"@, payload@),
        ("signatures"@, cbor_head(4, signatures@.len()) + cbor_signatures(
            signatures@,
            signatures@.len(),
        )),
    ]);
    w.finish()
}

fn push_bytes(out: &mut Vec<u8>, bytes: &[u8])
    ensures
        final(out)@ == old(out)@ + bytes@,
{
    let mut i: usize = 0;
    while i < bytes.len()
        invariant
            i <= bytes@.len(),
            out@ == old(out)@ + bytes@.subrange(0, i as int),
        decreases bytes@.len() - i,
    {
        out.push(bytes[i]);
        i = i + 1;
        assert(bytes@.subrange(0, i as int) == bytes@.subrange(0, i - 1) + seq![bytes@[i - 1]]);
    }
    assert(bytes@.subrange(0, bytes@.len() as int) == bytes@);
}

/// Copies a list of signatures.
pub fn clone_signatures(v: &Vec<SignatureEntry>) -> (c: Vec<SignatureEntry>)
    ensures
        c@ == v@,
{
    let mut c: Vec<SignatureEntry> = Vec::new();
    let mut i: usize = 0;
    while i < v.len()
        invariant
            i <= v@.len(),
            c@ == v@.subrange(0, i as int),
        decreases v@.len() - i,
    {
        c.push(v[i].clone());
        i = i + 1;
        assert(c@ =~= v@.subrange(0, i as int));
    }
    assert(v@.subrange(0, v@.len() as int) =~= v@);
    c
}

impl JWS<AuthPayload> {
    /// The DAG-CBOR encoding of the JWS.
    pub fn to_cbor(&self) -> (b: Vec<u8>)
        ensures
            b@ == jws_cbor(cbor_map(self.payload.entries()), self.signatures@),
    {
        let payload = self.payload.to_cbor();
        jws_to_cbor(payload.as_slice(), &self.signatures)
    }

    /// A copy of the JWS.
    pub fn copy(&self) -> (c: Self)
        ensures
            c.payload == self.payload,
            c.signatures@ == self.signatures@,
    {
        JWS { payload: self.payload.clone(), signatures: clone_signatures(&self.signatures) }
    }
}

impl JWS<String> {
    /// The DAG-CBOR encoding of the JWS.
    pub fn to_cbor(&self) -> (b: Vec<u8>)
        ensures
            b@ == jws_cbor(cbor_text(self.payload@), self.signatures@),
    {
        let mut payload: Vec<u8> = Vec::new();
        crate::ipld::push_cbor_text(&mut payload, self.payload.as_str());
        jws_to_cbor(payload.as_slice(), &self.signatures)
    }

    /// A copy of the JWS.
    pub fn copy(&self) -> (c: Self)
        ensures
            c.payload == self.payload,
            c.signatures@ == self.signatures@,
    {
        JWS { payload: self.payload.clone(), signatures: clone_signatures(&self.signatures) }
    }
}

/// An authorization in compact JWS form.
#[derive(Debug, PartialEq, Eq)]
pub struct Authorization(String);

impl Authorization {
    /// The authorization with the compact JWS `jws`.
    pub fn from_jws(jws: String) -> (a: Authorization)
        ensures
            a.jws_view() == jws@,
    {
        Authorization(jws)
    }

    /// The compact JWS.
    pub closed spec fn jws_view(&self) -> Seq<char> {
        self.0@
    }

    /// The compact JWS.
    pub fn as_str(&self) -> (s: &str)
        ensures
            s@ == self.jws_view(),
    {
        self.0.as_str()
    }
}

} // verus!
