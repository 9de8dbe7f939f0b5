//! Content identifiers: version 1 CIDs over SHA-256 multihashes.

use sha2::Digest;
use vstd::prelude::*;

verus! {

/// Multicodec code of DAG-CBOR.
pub const DAG_CBOR: u64 = 0x71;

/// Multicodec code of DAG-PB.
pub const DAG_PB: u64 = 0x70;

/// Multihash code of SHA2-256.
pub const SHA2_256: u64 = 0x12;

/// The SHA-256 digest of a byte string.
pub uninterp spec fn sha2_256(bytes: Seq<u8>) -> Seq<u8>;

/// The multibase text of a byte string in base32 (lower case, no padding), with its
/// one-character base prefix.
pub uninterp spec fn multibase_base32_lower(bytes: Seq<u8>) -> Seq<char>;

/// Calls `sha2::Sha256::digest`. The contract names the digest and states its
/// length, 32 bytes, which the output type of SHA-256 fixes.
#[verifier::external_body]
fn sha256_digest(bytes: &[u8]) -> (digest: Vec<u8>)
    ensures
        digest@ == sha2_256(bytes@),
        digest@.len() == 32,
{
    sha2::Sha256::digest(bytes).to_vec()
}

/// Calls `multibase::encode` with `Base::Base32Lower`. The contract names the text
/// and states that it starts with the base's code, `b`, as the crate's `encode`
/// inserts `base.code()` in front of the encoded bytes.
#[verifier::external_body]
fn multibase_encode_base32_lower(bytes: &[u8]) -> (text: String)
    ensures
        text@ == multibase_base32_lower(bytes@),
        text@.len() > 0,
        text@[0] == 'b',
{
    multibase::encode(multibase::Base::Base32Lower, bytes)
}

/// The unsigned LEB128 varint of `n`.
pub open spec fn varint(n: nat) -> Seq<u8>
    decreases n,
{
    if n < 128 {
        seq![n as u8]
    } else {
        seq![(n % 128 + 128) as u8] + varint(n / 128)
    }
}

/// The number that a run of LEB128 bytes stands for: seven bits from each byte,
/// the lowest first.
pub open spec fn leb128_value(b: Seq<u8>) -> nat
    decreases b.len(),
{
    if b.len() == 0 {
        0
    } else {
        (b[0] % 128) as nat + 128 * leb128_value(b.drop_first())
    }
}

/// Whether `b` is one run of LEB128 bytes: every byte but the last has its high bit
/// set, and the last has it clear.
pub open spec fn is_leb128_run(b: Seq<u8>) -> bool {
    &&& b.len() >= 1
    &&& b.last() < 128
    &&& forall|i: int| 0 <= i < b.len() - 1 ==> #[trigger] b[i] >= 128
}

/// `varint(n)` is the unsigned LEB128 encoding of `n`: every byte but the last has
/// its high bit set, the last has it clear, and the seven-bit groups, lowest first,
/// give back `n`. A number below 128 is its one byte.
pub proof fn law_varint_is_leb128(n: nat)
    ensures
        varint(n).len() >= 1,
        leb128_value(varint(n)) == n,
        varint(n).last() < 128,
        forall|i: int| 0 <= i < varint(n).len() - 1 ==> #[trigger] varint(n)[i] >= 128,
        n < 128 ==> varint(n) == seq![n as u8],
        n >= 128 ==> varint(n)[0] == n % 128 + 128,
        is_leb128_run(varint(n)),
    decreases n,
{
    if n >= 128 {
        law_varint_is_leb128(n / 128);
        let v = varint(n);
        let t = varint(n / 128);
        assert(v == seq![(n % 128 + 128) as u8] + t);
        assert(v.drop_first() =~= t);
        assert(v[0] == n % 128 + 128);
        assert(v[0] % 128 == n % 128);
        assert forall|i: int| 0 <= i < v.len() - 1 implies #[trigger] v[i] >= 128 by {
            if i > 0 {
                assert(v[i] == t[i - 1]);
            }
        }
        assert(v.last() == t.last());
        assert(leb128_value(v) == (v[0] % 128) as nat + 128 * leb128_value(t));
        assert(n % 128 + 128 * (n / 128) == n);
    } else {
        let v = varint(n);
        assert(v.drop_first() =~= Seq::<u8>::empty());
        assert(leb128_value(v) == (v[0] % 128) as nat + 128 * leb128_value(v.drop_first()));
    }
}

/// The SHA2-256 multihash of a byte string: code, digest length, digest.
pub open spec fn multihash_sha2_256(bytes: Seq<u8>) -> Seq<u8> {
    varint(SHA2_256 as nat) + varint(32) + sha2_256(bytes)
}

/// The binary form of the version 1 CID of `bytes` under the codec `codec`.
pub open spec fn cid_v1(codec: u64, bytes: Seq<u8>) -> Seq<u8> {
    varint(1) + varint(codec as nat) + multihash_sha2_256(bytes)
}

/// The text form of the version 1 CID of `bytes` under the codec `codec`.
pub open spec fn cid_v1_string(codec: u64, bytes: Seq<u8>) -> Seq<char> {
    multibase_base32_lower(cid_v1(codec, bytes))
}

spec fn pow128(k: nat) -> nat
    decreases k,
{
    if k == 0 {
        1
    } else {
        128 * pow128((k - 1) as nat)
    }
}

proof fn lemma_varint_len_bound(n: nat, k: nat)
    requires
        k >= 1,
        n < pow128(k),
    ensures
        1 <= varint(n).len() <= k,
    decreases n,
{
    if n >= 128 {
        let k1 = (k - 1) as nat;
        if k1 == 0 {
            reveal_with_fuel(pow128, 2);
            assert(pow128(1) == 128);
        } else {
            assert(n / 128 < pow128(k1)) by (nonlinear_arith)
                requires
                    n < 128 * pow128(k1),
            ;
            lemma_varint_len_bound(n / 128, k1);
        }
    }
}

proof fn lemma_varint_len(n: nat)
    requires
        n < 0x1_0000_0000_0000_0000,
    ensures
        1 <= varint(n).len() <= 10,
{
    reveal_with_fuel(pow128, 11);
    lemma_varint_len_bound(n, 10);
}

/// Appends the unsigned LEB128 varint of `n`.
fn push_varint(out: &mut Vec<u8>, n: u64)
    ensures
        final(out)@ == old(out)@ + varint(n as nat),
    decreases n,
{
    if n < 128 {
        out.push(n as u8);
    } else {
        out.push((n % 128 + 128) as u8);
        push_varint(out, n / 128);
        assert((n / 128) as nat == (n as nat) / 128);
    }
}

/// A version 1 content identifier, held in binary form.
#[derive(Debug, PartialEq, Eq)]
pub struct Cid {
    bytes: Vec<u8>,
}

impl View for Cid {
    type V = Seq<u8>;

    closed spec fn view(&self) -> Seq<u8> {
        self.bytes@
    }
}

impl Cid {
    #[verifier::type_invariant]
    spec fn short(self) -> bool {
        self.bytes@.len() <= 64
    }

    /// The binary form.
    pub fn to_bytes(&self) -> (bytes: Vec<u8>)
        ensures
            bytes@ == self@,
            bytes@.len() <= 64,
    {
        proof {
            use_type_invariant(self);
        }
        let mut out: Vec<u8> = Vec::new();
        let mut i: usize = 0;
        while i < self.bytes.len()
            invariant
                i <= self.bytes@.len(),
                out@ == self.bytes@.subrange(0, i as int),
            decreases self.bytes@.len() - i,
        {
            out.push(self.bytes[i]);
            i = i + 1;
            assert(self.bytes@.subrange(0, i as int) == self.bytes@.subrange(0, i - 1).push(
                self.bytes@[i - 1],
            ));
        }
        assert(self.bytes@.subrange(0, self.bytes@.len() as int) == self.bytes@);
        out
    }

    /// The text form: the binary form in multibase base32.
    pub fn to_string(&self) -> (s: String)
        ensures
            s@ == multibase_base32_lower(self@),
    {
        multibase_encode_base32_lower(self.bytes.as_slice())
    }
}

impl Clone for Cid {
    fn clone(&self) -> (c: Cid)
        ensures
            c@ == self@,
    {
        proof {
            use_type_invariant(self);
        }
        let bytes = self.to_bytes();
        assert(bytes@ == self.bytes@);
        Cid { bytes }
    }
}

/// The version 1 CID of `bytes` under the codec `codec`, with a SHA2-256 multihash.
pub fn cid_from_bytes(codec: u64, bytes: &[u8]) -> (cid: Cid)
    ensures
        cid@ == cid_v1(codec, bytes@),
{
    let digest = sha256_digest(bytes);
    let mut out: Vec<u8> = Vec::new();
    push_varint(&mut out, 1);
    push_varint(&mut out, codec);
    push_varint(&mut out, SHA2_256);
    push_varint(&mut out, 32);
    let mut i: usize = 0;
    let ghost prefix = out@;
    while i < digest.len()
        invariant
            i <= digest@.len(),
            digest@.len() == 32,
            out@ == prefix + digest@.subrange(0, i as int),
        decreases digest@.len() - i,
    {
        out.push(digest[i]);
        i = i + 1;
        assert(digest@.subrange(0, i as int) == digest@.subrange(0, i - 1).push(digest@[i - 1]));
    }
    assert(digest@.subrange(0, 32) == digest@);
    proof {
        lemma_varint_len(1);
        lemma_varint_len(codec as nat);
        lemma_varint_len(SHA2_256 as nat);
        lemma_varint_len(32);
        assert(out@ == cid_v1(codec, bytes@));
    }
    Cid { bytes: out }
}

/// The text form of the version 1 CID of `bytes` under the codec `codec`.
pub fn cid_string(codec: u64, bytes: &[u8]) -> (s: String)
    ensures
        s@ == cid_v1_string(codec, bytes@),
{
    cid_from_bytes(codec, bytes).to_string()
}

} // verus!
