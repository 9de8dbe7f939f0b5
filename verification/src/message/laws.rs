//! What the encodings of messages and descriptors hold.

use vstd::prelude::*;

use crate::cid::{cid_v1_string, DAG_CBOR};
use crate::ipld::{cbor_map, cbor_text, opt_text_entry, text_entry};

use super::auth::jws_cbor;
use super::data::data_cbor;
use super::descriptor::timestamp_entry;
use super::descriptor::{descriptor_cbor, Descriptor, RecordsWrite};
use super::{message_cbor, message_cid, message_entries, record_id_of, Message};

verus! {

/// The DAG-CBOR encoding of a write's descriptor is a map that holds the entry
/// `published` exactly when the write has a publication flag, with the flag's value:
/// `true` as the byte 0xf5, `false` as 0xf4. The record id of the write is the CID
/// of the map that names the CID of that encoding.
pub proof fn law_write_encoding_holds_published(w: RecordsWrite)
    ensures
        exists|e: Seq<(Seq<char>, Seq<u8>)>|
            {
                &&& descriptor_cbor(Descriptor::RecordsWrite(w)) == #[trigger] cbor_map(e)
                &&& record_id_of(Descriptor::RecordsWrite(w)) == cid_v1_string(
                    DAG_CBOR,
                    cbor_map(seq![text_entry("descriptorCid"@, cid_v1_string(DAG_CBOR, cbor_map(e)))]),
                )
                &&& w.published matches Some(p) ==> e.contains(
                    (
                        "published"@,
                        if p {
                            seq![0xf5u8]
                        } else {
                            seq![0xf4u8]
                        },
                    ),
                )
                &&& w.published is None ==> forall|i: int|
                    0 <= i < e.len() ==> (#[trigger] e[i]).0 != "published"@
            },
{
    let e = w.entries();
    let h = w.head_entries();
    assert(descriptor_cbor(Descriptor::RecordsWrite(w)) == cbor_map(e));
    match w.published {
        Some(p) => {
            assert(e[h.len() as int] == w.middle_entries()[0]);
        },
        None => {
            let k = "published"@;
            assert(k.len() == 9 && k[0] == 'p' && k[1] == 'u') by {
                reveal_strlit("published");
            }
            assert("method"@.len() == 6) by {
                reveal_strlit("method");
            }
            assert("schema"@.len() == 6) by {
                reveal_strlit("schema");
            }
            assert("data_cid"@.len() == 8) by {
                reveal_strlit("data_cid");
            }
            assert("parentId"@.len() == 8) by {
                reveal_strlit("parentId");
            }
            assert("protocol"@.len() == 8) by {
                reveal_strlit("protocol");
            }
            assert("interface"@[0] == 'i') by {
                reveal_strlit("interface");
            }
            assert("encryption"@.len() == 10) by {
                reveal_strlit("encryption");
            }
            assert("datePublished"@.len() == 13) by {
                reveal_strlit("datePublished");
            }
            assert("protocolVersion"@.len() == 15) by {
                reveal_strlit("protocolVersion");
            }
            assert("messageTimestamp"@.len() == 16) by {
                reveal_strlit("messageTimestamp");
            }
            let s1 = seq![text_entry("method"@, "Write"@)];
            let s2 = opt_text_entry("schema"@, w.schema);
            let s3 = opt_text_entry("data_cid"@, w.data_cid);
            let s4 = opt_text_entry("parentId"@, w.parent_id);
            let s5 = opt_text_entry("protocol"@, w.protocol);
            let s6 = seq![text_entry("interface"@, "Records"@)];
            let m1: Seq<(Seq<char>, Seq<u8>)> = match w.encryption {
                Some(x) => seq![text_entry("encryption"@, x.name())],
                None => Seq::empty(),
            };
            let m2: Seq<(Seq<char>, Seq<u8>)> = match w.date_published {
                Some(t) => seq![timestamp_entry("datePublished"@, t)],
                None => Seq::empty(),
            };
            let t1 = opt_text_entry("protocolVersion"@, w.protocol_version);
            let t2 = seq![timestamp_entry("messageTimestamp"@, w.message_timestamp)];
            assert(avoids(s1, k) && avoids(s2, k) && avoids(s3, k) && avoids(s4, k));
            assert(avoids(s5, k) && avoids(s6, k) && avoids(m1, k) && avoids(m2, k));
            assert(avoids(t1, k) && avoids(t2, k));
            lemma_avoids_concat(s1, s2, k);
            lemma_avoids_concat(s1 + s2, s3, k);
            lemma_avoids_concat(s1 + s2 + s3, s4, k);
            lemma_avoids_concat(s1 + s2 + s3 + s4, s5, k);
            lemma_avoids_concat(s1 + s2 + s3 + s4 + s5, s6, k);
            assert(h == s1 + s2 + s3 + s4 + s5 + s6);
            assert(w.middle_entries() =~= m1 + m2);
            lemma_avoids_concat(m1, m2, k);
            lemma_avoids_concat(t1, t2, k);
            lemma_avoids_concat(h, m1 + m2, k);
            lemma_avoids_concat(h + (m1 + m2), t1 + t2, k);
            assert(e == h + (m1 + m2) + (t1 + t2));
        },
    }
}

/// Whether no entry of `e` has the key `k`.
pub open spec fn avoids(e: Seq<(Seq<char>, Seq<u8>)>, k: Seq<char>) -> bool {
    forall|i: int| 0 <= i < e.len() ==> (#[trigger] e[i]).0 != k
}

/// Two runs of entries without the key `k` make one without it.
pub proof fn lemma_avoids_concat(a: Seq<(Seq<char>, Seq<u8>)>, b: Seq<(Seq<char>, Seq<u8>)>, k: Seq<char>)
    requires
        avoids(a, k),
        avoids(b, k),
    ensures
        avoids(a + b, k),
{
    assert forall|i: int| 0 <= i < (a + b).len() implies (#[trigger] (a + b)[i]).0 != k by {
        if i < a.len() {
            assert((a + b)[i] == a[i]);
        } else {
            assert((a + b)[i] == b[i - a.len()]);
        }
    }
}

/// The DAG-CBOR encoding of a message is a map that holds the entry `data`, with
/// the encoding of the data, exactly when the message carries data; the message's
/// CID is the CID of that encoding.
pub proof fn law_message_encoding_holds_data(m: Message)
    ensures
        exists|e: Seq<(Seq<char>, Seq<u8>)>|
            {
                &&& message_cbor(m) == #[trigger] cbor_map(e)
                &&& message_cid(m) == cid_v1_string(DAG_CBOR, cbor_map(e))
                &&& m.data matches Some(d) ==> e.contains(("data"@, data_cbor(d)))
                &&& m.data is None ==> forall|i: int|
                    0 <= i < e.len() ==> (#[trigger] e[i]).0 != "data"@
            },
{
    reveal(message_cid);
    let e = message_entries(m);
    match m.data {
        Some(d) => {
            assert(e[0] == ("data"@, data_cbor(d)));
        },
        None => {
            let k = "data"@;
            assert(k.len() == 4) by {
                reveal_strlit("data");
            }
            assert("recordId"@.len() == 8) by {
                reveal_strlit("recordId");
            }
            assert("descriptor"@.len() == 10) by {
                reveal_strlit("descriptor");
            }
            assert("attestation"@.len() == 11) by {
                reveal_strlit("attestation");
            }
            assert("authorization"@.len() == 13) by {
                reveal_strlit("authorization");
            }
            let b1: Seq<(Seq<char>, Seq<u8>)> = seq![
                text_entry("recordId"@, m.record_id@),
                ("descriptor"@, descriptor_cbor(m.descriptor)),
            ];
            let b2: Seq<(Seq<char>, Seq<u8>)> = match m.attestation {
                Some(j) => seq![("attestation"@, jws_cbor(cbor_text(j.payload@), j.signatures@))],
                None => Seq::empty(),
            };
            let b3: Seq<(Seq<char>, Seq<u8>)> = match m.authorization {
                Some(j) => seq![
                    ("authorization"@, jws_cbor(cbor_map(j.payload.entries()), j.signatures@)),
                ],
                None => Seq::empty(),
            };
            assert(avoids(b1, k) && avoids(b2, k) && avoids(b3, k));
            lemma_avoids_concat(b1, b2, k);
            lemma_avoids_concat(b1 + b2, b3, k);
            assert(e =~= b1 + b2 + b3);
        },
    }
}

} // verus!
