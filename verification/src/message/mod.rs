//! Messages: a descriptor, its data and its authorization.

use vstd::prelude::*;

use crate::cid::{cid_string, cid_v1_string, DAG_CBOR};
use crate::ipld::{cbor_map, cbor_text, text_entry, MapWriter};
use crate::util::CborEncodeError;

pub mod auth;
pub mod builder;
pub mod data;
pub mod descriptor;
pub mod laws;

use auth::{jws_cbor, AuthPayload, Protected, SignatureEntry, JWS};
use data::{data_cbor, Data};
use descriptor::{descriptor_cbor, descriptor_encodable, Descriptor};

verus! {

/// A message to a node.
#[derive(Debug, PartialEq, Eq)]
pub struct Message {
    pub attestation: Option<JWS<String>>,
    pub authorization: Option<JWS<AuthPayload>>,
    pub data: Option<Data>,
    pub descriptor: Descriptor,
    pub record_id: String,
}

/// Whether two pieces of data hold the same content.
pub open spec fn data_same(a: Data, b: Data) -> bool {
    match (a, b) {
        (Data::Base64(x), Data::Base64(y)) => x == y,
        (Data::Encrypted(x), Data::Encrypted(y)) => x.protected == y.protected
            && x.recipients@ == y.recipients@ && x.ciphertext == y.ciphertext && x.iv == y.iv
            && x.tag == y.tag,
        _ => false,
    }
}

/// Whether two optional pieces of data hold the same content.
pub open spec fn opt_data_same(a: Option<Data>, b: Option<Data>) -> bool {
    match (a, b) {
        (Some(x), Some(y)) => data_same(x, y),
        (None, None) => true,
        _ => false,
    }
}

/// Whether two optional JWS with string payloads hold the same content.
pub open spec fn opt_jws_string_same(a: Option<JWS<String>>, b: Option<JWS<String>>) -> bool {
    match (a, b) {
        (Some(x), Some(y)) => x.payload == y.payload && x.signatures@ == y.signatures@,
        (None, None) => true,
        _ => false,
    }
}

/// Whether two optional authorizations hold the same content.
pub open spec fn opt_jws_auth_same(a: Option<JWS<AuthPayload>>, b: Option<JWS<AuthPayload>>) -> bool {
    match (a, b) {
        (Some(x), Some(y)) => x.payload == y.payload && x.signatures@ == y.signatures@,
        (None, None) => true,
        _ => false,
    }
}

/// Whether two messages hold the same content.
pub open spec fn message_same(a: Message, b: Message) -> bool {
    &&& opt_jws_string_same(a.attestation, b.attestation)
    &&& opt_jws_auth_same(a.authorization, b.authorization)
    &&& opt_data_same(a.data, b.data)
    &&& a.descriptor == b.descriptor
    &&& a.record_id == b.record_id
}

/// The map entries of a message, in encoding order; absent fields are left out.
pub open spec fn message_entries(m: Message) -> Seq<(Seq<char>, Seq<u8>)> {
    (match m.data {
        Some(d) => seq![("data"@, data_cbor(d))],
        None => Seq::empty(),
    }) + seq![
        text_entry("recordId"@, m.record_id@),
        ("descriptor"@, descriptor_cbor(m.descriptor)),
    ] + (match m.attestation {
        Some(j) => seq![("attestation"@, jws_cbor(cbor_text(j.payload@), j.signatures@))],
        None => Seq::empty(),
    }) + (match m.authorization {
        Some(j) => seq![("authorization"@, jws_cbor(cbor_map(j.payload.entries()), j.signatures@))],
        None => Seq::empty(),
    })
}

/// Messages that hold the same content have the same encoding.
pub proof fn lemma_same_message_cbor(a: Message, b: Message)
    requires
        message_same(a, b),
    ensures
        message_entries(a) == message_entries(b),
        message_cbor(a) == message_cbor(b),
        message_cid(a) == message_cid(b),
{
    reveal(message_cid);
    assert(message_entries(a) =~= message_entries(b));
}

/// The DAG-CBOR encoding of a message.
pub open spec fn message_cbor(m: Message) -> Seq<u8> {
    cbor_map(message_entries(m))
}

/// The CID text of a message: that of its DAG-CBOR encoding.
#[verifier::opaque]
pub open spec fn message_cid(m: Message) -> Seq<char> {
    cid_v1_string(DAG_CBOR, message_cbor(m))
}

/// The CID text of a descriptor: that of its DAG-CBOR encoding.
pub open spec fn descriptor_cid(d: Descriptor) -> Seq<char> {
    cid_v1_string(DAG_CBOR, descriptor_cbor(d))
}

/// The record id that a descriptor generates: the CID text of the DAG-CBOR map
/// `{descriptorCid: <CID text of the descriptor>}`.
pub open spec fn record_id_of(d: Descriptor) -> Seq<char> {
    cid_v1_string(DAG_CBOR, cbor_map(seq![text_entry("descriptorCid"@, descriptor_cid(d))]))
}

/// Why a message could not be authorized.
#[derive(Debug, PartialEq, Eq)]
pub enum AuthError {
    MissingAlgorithm,
    MissingPublicKey,
    Encode(CborEncodeError),
    EncodeSignature(String),
    Serde(String),
}

/// Why a block could not be decoded.
#[derive(Debug, PartialEq, Eq)]
pub enum DecodeError {
    Serde(String),
    Decode(String),
}

/// Why a signature did not verify.
#[derive(Debug, PartialEq, Eq)]
pub enum SignatureVerifyError {
    DidError(String),
    JwsError(String),
    UnsupportedDidMethod(String),
    ResolutionError(String),
    DocumentNotFound,
    MethodNotFound,
    Serde(String),
}

/// Why a message's authorization did not verify.
#[derive(Debug, PartialEq, Eq)]
pub enum VerifyAuthError {
    AuthorizationMissing,
    SignatureMissing,
    SignatureVerify(SignatureVerifyError),
    Serde(String),
}

/// Generates record ids from descriptors.
pub struct RecordIdGenerator {
    pub descriptor_cid: String,
}

impl RecordIdGenerator {
    /// The record id of a descriptor.
    pub fn generate(descriptor: &Descriptor) -> (r: Result<String, CborEncodeError>)
        ensures
            r is Ok <==> descriptor_encodable(*descriptor),
            r matches Ok(id) ==> id@ == record_id_of(*descriptor),
            r matches Err(e) ==> e is Serde,
    {
        let bytes = descriptor.to_cbor()?;
        let generator = RecordIdGenerator { descriptor_cid: cid_string(DAG_CBOR, bytes.as_slice()) };
        let mut w = MapWriter::new();
        w.push_text("descriptorCid", generator.descriptor_cid.as_str());
        let enc = w.finish();
        Ok(cid_string(DAG_CBOR, enc.as_slice()))
    }
}

impl Clone for Message {
    fn clone(&self) -> (c: Self)
        ensures
            message_same(c, *self),
    {
        Message {
            attestation: match &self.attestation {
                Some(j) => Some(j.copy()),
                None => None,
            },
            authorization: match &self.authorization {
                Some(j) => Some(j.copy()),
                None => None,
            },
            data: match &self.data {
                Some(d) => Some(d.clone()),
                None => None,
            },
            descriptor: self.descriptor.clone(),
            record_id: self.record_id.clone(),
        }
    }
}

impl Message {
    /// The record id that the message's descriptor generates.
    pub fn generate_record_id(&self) -> (r: Result<String, CborEncodeError>)
        ensures
            r is Ok <==> descriptor_encodable(self.descriptor),
            r matches Ok(id) ==> id@ == record_id_of(self.descriptor),
            r matches Err(e) ==> e is Serde,
    {
        RecordIdGenerator::generate(&self.descriptor)
    }

    /// The DAG-CBOR encoding of the message.
    pub fn to_cbor(&self) -> (r: Result<Vec<u8>, CborEncodeError>)
        ensures
            r is Ok <==> descriptor_encodable(self.descriptor),
            r matches Ok(b) ==> b@ == message_cbor(*self),
            r matches Err(e) ==> e is Serde,
    {
        let descriptor = self.descriptor.to_cbor()?;
        let mut w = MapWriter::new();
        match &self.data {
            Some(d) => {
                let enc = d.to_cbor();
                w.push_encoded("data", enc.as_slice());
            },
            None => {},
        }
        let ghost e1 = w.entries();
        w.push_text("recordId", self.record_id.as_str());
        w.push_encoded("descriptor", descriptor.as_slice());
        let ghost e2 = w.entries();
        match &self.attestation {
            Some(j) => {
                let enc = j.to_cbor();
                w.push_encoded("attestation", enc.as_slice());
            },
            None => {},
        }
        let ghost e3 = w.entries();
        match &self.authorization {
            Some(j) => {
                let enc = j.to_cbor();
                w.push_encoded("authorization", enc.as_slice());
            },
            None => {},
        }
        assert(w.entries() =~= message_entries(*self));
        Ok(w.finish())
    }

    /// The CID text of the message.
    pub fn cid(&self) -> (r: Result<String, CborEncodeError>)
        ensures
            r is Ok <==> descriptor_encodable(self.descriptor),
            r matches Ok(c) ==> c@ == message_cid(*self),
            r matches Err(e) ==> e is Serde,
    {
        proof {
            reveal(message_cid);
        }
        let bytes = self.to_cbor()?;
        Ok(cid_string(DAG_CBOR, bytes.as_slice()))
    }

    /// The payload that authorizes the message: the CID text of its descriptor.
    pub fn authorization_payload(&self) -> (r: Result<AuthPayload, AuthError>)
        ensures
            r is Ok <==> descriptor_encodable(self.descriptor),
            r matches Ok(p) ==> p.attestation_cid is None && p.permissions_grant_cid is None
                && p.descriptor_cid@ == descriptor_cid(self.descriptor),
            r matches Err(e) ==> e is Encode,
    {
        let bytes = match self.descriptor.to_cbor() {
            Ok(b) => b,
            Err(e) => {
                return Err(AuthError::Encode(e));
            },
        };
        Ok(
            AuthPayload {
                attestation_cid: None,
                descriptor_cid: cid_string(DAG_CBOR, bytes.as_slice()),
                permissions_grant_cid: None,
            },
        )
    }

    /// Authorizes the message with one signature over `payload` by the key `kid`.
    pub fn set_authorization(
        &mut self,
        payload: AuthPayload,
        alg: String,
        kid: String,
        signature: String,
    )
        ensures
            final(self).authorization matches Some(j) && j.payload == payload
                && j.signatures@ == seq![(SignatureEntry { protected: (Protected { alg, kid }), signature })],
            final(self).attestation == old(self).attestation,
            final(self).data == old(self).data,
            final(self).descriptor == old(self).descriptor,
            final(self).record_id == old(self).record_id,
    {
        let mut signatures: Vec<SignatureEntry> = Vec::new();
        signatures.push(SignatureEntry { protected: Protected { alg, kid }, signature });
        self.authorization = Some(JWS { payload, signatures });
    }

    /// The bytes that every signature of the authorization must sign: the JSON text
    /// of the payload. Fails when there is no authorization or it has no signature.
    pub fn auth_signing_input(&self) -> (r: Result<Vec<u8>, VerifyAuthError>)
        ensures
            self.authorization is None ==> r == Err::<Vec<u8>, VerifyAuthError>(
                VerifyAuthError::AuthorizationMissing,
            ),
            self.authorization is Some && self.authorization->0.signatures@.len() == 0 ==> r
                == Err::<Vec<u8>, VerifyAuthError>(VerifyAuthError::SignatureMissing),
            self.authorization is Some && self.authorization->0.signatures@.len() > 0 ==> (r is Ok
                && r->Ok_0@ == self.authorization->0.payload.json()),
    {
        match &self.authorization {
            None => Err(VerifyAuthError::AuthorizationMissing),
            Some(j) => {
                if j.signatures.len() == 0 {
                    Err(VerifyAuthError::SignatureMissing)
                } else {
                    Ok(j.payload.to_json())
                }
            },
        }
    }
}

} // verus!
