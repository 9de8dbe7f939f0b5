//! Encoding helpers shared by messages and stores.

use vstd::prelude::*;

use crate::cid::{cid_from_bytes, cid_v1, Cid, DAG_CBOR};
use crate::ipld::{dag_cbor, encode_dag_cbor, Ipld};

verus! {

/// Why a value could not be encoded.
#[derive(Debug, PartialEq, Eq)]
pub enum CborEncodeError {
    /// The value could not be turned into IPLD: one of its instants has a year
    /// outside 0..=9999 and has no RFC 3339 text.
    Serde(String),
    /// The IPLD value could not be encoded.
    Encode(String),
}

/// The error for a value with an instant that RFC 3339 cannot write.
pub fn timestamp_error() -> (e: CborEncodeError)
    ensures
        e matches CborEncodeError::Serde(text) && text@ == "timestamp year outside 0..=9999"@,
{
    CborEncodeError::Serde("timestamp year outside 0..=9999".to_owned())
}

/// An encoded block: its bytes and their CID.
#[derive(Debug)]
pub struct Block {
    pub cid: Cid,
    pub data: Vec<u8>,
}

/// The block of some DAG-CBOR bytes: the bytes and their CID under the DAG-CBOR codec.
pub fn block_from_bytes(data: Vec<u8>) -> (block: Block)
    ensures
        block.data@ == data@,
        block.cid@ == cid_v1(DAG_CBOR, data@),
{
    let cid = cid_from_bytes(DAG_CBOR, data.as_slice());
    Block { cid, data }
}

/// Encodes an IPLD value to a DAG-CBOR block.
pub fn encode_cbor(data: &Ipld) -> (block: Block)
    ensures
        block.data@ == dag_cbor(*data),
        block.cid@ == cid_v1(DAG_CBOR, dag_cbor(*data)),
{
    block_from_bytes(encode_dag_cbor(data))
}

} // verus!
