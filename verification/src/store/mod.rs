//! Stores for messages and for record data.

use vstd::prelude::*;

use crate::message::DecodeError;
use crate::util::CborEncodeError;

pub mod laws;
pub mod surrealdb;

pub use self::surrealdb::SurrealDB;

verus! {

/// Why the data store failed.
#[derive(Debug, PartialEq, Eq)]
pub enum DataStoreError {
    WriteError(String),
    NotFound,
    BackendError(String),
}

/// What reading data gives back: its size and its bytes.
#[derive(Debug)]
pub struct GetDataResults {
    pub size: usize,
    pub data: Vec<u8>,
}

/// What writing data gives back: its size.
#[derive(Debug)]
pub struct PutDataResults {
    pub size: usize,
}

/// Why the message store failed.
#[derive(Debug, PartialEq, Eq)]
pub enum MessageStoreError {
    MissingData,
    MessageEncode(CborEncodeError),
    DataEncodeError(String),
    NotFound,
    MessageDecodeError(DecodeError),
    Cid(String),
    CreateBlockError(String),
    BackendError(String),
    DataStore(DataStoreError),
}

} // verus!
