//! Handlers of the messages that a node accepts, and the replies they give.

use vstd::prelude::*;

use crate::message::{Message, VerifyAuthError};
use crate::store::surrealdb::{outcome_of, StoreOutcome, StoreView};
use crate::store::{DataStoreError, MessageStoreError};
use crate::util::CborEncodeError;

pub mod laws;
pub mod records;

verus! {

/// Why a handler refused or failed a message.
#[derive(Debug, PartialEq, Eq)]
pub enum HandlerError {
    VerifyError(VerifyAuthError),
    InvalidDescriptor(String),
    DataStoreError(DataStoreError),
    MessageStoreError(MessageStoreError),
    CborEncode(CborEncodeError),
}

/// A status code with an optional human-readable detail.
#[derive(Debug, PartialEq, Eq)]
pub struct Status {
    pub code: u16,
    pub detail: Option<String>,
}

/// Whether a status is the success status: code 200, detail `OK`.
pub open spec fn status_ok(s: Status) -> bool {
    &&& s.code == 200
    &&& s.detail matches Some(d) && d@ == "OK"@
}

impl Status {
    /// The success status: code 200, detail `OK`.
    pub fn ok() -> (s: Status)
        ensures
            status_ok(s),
    {
        let detail = "OK".to_owned();
        proof {
            reveal_strlit("OK");
        }
        Status { code: 200, detail: Some(detail) }
    }
}

/// What a handler answers with.
#[derive(Debug)]
pub enum Reply {
    RecordsQuery { entries: Vec<Message>, status: Status },
    RecordsRead { data: Option<Vec<u8>>, record: Message, status: Status },
    Status { status: Status },
}

impl Reply {
    /// The status that a reply carries.
    pub open spec fn spec_status(self) -> Status {
        match self {
            Reply::RecordsQuery { status, .. } => status,
            Reply::RecordsRead { status, .. } => status,
            Reply::Status { status } => status,
        }
    }

    /// The status that the reply carries.
    pub fn status(&self) -> (s: &Status)
        ensures
            *s == self.spec_status(),
    {
        match self {
            Reply::RecordsQuery { status, .. } => status,
            Reply::RecordsRead { status, .. } => status,
            Reply::Status { status } => status,
        }
    }
}

/// The reply to a message: its status alone.
#[derive(Debug)]
pub struct MessageReply {
    pub status: Status,
}

/// A response to a request: an overall status, and one reply per message.
#[derive(Debug)]
pub struct Response {
    pub status: Option<Status>,
    pub replies: Vec<Reply>,
}

/// How a handler ends, as far as its contract tells endings apart.
pub enum HandlerOutcome {
    /// It replied.
    Replied,
    /// The message's authorization did not verify.
    Unverified,
    /// The message does not fit what the handler expects.
    Invalid,
    /// A descriptor could not be encoded.
    Encode,
    /// The data store failed.
    DataFailed,
    /// The message store failed, as the store outcome says.
    StoreFailed(StoreOutcome),
}

/// The ending that a handler's result shows.
pub open spec fn handler_outcome(r: Result<Reply, HandlerError>) -> HandlerOutcome {
    match r {
        Ok(_) => HandlerOutcome::Replied,
        Err(HandlerError::VerifyError(_)) => HandlerOutcome::Unverified,
        Err(HandlerError::InvalidDescriptor(_)) => HandlerOutcome::Invalid,
        Err(HandlerError::CborEncode(_)) => HandlerOutcome::Encode,
        Err(HandlerError::DataStoreError(_)) => HandlerOutcome::DataFailed,
        Err(HandlerError::MessageStoreError(e)) => HandlerOutcome::StoreFailed(
            outcome_of::<()>(Err(e)),
        ),
    }
}

/// A store operation's ending and stores, as a handler's: a store that did its
/// work lets the handler reply.
pub open spec fn lift(t: (StoreOutcome, StoreView, StoreView)) -> (
    HandlerOutcome,
    StoreView,
    StoreView,
) {
    if t.0 == StoreOutcome::Done {
        (HandlerOutcome::Replied, t.1, t.2)
    } else {
        (HandlerOutcome::StoreFailed(t.0), t.1, t.2)
    }
}

} // verus!
