//! Status codes and bodies that the node answers with.

use vstd::prelude::*;

verus! {

/// A status code with an optional human-readable detail.
#[derive(Debug, PartialEq, Eq)]
pub struct Status {
    pub code: u16,
    pub detail: Option<String>,
}

impl Status {
    /// Builds a status from a code and an optional detail text.
    pub fn new(code: u16, detail: Option<&str>) -> (s: Status)
        ensures
            s.code == code,
            s.detail is Some <==> detail is Some,
            detail is Some ==> s.detail->0@ == detail->0@,
    {
        let detail = match detail {
            Some(d) => Some(d.to_owned()),
            None => None,
        };
        Status { code, detail }
    }
}

/// Whether a status has the code `code` and the detail `detail`.
pub open spec fn status_is(s: Status, code: u16, detail: Seq<char>) -> bool {
    &&& s.code == code
    &&& s.detail matches Some(d) && d@ == detail
}

/// The statuses that the node answers single messages with.
pub struct MessageStatus;

impl MessageStatus {
    /// 200: the message was processed.
    pub fn ok() -> (s: Status)
        ensures
            status_is(s, 200, "OK"@),
    {
        Status::new(200, Some("OK"))
    }

    /// 400: the message was malformed.
    pub fn bad_request() -> (s: Status)
        ensures
            status_is(s, 400, "The message was malformed or improperly constructed"@),
    {
        Status::new(400, Some("The message was malformed or improperly constructed"))
    }

    /// 401: the message failed authorization.
    pub fn unauthorized() -> (s: Status)
        ensures
            status_is(s, 401, "The message failed authorization requirements"@),
    {
        Status::new(401, Some("The message failed authorization requirements"))
    }

    /// 501: the interface method is not implemented.
    pub fn interface_not_implemented() -> (s: Status)
        ensures
            status_is(s, 501, "The interface method is not implemented"@),
    {
        Status::new(501, Some("The interface method is not implemented"))
    }

    /// 429: the message used too many resources.
    pub fn resource_consumption_limit_exceeded() -> (s: Status)
        ensures
            status_is(s, 429, "Resource consumption has exceeded tolerances"@),
    {
        Status::new(429, Some("Resource consumption has exceeded tolerances"))
    }
}

/// The reply to one message: its entries, as JSON texts, and its status.
#[derive(Debug)]
pub struct MessageResult {
    pub entries: Option<Vec<String>>,
    pub status: Status,
}

/// The body of a response: one result per message, and an overall status.
#[derive(Debug)]
pub struct ResponseBody {
    pub replies: Option<Vec<MessageResult>>,
    pub status: Option<Status>,
}

impl ResponseBody {
    /// 404: the target DID is not served by the node.
    pub fn did_not_found() -> (b: ResponseBody)
        ensures
            b.replies is None,
            b.status matches Some(s) && status_is(
                s,
                404,
                "Target DID not found within the Decentralized Web Node"@,
            ),
    {
        ResponseBody {
            replies: None,
            status: Some(Status::new(404, Some("Target DID not found within the Decentralized Web Node"))),
        }
    }

    /// 500: the request could not be processed.
    pub fn error() -> (b: ResponseBody)
        ensures
            b.replies is None,
            b.status matches Some(s) && status_is(s, 500, "The request could not be processed correctly"@),
    {
        ResponseBody {
            replies: None,
            status: Some(Status::new(500, Some("The request could not be processed correctly"))),
        }
    }
}

} // verus!
