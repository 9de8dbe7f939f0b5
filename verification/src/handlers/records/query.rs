//! The handler of record queries.

use vstd::prelude::*;

use crate::message::descriptor::{Descriptor, Filter};
use crate::message::{message_same, Message};
use crate::store::surrealdb::{filter_result, SurrealDB};

use super::super::{status_ok, HandlerError, Reply};
use super::super::Status;

verus! {

/// The filter that a query message asks with: its own, or the one that selects
/// every record.
pub open spec fn asked_filter(d: Descriptor) -> Filter {
    match d {
        Descriptor::RecordsQuery(q) => match q.filter {
            Some(f) => f,
            None => Filter::empty(),
        },
        _ => Filter::empty(),
    }
}

/// Answers record queries.
pub struct RecordsQueryHandler;

impl RecordsQueryHandler {
    /// Answers a query message with the messages of `tenant` that its filter selects.
    /// A message that is not a query is refused.
    pub fn handle(message_store: &SurrealDB, tenant: &str, message: Message) -> (r: Result<
        Reply,
        HandlerError,
    >)
        ensures
            !(message.descriptor is RecordsQuery) ==> (r matches Err(e) && e is InvalidDescriptor),
            message.descriptor is RecordsQuery ==> (r matches Ok(rep) && rep matches Reply::RecordsQuery {
                entries,
                status,
            } && status_ok(status) && entries@.len() == filter_result(
                message_store@.messages,
                tenant@,
                asked_filter(message.descriptor),
            ).len() && forall|i: int|
                0 <= i < entries@.len() ==> message_same(
                    #[trigger] entries@[i],
                    filter_result(
                        message_store@.messages,
                        tenant@,
                        asked_filter(message.descriptor),
                    )[i].message,
                )),
    {
        let filter = match message.descriptor {
            Descriptor::RecordsQuery(q) => match q.filter {
                Some(f) => f,
                None => Filter::default(),
            },
            _ => {
                return Err(HandlerError::InvalidDescriptor("Not a RecordsQuery message".to_owned()));
            },
        };
        match message_store.query(tenant, &filter) {
            Ok(entries) => Ok(Reply::RecordsQuery { entries, status: Status::ok() }),
            Err(e) => Err(HandlerError::MessageStoreError(e)),
        }
    }
}

} // verus!
