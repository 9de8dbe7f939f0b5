//! The body of a request as it travels: messages with their descriptors as texts.

use vstd::prelude::*;

verus! {

/// A request body: the messages it carries.
#[derive(Debug)]
pub struct Body {
    pub messages: Vec<Message>,
}

/// A message of a request body.
#[derive(Debug)]
pub struct Message {
    pub record_id: String,
    pub data: Option<String>,
    pub descriptor: Descriptor,
}

/// The descriptor of a message of a request body: its interface, its method, and
/// the CID and format of its data, when it carries data.
#[derive(Debug)]
pub struct Descriptor {
    pub interface: String,
    pub method: String,
    pub data_cid: Option<String>,
    pub data_format: Option<String>,
}

} // verus!
