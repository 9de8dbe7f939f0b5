//! Message descriptors: what a message asks the node to do.

use vstd::prelude::*;

use crate::ipld::cbor_map;
use crate::text::str_eq;
use crate::timestamp::Timestamp;
use crate::util::CborEncodeError;

mod records;

pub use records::{
    clone_opt_string, Filter, FilterDateCreated, FilterDateSort, RecordsCommit, RecordsDelete,
    RecordsQuery, RecordsRead, RecordsWrite, timestamp_entry,
};

verus! {

/// The interfaces of the node.
#[derive(Clone, Copy, Debug, PartialEq, Eq)]
pub enum Interface {
    Permissions,
    Protocols,
    Records,
}

/// The methods of the interfaces.
#[derive(Clone, Copy, Debug, PartialEq, Eq)]
pub enum Method {
    Commit,
    Configure,
    Delete,
    Grant,
    Query,
    Read,
    Request,
    Revoke,
    Write,
}

/// How a commit combines with the data it follows.
#[derive(Clone, Copy, Debug, PartialEq, Eq)]
pub enum CommitStrategy {
    JsonPatch,
    JsonMerge,
}

impl CommitStrategy {
    /// The name under which the strategy is written.
    pub open spec fn name(self) -> Seq<char> {
        match self {
            CommitStrategy::JsonPatch => "json-patch"@,
            CommitStrategy::JsonMerge => "json-merge"@,
        }
    }

    /// The name under which the strategy is written.
    pub fn as_str(&self) -> (s: &'static str)
        ensures
            s@ == self.name(),
    {
        match self {
            CommitStrategy::JsonPatch => "json-patch",
            CommitStrategy::JsonMerge => "json-merge",
        }
    }
}

/// How a record's data is encrypted.
#[derive(Clone, Copy, Debug, PartialEq, Eq)]
pub enum Encryption {
    /// AES-GCM
    JWE,
    /// XSalsa20-Poly1305
    X25519,
}

impl Encryption {
    /// The name under which the scheme is written.
    pub open spec fn name(self) -> Seq<char> {
        match self {
            Encryption::JWE => "jwe"@,
            Encryption::X25519 => "X25519"@,
        }
    }

    /// The name under which the scheme is written.
    pub fn as_str(&self) -> (s: &'static str)
        ensures
            s@ == self.name(),
    {
        match self {
            Encryption::JWE => "jwe",
            Encryption::X25519 => "X25519",
        }
    }
}

/// A descriptor of the Records interface.
#[derive(Debug, PartialEq, Eq)]
pub enum Descriptor {
    RecordsRead(RecordsRead),
    RecordsQuery(RecordsQuery),
    RecordsWrite(RecordsWrite),
    RecordsCommit(RecordsCommit),
    RecordsDelete(RecordsDelete),
}

impl Clone for Descriptor {
    fn clone(&self) -> (c: Self)
        ensures
            c == *self,
    {
        match self {
            Descriptor::RecordsRead(d) => Descriptor::RecordsRead(d.clone()),
            Descriptor::RecordsQuery(d) => Descriptor::RecordsQuery(d.clone()),
            Descriptor::RecordsWrite(d) => Descriptor::RecordsWrite(d.clone()),
            Descriptor::RecordsCommit(d) => Descriptor::RecordsCommit(d.clone()),
            Descriptor::RecordsDelete(d) => Descriptor::RecordsDelete(d.clone()),
        }
    }
}

/// Whether every instant of a descriptor can be written in RFC 3339.
pub open spec fn descriptor_encodable(d: Descriptor) -> bool {
    match d {
        Descriptor::RecordsRead(r) => r.encodable(),
        Descriptor::RecordsQuery(q) => q.encodable(),
        Descriptor::RecordsWrite(w) => w.encodable(),
        Descriptor::RecordsCommit(c) => c.encodable(),
        Descriptor::RecordsDelete(x) => x.encodable(),
    }
}

/// The DAG-CBOR encoding of a descriptor: that of the record descriptor it holds.
pub open spec fn descriptor_cbor(d: Descriptor) -> Seq<u8> {
    match d {
        Descriptor::RecordsRead(r) => cbor_map(r.entries()),
        Descriptor::RecordsQuery(q) => cbor_map(q.entries()),
        Descriptor::RecordsWrite(w) => cbor_map(w.entries()),
        Descriptor::RecordsCommit(c) => cbor_map(c.entries()),
        Descriptor::RecordsDelete(x) => cbor_map(x.entries()),
    }
}

/// The kind of descriptor that an interface and a method name.
#[derive(Clone, Copy, Debug, PartialEq, Eq)]
pub enum DescriptorKind {
    RecordsRead,
    RecordsQuery,
    RecordsWrite,
    RecordsCommit,
    RecordsDelete,
}

/// Why a descriptor's interface and method name no descriptor.
#[derive(Clone, Copy, Debug, PartialEq, Eq)]
pub enum DescriptorKindError {
    MissingInterface,
    MissingMethod,
    UnsupportedInterface,
}

/// The kind of descriptor named by an interface and a method, as read from a
/// message: both must be present, and the interface must be `Records`.
pub open spec fn spec_descriptor_kind(interface: Option<Seq<char>>, method: Option<Seq<char>>) -> Result<
    DescriptorKind,
    DescriptorKindError,
> {
    match interface {
        None => Err(DescriptorKindError::MissingInterface),
        Some(i) => match method {
            None => Err(DescriptorKindError::MissingMethod),
            Some(m) => if i == "Records"@ {
                if m == "Read"@ {
                    Ok(DescriptorKind::RecordsRead)
                } else if m == "Query"@ {
                    Ok(DescriptorKind::RecordsQuery)
                } else if m == "Write"@ {
                    Ok(DescriptorKind::RecordsWrite)
                } else if m == "Commit"@ {
                    Ok(DescriptorKind::RecordsCommit)
                } else if m == "Delete"@ {
                    Ok(DescriptorKind::RecordsDelete)
                } else {
                    Err(DescriptorKindError::UnsupportedInterface)
                }
            } else {
                Err(DescriptorKindError::UnsupportedInterface)
            },
        },
    }
}

/// The view of an optional string slice.
pub open spec fn opt_str_view(s: Option<&str>) -> Option<Seq<char>> {
    match s {
        Some(v) => Some(v@),
        None => None,
    }
}

/// The kind of descriptor named by a message's `interface` and `method` fields.
pub fn descriptor_kind(interface: Option<&str>, method: Option<&str>) -> (r: Result<
    DescriptorKind,
    DescriptorKindError,
>)
    ensures
        r == spec_descriptor_kind(opt_str_view(interface), opt_str_view(method)),
{
    let i = match interface {
        None => {
            return Err(DescriptorKindError::MissingInterface);
        },
        Some(i) => i,
    };
    let m = match method {
        None => {
            return Err(DescriptorKindError::MissingMethod);
        },
        Some(m) => m,
    };
    if !str_eq(i, "Records") {
        return Err(DescriptorKindError::UnsupportedInterface);
    }
    if str_eq(m, "Read") {
        Ok(DescriptorKind::RecordsRead)
    } else if str_eq(m, "Query") {
        Ok(DescriptorKind::RecordsQuery)
    } else if str_eq(m, "Write") {
        Ok(DescriptorKind::RecordsWrite)
    } else if str_eq(m, "Commit") {
        Ok(DescriptorKind::RecordsCommit)
    } else if str_eq(m, "Delete") {
        Ok(DescriptorKind::RecordsDelete)
    } else {
        Err(DescriptorKindError::UnsupportedInterface)
    }
}

impl Descriptor {
    /// The DAG-CBOR encoding of the descriptor.
    pub fn to_cbor(&self) -> (r: Result<Vec<u8>, CborEncodeError>)
        ensures
            r is Ok <==> descriptor_encodable(*self),
            r matches Ok(b) ==> b@ == descriptor_cbor(*self),
            r matches Err(e) ==> e is Serde,
    {
        match self {
            Descriptor::RecordsRead(d) => d.to_cbor(),
            Descriptor::RecordsQuery(d) => d.to_cbor(),
            Descriptor::RecordsWrite(d) => d.to_cbor(),
            Descriptor::RecordsCommit(d) => d.to_cbor(),
            Descriptor::RecordsDelete(d) => d.to_cbor(),
        }
    }

    /// The kind of the descriptor.
    pub open spec fn spec_kind(self) -> DescriptorKind {
        match self {
            Descriptor::RecordsRead(_) => DescriptorKind::RecordsRead,
            Descriptor::RecordsQuery(_) => DescriptorKind::RecordsQuery,
            Descriptor::RecordsWrite(_) => DescriptorKind::RecordsWrite,
            Descriptor::RecordsCommit(_) => DescriptorKind::RecordsCommit,
            Descriptor::RecordsDelete(_) => DescriptorKind::RecordsDelete,
        }
    }

    /// The kind of the descriptor.
    pub fn kind(&self) -> (k: DescriptorKind)
        ensures
            k == self.spec_kind(),
    {
        match self {
            Descriptor::RecordsRead(_) => DescriptorKind::RecordsRead,
            Descriptor::RecordsQuery(_) => DescriptorKind::RecordsQuery,
            Descriptor::RecordsWrite(_) => DescriptorKind::RecordsWrite,
            Descriptor::RecordsCommit(_) => DescriptorKind::RecordsCommit,
            Descriptor::RecordsDelete(_) => DescriptorKind::RecordsDelete,
        }
    }

    /// The interface of the descriptor: always Records.
    pub fn interface(&self) -> (i: Interface)
        ensures
            i == Interface::Records,
    {
        Interface::Records
    }

    /// The method of the descriptor.
    pub fn method(&self) -> (m: Method)
        ensures
            m == match *self {
                Descriptor::RecordsRead(_) => Method::Read,
                Descriptor::RecordsQuery(_) => Method::Query,
                Descriptor::RecordsWrite(_) => Method::Write,
                Descriptor::RecordsCommit(_) => Method::Commit,
                Descriptor::RecordsDelete(_) => Method::Delete,
            },
    {
        match self {
            Descriptor::RecordsRead(_) => Method::Read,
            Descriptor::RecordsQuery(_) => Method::Query,
            Descriptor::RecordsWrite(_) => Method::Write,
            Descriptor::RecordsCommit(_) => Method::Commit,
            Descriptor::RecordsDelete(_) => Method::Delete,
        }
    }

    /// The message timestamp of the descriptor.
    pub open spec fn spec_message_timestamp(self) -> Timestamp {
        match self {
            Descriptor::RecordsRead(d) => d.message_timestamp,
            Descriptor::RecordsQuery(d) => d.message_timestamp,
            Descriptor::RecordsWrite(d) => d.message_timestamp,
            Descriptor::RecordsCommit(d) => d.message_timestamp,
            Descriptor::RecordsDelete(d) => d.message_timestamp,
        }
    }

    /// The descriptor with its message timestamp set to `t`.
    pub open spec fn with_message_timestamp(self, t: Timestamp) -> Descriptor {
        match self {
            Descriptor::RecordsRead(x) => Descriptor::RecordsRead(
                RecordsRead { message_timestamp: t, ..x },
            ),
            Descriptor::RecordsQuery(x) => Descriptor::RecordsQuery(
                RecordsQuery { message_timestamp: t, ..x },
            ),
            Descriptor::RecordsCommit(x) => Descriptor::RecordsCommit(
                RecordsCommit { message_timestamp: t, ..x },
            ),
            Descriptor::RecordsDelete(x) => Descriptor::RecordsDelete(
                RecordsDelete { message_timestamp: t, ..x },
            ),
            Descriptor::RecordsWrite(x) => Descriptor::RecordsWrite(
                RecordsWrite { message_timestamp: t, ..x },
            ),
        }
    }

    /// Replaces the message timestamp of the descriptor.
    pub fn set_message_timestamp(&mut self, t: Timestamp)
        ensures
            *final(self) == old(self).with_message_timestamp(t),
            final(self).spec_message_timestamp() == t,
            final(self).spec_kind() == old(self).spec_kind(),
    {
        match self {
            Descriptor::RecordsRead(d) => d.message_timestamp = t,
            Descriptor::RecordsQuery(d) => d.message_timestamp = t,
            Descriptor::RecordsWrite(d) => d.message_timestamp = t,
            Descriptor::RecordsCommit(d) => d.message_timestamp = t,
            Descriptor::RecordsDelete(d) => d.message_timestamp = t,
        }
    }
}

impl From<RecordsRead> for Descriptor {
    fn from(desc: RecordsRead) -> (d: Self) {
        Descriptor::RecordsRead(desc)
    }
}

impl vstd::std_specs::convert::FromSpecImpl<RecordsRead> for Descriptor {
    open spec fn obeys_from_spec() -> bool {
        true
    }

    open spec fn from_spec(desc: RecordsRead) -> Self {
        Descriptor::RecordsRead(desc)
    }
}

impl From<RecordsQuery> for Descriptor {
    fn from(desc: RecordsQuery) -> (d: Self) {
        Descriptor::RecordsQuery(desc)
    }
}

impl vstd::std_specs::convert::FromSpecImpl<RecordsQuery> for Descriptor {
    open spec fn obeys_from_spec() -> bool {
        true
    }

    open spec fn from_spec(desc: RecordsQuery) -> Self {
        Descriptor::RecordsQuery(desc)
    }
}

impl From<RecordsWrite> for Descriptor {
    fn from(desc: RecordsWrite) -> (d: Self) {
        Descriptor::RecordsWrite(desc)
    }
}

impl vstd::std_specs::convert::FromSpecImpl<RecordsWrite> for Descriptor {
    open spec fn obeys_from_spec() -> bool {
        true
    }

    open spec fn from_spec(desc: RecordsWrite) -> Self {
        Descriptor::RecordsWrite(desc)
    }
}

impl From<RecordsCommit> for Descriptor {
    fn from(desc: RecordsCommit) -> (d: Self) {
        Descriptor::RecordsCommit(desc)
    }
}

impl vstd::std_specs::convert::FromSpecImpl<RecordsCommit> for Descriptor {
    open spec fn obeys_from_spec() -> bool {
        true
    }

    open spec fn from_spec(desc: RecordsCommit) -> Self {
        Descriptor::RecordsCommit(desc)
    }
}

impl From<RecordsDelete> for Descriptor {
    fn from(desc: RecordsDelete) -> (d: Self) {
        Descriptor::RecordsDelete(desc)
    }
}

impl vstd::std_specs::convert::FromSpecImpl<RecordsDelete> for Descriptor {
    open spec fn obeys_from_spec() -> bool {
        true
    }

    open spec fn from_spec(desc: RecordsDelete) -> Self {
        Descriptor::RecordsDelete(desc)
    }
}

} // verus!
