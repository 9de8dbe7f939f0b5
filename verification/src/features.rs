//! What a node tells of the interfaces and methods it supports.

use std::collections::BTreeMap;

use vstd::prelude::*;

verus! {

/// The answer to a feature detection request.
#[derive(Debug)]
pub struct FeatureDetection {
    pub type_: String,
    pub interfaces: Interfaces,
}

/// The interfaces of a node, each with the methods it supports.
#[derive(Debug)]
pub struct Interfaces {
    pub protocols: Option<BTreeMap<String, bool>>,
    pub records: Option<BTreeMap<String, bool>>,
    pub permissions: Option<BTreeMap<String, bool>>,
    pub messaging: Option<Messaging>,
}

/// What a node supports of messaging.
#[derive(Debug)]
pub struct Messaging {
    pub batching: Option<bool>,
}

impl Default for FeatureDetection {
    /// A detection answer of type `FeatureDetection` that names no interface.
    fn default() -> (f: Self)
        ensures
            f.type_@ == "FeatureDetection"@,
            f.interfaces.protocols is None,
            f.interfaces.records is None,
            f.interfaces.permissions is None,
            f.interfaces.messaging is None,
    {
        let type_ = "FeatureDetection".to_owned();
        proof {
            reveal_strlit("FeatureDetection");
        }
        FeatureDetection {
            type_,
            interfaces: Interfaces { protocols: None, records: None, permissions: None, messaging: None },
        }
    }
}

/// The methods of the Protocols interface.
#[derive(Clone, Copy, Debug, PartialEq, Eq)]
pub enum Protocol {
    ProtocolsConfigure,
    ProtocolsQuery,
}

/// The methods of the Records interface.
#[derive(Clone, Copy, Debug, PartialEq, Eq)]
pub enum Records {
    RecordsCommit,
    RecordsDelete,
    RecordsQuery,
    RecordsWrite,
}

/// The methods of the Permissions interface.
#[derive(Clone, Copy, Debug, PartialEq, Eq)]
pub enum Permission {
    PermissionsGrant,
    PermissionsRevoke,
}

impl Protocol {
    /// The method's name.
    pub open spec fn name(self) -> Seq<char> {
        match self {
            Protocol::ProtocolsConfigure => "ProtocolsConfigure"@,
            Protocol::ProtocolsQuery => "ProtocolsQuery"@,
        }
    }

    /// The method's name as a JSON string, quotes included.
    pub fn to_string(&self) -> (s: String)
        ensures
            s@ == seq!['"'] + self.name() + seq!['"'],
    {
        let s = match self {
            Protocol::ProtocolsConfigure => "\"ProtocolsConfigure\"",
            Protocol::ProtocolsQuery => "\"ProtocolsQuery\"",
        };
        proof {
            reveal_strlit("\"ProtocolsConfigure\"");
            reveal_strlit("\"ProtocolsQuery\"");
            reveal_strlit("ProtocolsConfigure");
            reveal_strlit("ProtocolsQuery");
            assert(seq!['"'] + self.name() + seq!['"'] =~= s@);
        }
        s.to_owned()
    }
}

impl Records {
    /// The method's name.
    pub open spec fn name(self) -> Seq<char> {
        match self {
            Records::RecordsCommit => "RecordsCommit"@,
            Records::RecordsDelete => "RecordsDelete"@,
            Records::RecordsQuery => "RecordsQuery"@,
            Records::RecordsWrite => "RecordsWrite"@,
        }
    }

    /// The method's name as a JSON string, quotes included.
    pub fn to_string(&self) -> (s: String)
        ensures
            s@ == seq!['"'] + self.name() + seq!['"'],
    {
        let s = match self {
            Records::RecordsCommit => "\"RecordsCommit\"",
            Records::RecordsDelete => "\"RecordsDelete\"",
            Records::RecordsQuery => "\"RecordsQuery\"",
            Records::RecordsWrite => "\"RecordsWrite\"",
        };
        proof {
            reveal_strlit("\"RecordsCommit\"");
            reveal_strlit("\"RecordsDelete\"");
            reveal_strlit("\"RecordsQuery\"");
            reveal_strlit("\"RecordsWrite\"");
            reveal_strlit("RecordsCommit");
            reveal_strlit("RecordsDelete");
            reveal_strlit("RecordsQuery");
            reveal_strlit("RecordsWrite");
            assert(seq!['"'] + self.name() + seq!['"'] =~= s@);
        }
        s.to_owned()
    }
}

impl Permission {
    /// The method's name.
    pub open spec fn name(self) -> Seq<char> {
        match self {
            Permission::PermissionsGrant => "PermissionsGrant"@,
            Permission::PermissionsRevoke => "PermissionsRevoke"@,
        }
    }

    /// The method's name as a JSON string, quotes included.
    pub fn to_string(&self) -> (s: String)
        ensures
            s@ == seq!['"'] + self.name() + seq!['"'],
    {
        let s = match self {
            Permission::PermissionsGrant => "\"PermissionsGrant\"",
            Permission::PermissionsRevoke => "\"PermissionsRevoke\"",
        };
        proof {
            reveal_strlit("\"PermissionsGrant\"");
            reveal_strlit("\"PermissionsRevoke\"");
            reveal_strlit("PermissionsGrant");
            reveal_strlit("PermissionsRevoke");
            assert(seq!['"'] + self.name() + seq!['"'] =~= s@);
        }
        s.to_owned()
    }
}

} // verus!
