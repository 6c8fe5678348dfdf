//! Messages into the registry, query responses out of it, and the flat
//! audit record that every mutation returns.

use vstd::prelude::*;

verus! {

/// What the registry reads of the host block: the monotonic change
/// marker it records on mutations, and the current time, in seconds,
/// expiries are computed from.
#[derive(Debug, Clone, Copy, PartialEq, Eq)]
pub struct BlockInfo {
    pub height: u64,
    pub time_seconds: u64,
}

/// The host context a call executes under.
#[derive(Debug, Clone, Copy, PartialEq, Eq)]
pub struct Env {
    pub block: BlockInfo,
}

/// The authenticated acting principal the host supplies with a call.
#[derive(Debug, Clone, PartialEq, Eq)]
pub struct MessageInfo {
    pub sender: String,
}

#[derive(Debug, Clone, PartialEq, Eq)]
pub struct InstantiateMsg {}

#[derive(Debug, Clone, PartialEq, Eq)]
pub enum ExecuteMsg {
    ChangeController { identifier: String, new_controller: String },
    SetAttribute { identifier: String, name: String, value: String, validity: u64 },
    RevokeAttribute { identifier: String, name: String, value: String },
}

#[derive(Debug, Clone, PartialEq, Eq)]
pub enum QueryMsg {
    Controller { identifier: String },
    Attribute { identifier: String, name: String },
    ValidTo { identifier: String, name: String, value: String },
}

#[derive(Debug, Clone, PartialEq, Eq)]
pub struct ControllerResponse {
    pub controller: String,
}

#[derive(Debug, Clone, PartialEq, Eq)]
pub struct AttributeResponse {
    pub values: Vec<String>,
}

#[derive(Debug, Clone, PartialEq, Eq)]
pub struct ValidToResponse {
    pub valid_to: u64,
}

/// The answer to one query, carrying the response that matches the
/// query's variant.
#[derive(Debug, Clone, PartialEq, Eq)]
pub enum QueryAnswer {
    Controller(ControllerResponse),
    Attribute(AttributeResponse),
    ValidTo(ValidToResponse),
}

/// One key/value pair of a mutation's audit record.
#[derive(Debug, Clone, PartialEq, Eq)]
pub struct EventAttribute {
    pub key: String,
    pub value: String,
}

/// The flat audit record a successful mutation returns: key/value pairs
/// naming the identifier, the operation's fields, the previous change
/// marker, and the acting principal.
#[derive(Debug, Clone, PartialEq, Eq)]
pub struct Response {
    pub attributes: Vec<EventAttribute>,
}

impl Response {
    /// The record's pairs, as sequences of characters.
    pub open spec fn spec_pairs(self) -> Seq<(Seq<char>, Seq<char>)> {
        self.attributes@.map(|i: int, a: EventAttribute| (a.key@, a.value@))
    }

    /// An empty record.
    pub fn new() -> (r: Response)
        ensures
            r.spec_pairs() == Seq::<(Seq<char>, Seq<char>)>::empty(),
    {
        let r = Response { attributes: Vec::new() };
        proof {
            assert(r.spec_pairs() =~= Seq::<(Seq<char>, Seq<char>)>::empty());
        }
        r
    }

    /// The record with one more pair at the end.
    pub fn add_attribute(self, key: &str, value: String) -> (r: Response)
        ensures
            r.spec_pairs() == self.spec_pairs().push((key@, value@)),
    {
        let ghost orig = self.spec_pairs();
        let ghost pushed = value@;
        let mut attributes = self.attributes;
        attributes.push(EventAttribute { key: String::from_str(key), value });
        let r = Response { attributes };
        proof {
            assert(r.spec_pairs() =~= orig.push((key@, pushed)));
        }
        r
    }
}

} // verus!
