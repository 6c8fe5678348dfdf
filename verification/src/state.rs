//! The registry's persistent state: an injected key-value store handle
//! with four named regions (controllers, change markers, attribute value
//! sequences, and per-value expiry timestamps), each modelled as a map
//! from plain keys to plain values.
//!
//! The handle wraps an in-memory `cosmwasm_std` storage backend accessed
//! through `cw_storage_plus` maps. Each region lives under its own
//! namespace; `cw_storage_plus` builds storage keys by length-prefixing
//! the namespace and every key component, so distinct regions and
//! distinct composite keys never collide, which is what the frame
//! clauses of the accessors below state.

use vstd::prelude::*;

verus! {

/// A named, multi-valued attribute record: the ordered sequence of
/// distinct values set so far for one (identifier, name) key.
#[derive(Debug, Clone, PartialEq, Eq)]
pub struct Attribute {
    pub values: Vec<String>,
}

/// The store handle. It owns the backing key-value storage; all access
/// goes through the accessor methods below, whose contracts speak of the
/// four region maps.
#[verifier::external_body]
pub struct Store {
    mem: cosmwasm_std::MemoryStorage,
}

/// The controller region: identifier -> controlling principal.
pub uninterp spec fn controllers_of(s: Store) -> Map<Seq<char>, Seq<char>>;

/// The change-marker region: identifier -> marker of the last mutation.
pub uninterp spec fn changed_of(s: Store) -> Map<Seq<char>, u64>;

/// The attribute region: (identifier, name) -> ordered value sequence.
pub uninterp spec fn attributes_of(s: Store) -> Map<(Seq<char>, Seq<char>), Seq<Seq<char>>>;

/// The validity region: (identifier, name, value) -> expiry timestamp,
/// in seconds.
pub uninterp spec fn validities_of(s: Store) -> Map<(Seq<char>, Seq<char>, Seq<char>), u64>;

/// The number of bytes a character occupies in UTF-8.
pub open spec fn spec_utf8_len_char(c: char) -> nat {
    if (c as u32) < 0x80 {
        1
    } else if (c as u32) < 0x800 {
        2
    } else if (c as u32) < 0x10000 {
        3
    } else {
        4
    }
}

/// The number of bytes of a string's UTF-8 encoding, which is how the
/// backing store keys it. The store builds composite keys by prefixing
/// every component but the last with its length in two bytes, so a
/// prefixed component (the identifier, and for validity keys also the
/// name) must encode to at most 0xFFFF bytes; the accessors for those
/// regions require it.
pub open spec fn spec_utf8_len(s: Seq<char>) -> nat
    decreases s.len(),
{
    if s.len() == 0 {
        0
    } else {
        spec_utf8_len_char(s[0]) + spec_utf8_len(s.drop_first())
    }
}

/// The controller recorded for an identifier; the identifier itself
/// when no record exists (the self-sovereign default).
pub open spec fn spec_controller_of(
    controllers: Map<Seq<char>, Seq<char>>,
    identifier: Seq<char>,
) -> Seq<char> {
    if controllers.dom().contains(identifier) {
        controllers[identifier]
    } else {
        identifier
    }
}

/// The change marker recorded for an identifier; zero when no mutation
/// was recorded yet.
pub open spec fn spec_changed_of(changed: Map<Seq<char>, u64>, identifier: Seq<char>) -> u64 {
    if changed.dom().contains(identifier) {
        changed[identifier]
    } else {
        0
    }
}

/// The value sequence recorded for (identifier, name); empty when no
/// record exists.
pub open spec fn spec_values_of(
    attributes: Map<(Seq<char>, Seq<char>), Seq<Seq<char>>>,
    identifier: Seq<char>,
    name: Seq<char>,
) -> Seq<Seq<char>> {
    if attributes.dom().contains((identifier, name)) {
        attributes[(identifier, name)]
    } else {
        Seq::empty()
    }
}

/// The expiry recorded for (identifier, name, value); zero when no
/// record exists, so a value never set reads as already expired.
pub open spec fn spec_valid_to_of(
    validities: Map<(Seq<char>, Seq<char>, Seq<char>), u64>,
    identifier: Seq<char>,
    name: Seq<char>,
    value: Seq<char>,
) -> u64 {
    if validities.dom().contains((identifier, name, value)) {
        validities[(identifier, name, value)]
    } else {
        0
    }
}

/// All four regions of the store hold no record at all.
pub open spec fn store_is_empty(s: Store) -> bool {
    &&& controllers_of(s) == Map::<Seq<char>, Seq<char>>::empty()
    &&& changed_of(s) == Map::<Seq<char>, u64>::empty()
    &&& attributes_of(s) == Map::<(Seq<char>, Seq<char>), Seq<Seq<char>>>::empty()
    &&& validities_of(s) == Map::<(Seq<char>, Seq<char>, Seq<char>), u64>::empty()
}

impl Store {
    /// Relies on `cosmwasm_std::MemoryStorage::new`: a fresh in-memory
    /// backend holds no record under any key, so all four regions are
    /// empty.
    #[verifier::external_body]
    fn fresh() -> (s: Store)
        ensures
            store_is_empty(s),
    {
        Store { mem: cosmwasm_std::MemoryStorage::new() }
    }

    /// A store with no controller, marker, attribute or validity records.
    pub fn new() -> (s: Store)
        ensures
            store_is_empty(s),
    {
        Store::fresh()
    }

    /// Relies on `cw_storage_plus::Map::may_load` over the in-memory
    /// backend: it returns the value last saved under this key in the
    /// "controller" namespace, or `None` when none was saved. In-memory
    /// reads do not fail, and the principal strings written by
    /// `save_controller` deserialize back unchanged.
    #[verifier::external_body]
    pub(crate) fn load_controller(&self, identifier: &String) -> (r: Option<String>)
        ensures
            match r {
                Some(c) => controllers_of(*self).dom().contains(identifier@)
                    && c@ == controllers_of(*self)[identifier@],
                None => !controllers_of(*self).dom().contains(identifier@),
            },
    {
        cw_storage_plus::Map::<&cosmwasm_std::Addr, cosmwasm_std::Addr>::new("controller")
            .may_load(&self.mem, &cosmwasm_std::Addr::unchecked(identifier.as_str()))
            .unwrap()
            .map(|a| a.into_string())
    }

    /// Relies on `cw_storage_plus::Map::save` over the in-memory backend:
    /// it replaces the value under this key in the "controller"
    /// namespace and touches no other namespace and no other key.
    /// Serializing a principal string cannot fail, so in-memory writes
    /// always succeed.
    #[verifier::external_body]
    pub(crate) fn save_controller(&mut self, identifier: &String, controller: &String)
        ensures
            controllers_of(*final(self)) == controllers_of(*old(self)).insert(
                identifier@,
                controller@,
            ),
            changed_of(*final(self)) == changed_of(*old(self)),
            attributes_of(*final(self)) == attributes_of(*old(self)),
            validities_of(*final(self)) == validities_of(*old(self)),
    {
        cw_storage_plus::Map::<&cosmwasm_std::Addr, cosmwasm_std::Addr>::new("controller")
            .save(
                &mut self.mem,
                &cosmwasm_std::Addr::unchecked(identifier.as_str()),
                &cosmwasm_std::Addr::unchecked(controller.as_str()),
            )
            .unwrap()
    }

    /// Relies on `cw_storage_plus::Map::may_load` over the in-memory
    /// backend, in the "changed" namespace: see `load_controller`.
    #[verifier::external_body]
    pub(crate) fn load_changed(&self, identifier: &String) -> (r: Option<u64>)
        ensures
            match r {
                Some(m) => changed_of(*self).dom().contains(identifier@)
                    && m == changed_of(*self)[identifier@],
                None => !changed_of(*self).dom().contains(identifier@),
            },
    {
        cw_storage_plus::Map::<&cosmwasm_std::Addr, u64>::new("changed")
            .may_load(&self.mem, &cosmwasm_std::Addr::unchecked(identifier.as_str()))
            .unwrap()
    }

    /// Relies on `cw_storage_plus::Map::save` over the in-memory backend,
    /// in the "changed" namespace: see `save_controller`.
    #[verifier::external_body]
    pub(crate) fn save_changed(&mut self, identifier: &String, marker: u64)
        ensures
            changed_of(*final(self)) == changed_of(*old(self)).insert(identifier@, marker),
            controllers_of(*final(self)) == controllers_of(*old(self)),
            attributes_of(*final(self)) == attributes_of(*old(self)),
            validities_of(*final(self)) == validities_of(*old(self)),
    {
        cw_storage_plus::Map::<&cosmwasm_std::Addr, u64>::new("changed")
            .save(&mut self.mem, &cosmwasm_std::Addr::unchecked(identifier.as_str()), &marker)
            .unwrap()
    }

    /// Relies on `cw_storage_plus::Map::may_load` over the in-memory
    /// backend, in the "attribute" namespace, under the composite
    /// (identifier, name) key: see `load_controller`. The identifier is
    /// length-prefixed in the storage key, so its encoding must fit the
    /// two-byte length, else the key building panics.
    #[verifier::external_body]
    pub(crate) fn load_attribute(&self, identifier: &String, name: &String) -> (r: Option<
        Vec<String>,
    >)
        requires
            spec_utf8_len(identifier@) <= 0xFFFF,
        ensures
            match r {
                Some(vs) => attributes_of(*self).dom().contains((identifier@, name@))
                    && vs.deep_view() == attributes_of(*self)[(identifier@, name@)],
                None => !attributes_of(*self).dom().contains((identifier@, name@)),
            },
    {
        cw_storage_plus::Map::<(&cosmwasm_std::Addr, &str), Vec<String>>::new("attribute")
            .may_load(
                &self.mem,
                (&cosmwasm_std::Addr::unchecked(identifier.as_str()), name.as_str()),
            )
            .unwrap()
    }

    /// Relies on `cw_storage_plus::Map::save` over the in-memory backend,
    /// in the "attribute" namespace, under the composite (identifier,
    /// name) key: see `save_controller`. The identifier is
    /// length-prefixed in the storage key, so its encoding must fit the
    /// two-byte length, else the key building panics.
    #[verifier::external_body]
    pub(crate) fn save_attribute(&mut self, identifier: &String, name: &String, values: &Vec<
        String,
    >)
        requires
            spec_utf8_len(identifier@) <= 0xFFFF,
        ensures
            attributes_of(*final(self)) == attributes_of(*old(self)).insert(
                (identifier@, name@),
                values.deep_view(),
            ),
            controllers_of(*final(self)) == controllers_of(*old(self)),
            changed_of(*final(self)) == changed_of(*old(self)),
            validities_of(*final(self)) == validities_of(*old(self)),
    {
        cw_storage_plus::Map::<(&cosmwasm_std::Addr, &str), Vec<String>>::new("attribute")
            .save(
                &mut self.mem,
                (&cosmwasm_std::Addr::unchecked(identifier.as_str()), name.as_str()),
                values,
            )
            .unwrap()
    }

    /// Relies on `cw_storage_plus::Map::may_load` over the in-memory
    /// backend, in the "validities" namespace, under the composite
    /// (identifier, name, value) key: see `load_controller`. The
    /// identifier and the name are length-prefixed in the storage key,
    /// so their encodings must fit the two-byte length, else the key
    /// building panics.
    #[verifier::external_body]
    pub(crate) fn load_validity(&self, identifier: &String, name: &String, value: &String) -> (r:
        Option<u64>)
        requires
            spec_utf8_len(identifier@) <= 0xFFFF,
            spec_utf8_len(name@) <= 0xFFFF,
        ensures
            match r {
                Some(t) => validities_of(*self).dom().contains((identifier@, name@, value@))
                    && t == validities_of(*self)[(identifier@, name@, value@)],
                None => !validities_of(*self).dom().contains((identifier@, name@, value@)),
            },
    {
        cw_storage_plus::Map::<(&cosmwasm_std::Addr, &str, &str), u64>::new("validities")
            .may_load(
                &self.mem,
                (&cosmwasm_std::Addr::unchecked(identifier.as_str()), name.as_str(), value.as_str()),
            )
            .unwrap()
    }

    /// Relies on `cw_storage_plus::Map::save` over the in-memory backend,
    /// in the "validities" namespace, under the composite (identifier,
    /// name, value) key: see `save_controller`. The identifier and the
    /// name are length-prefixed in the storage key, so their encodings
    /// must fit the two-byte length, else the key building panics.
    #[verifier::external_body]
    pub(crate) fn save_validity(&mut self, identifier: &String, name: &String, value: &String, valid_to: u64)
        requires
            spec_utf8_len(identifier@) <= 0xFFFF,
            spec_utf8_len(name@) <= 0xFFFF,
        ensures
            validities_of(*final(self)) == validities_of(*old(self)).insert(
                (identifier@, name@, value@),
                valid_to,
            ),
            controllers_of(*final(self)) == controllers_of(*old(self)),
            changed_of(*final(self)) == changed_of(*old(self)),
            attributes_of(*final(self)) == attributes_of(*old(self)),
    {
        cw_storage_plus::Map::<(&cosmwasm_std::Addr, &str, &str), u64>::new("validities")
            .save(
                &mut self.mem,
                (&cosmwasm_std::Addr::unchecked(identifier.as_str()), name.as_str(), value.as_str()),
                &valid_to,
            )
            .unwrap()
    }
}

} // verus!
