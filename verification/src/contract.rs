//! The registry service: the three mutations, each authorizing the
//! caller against the current controller before writing and advancing
//! the change marker after writing, and the three read queries, which
//! answer with defaults where no record exists.

use vstd::prelude::*;

use crate::digits::{dec_rep, u64_to_dec_string};
use crate::error::ContractError;
use crate::helper::{only_controller, spec_authorized};
use crate::msg::{
    AttributeResponse, ControllerResponse, Env, ExecuteMsg, MessageInfo, QueryAnswer, QueryMsg,
    Response, ValidToResponse,
};
use crate::state::{
    attributes_of, changed_of, controllers_of, spec_changed_of, spec_controller_of,
    spec_utf8_len, spec_valid_to_of, spec_values_of, validities_of, Attribute, Store,
};

verus! {

/// The value sequence after setting a value: unchanged when the value is
/// already present, extended by it at the end otherwise.
pub open spec fn spec_set_values(values: Seq<Seq<char>>, value: Seq<char>) -> Seq<Seq<char>> {
    if values.contains(value) {
        values
    } else {
        values.push(value)
    }
}

/// The identifier a mutation message is about.
pub open spec fn spec_msg_identifier(msg: ExecuteMsg) -> Seq<char> {
    match msg {
        ExecuteMsg::ChangeController { identifier, new_controller } => identifier@,
        ExecuteMsg::SetAttribute { identifier, name, value, validity } => identifier@,
        ExecuteMsg::RevokeAttribute { identifier, name, value } => identifier@,
    }
}

/// How a successful mutation changes the four store regions.
pub open spec fn spec_apply(s0: Store, s1: Store, env: Env, msg: ExecuteMsg) -> bool {
    match msg {
        ExecuteMsg::ChangeController { identifier, new_controller } => {
            &&& controllers_of(s1) == controllers_of(s0).insert(identifier@, new_controller@)
            &&& attributes_of(s1) == attributes_of(s0)
            &&& validities_of(s1) == validities_of(s0)
            &&& changed_of(s1) == changed_of(s0).insert(identifier@, env.block.height)
        },
        ExecuteMsg::SetAttribute { identifier, name, value, validity } => {
            &&& controllers_of(s1) == controllers_of(s0)
            &&& attributes_of(s1) == attributes_of(s0).insert(
                (identifier@, name@),
                spec_set_values(spec_values_of(attributes_of(s0), identifier@, name@), value@),
            )
            &&& validities_of(s1) == validities_of(s0).insert(
                (identifier@, name@, value@),
                (env.block.time_seconds + validity) as u64,
            )
            &&& changed_of(s1) == changed_of(s0).insert(identifier@, env.block.height)
        },
        ExecuteMsg::RevokeAttribute { identifier, name, value } => {
            &&& controllers_of(s1) == controllers_of(s0)
            &&& attributes_of(s1) == attributes_of(s0)
            &&& validities_of(s1) == validities_of(s0)
            &&& changed_of(s1) == changed_of(s0).insert(identifier@, env.block.height)
        },
    }
}

/// The audit record a successful mutation returns: the identifier, the
/// operation's fields, the change marker before the call, and the
/// acting principal.
pub open spec fn spec_record(s0: Store, env: Env, sender: Seq<char>, msg: ExecuteMsg) -> Seq<
    (Seq<char>, Seq<char>),
> {
    match msg {
        ExecuteMsg::ChangeController { identifier, new_controller } => seq![
            ("identifier"@, identifier@),
            ("controller"@, new_controller@),
            ("previousChange"@, dec_rep(spec_changed_of(changed_of(s0), identifier@) as nat)),
        ],
        ExecuteMsg::SetAttribute { identifier, name, value, validity } => seq![
            ("identifier"@, identifier@),
            ("name"@, name@),
            ("value"@, value@),
            ("validTo"@, dec_rep((env.block.time_seconds + validity) as nat)),
            ("previousChange"@, dec_rep(spec_changed_of(changed_of(s0), identifier@) as nat)),
            ("from"@, sender),
        ],
        ExecuteMsg::RevokeAttribute { identifier, name, value } => seq![
            ("identifier"@, identifier@),
            ("name"@, name@),
            ("value"@, value@),
            ("validTo"@, dec_rep(0)),
            ("previousChange"@, dec_rep(spec_changed_of(changed_of(s0), identifier@) as nat)),
            ("from"@, sender),
        ],
    }
}

/// Whether the vector holds this string.
fn contains_string(values: &Vec<String>, target: &String) -> (r: bool)
    ensures
        r == values.deep_view().contains(target@),
{
    let n = values.len();
    let mut i: usize = 0;
    while i < n
        invariant
            0 <= i <= n,
            n == values.len(),
            forall|j: int| 0 <= j < i ==> values.deep_view()[j] != target@,
        decreases n - i,
    {
        if values[i] == *target {
            proof {
                assert(values.deep_view()[i as int] == target@);
            }
            return true;
        }
        i = i + 1;
    }
    proof {
        assert forall|j: int| 0 <= j < values.deep_view().len() implies values.deep_view()[j]
            != target@ by {}
    }
    false
}

/// Replaces the identifier's controller with `new_controller`, if the
/// sender is the current controller, and advances the change marker to
/// the current block height.
pub fn try_change_controller(
    store: &mut Store,
    env: Env,
    info: MessageInfo,
    identifier: String,
    new_controller: String,
) -> (r: Result<Response, ContractError>)
    ensures
        r is Ok <==> spec_authorized(info.sender@, identifier@, controllers_of(*old(store))),
        r matches Err(e) ==> e == (ContractError::Unauthorized {}) && *final(store) == *old(
            store,
        ),
        r is Ok ==> controllers_of(*final(store)) == controllers_of(*old(store)).insert(
            identifier@,
            new_controller@,
        ),
        r is Ok ==> attributes_of(*final(store)) == attributes_of(*old(store)),
        r is Ok ==> validities_of(*final(store)) == validities_of(*old(store)),
        r is Ok ==> changed_of(*final(store)) == changed_of(*old(store)).insert(
            identifier@,
            env.block.height,
        ),
        r matches Ok(res) ==> res.spec_pairs() == seq![
            ("identifier"@, identifier@),
            ("controller"@, new_controller@),
            ("previousChange"@, dec_rep(spec_changed_of(changed_of(*old(store)), identifier@) as nat)),
        ],
{
    let ghost id_v = identifier@;
    let ghost ctrl_v = new_controller@;
    let loaded_controller = store.load_controller(&identifier);
    match only_controller(&info.sender, &identifier, loaded_controller) {
        Err(e) => {
            return Err(e);
        },
        Ok(()) => {},
    }
    store.save_controller(&identifier, &new_controller);
    let loaded_changed = store.load_changed(&identifier);
    let changed: u64 = match loaded_changed {
        Some(c) => c,
        None => 0,
    };
    let res = Response::new()
        .add_attribute("identifier", identifier.clone())
        .add_attribute("controller", new_controller)
        .add_attribute("previousChange", u64_to_dec_string(changed));
    store.save_changed(&identifier, env.block.height);
    proof {
        assert(res.spec_pairs() =~= seq![
            ("identifier"@, id_v),
            ("controller"@, ctrl_v),
            ("previousChange"@, dec_rep(spec_changed_of(changed_of(*old(store)), id_v) as nat)),
        ]);
    }
    Ok(res)
}

/// Records `value` under the identifier's attribute `name` (appending
/// it when new, leaving the sequence unchanged when already present),
/// sets the value's expiry to the current time plus `validity` seconds,
/// and advances the change marker, if the sender is the current
/// controller.
pub fn try_set_attribute(
    store: &mut Store,
    env: Env,
    info: MessageInfo,
    identifier: String,
    name: String,
    value: String,
    validity: u64,
) -> (r: Result<Response, ContractError>)
    requires
        env.block.time_seconds + validity <= u64::MAX,
        spec_utf8_len(identifier@) <= 0xFFFF,
        spec_utf8_len(name@) <= 0xFFFF,
    ensures
        r is Ok <==> spec_authorized(info.sender@, identifier@, controllers_of(*old(store))),
        r matches Err(e) ==> e == (ContractError::Unauthorized {}) && *final(store) == *old(
            store,
        ),
        r is Ok ==> controllers_of(*final(store)) == controllers_of(*old(store)),
        r is Ok ==> attributes_of(*final(store)) == attributes_of(*old(store)).insert(
            (identifier@, name@),
            spec_set_values(spec_values_of(attributes_of(*old(store)), identifier@, name@), value@),
        ),
        r is Ok ==> validities_of(*final(store)) == validities_of(*old(store)).insert(
            (identifier@, name@, value@),
            (env.block.time_seconds + validity) as u64,
        ),
        r is Ok ==> changed_of(*final(store)) == changed_of(*old(store)).insert(
            identifier@,
            env.block.height,
        ),
        r matches Ok(res) ==> res.spec_pairs() == seq![
            ("identifier"@, identifier@),
            ("name"@, name@),
            ("value"@, value@),
            ("validTo"@, dec_rep((env.block.time_seconds + validity) as nat)),
            ("previousChange"@, dec_rep(spec_changed_of(changed_of(*old(store)), identifier@) as nat)),
            ("from"@, info.sender@),
        ],
{
    let ghost id_v = identifier@;
    let ghost name_v = name@;
    let ghost val_v = value@;
    let ghost sender_v = info.sender@;
    let loaded_controller = store.load_controller(&identifier);
    match only_controller(&info.sender, &identifier, loaded_controller) {
        Err(e) => {
            return Err(e);
        },
        Ok(()) => {},
    }
    let loaded_changed = store.load_changed(&identifier);
    let changed: u64 = match loaded_changed {
        Some(c) => c,
        None => 0,
    };
    let loaded_attribute = store.load_attribute(&identifier, &name);
    let mut attribute: Attribute = match loaded_attribute {
        Some(vs) => Attribute { values: vs },
        None => Attribute { values: Vec::new() },
    };
    let ghost old_values = spec_values_of(attributes_of(*old(store)), id_v, name_v);
    proof {
        assert(attribute.values.deep_view() =~= old_values);
    }
    let valid_to = env.block.time_seconds + validity;
    if contains_string(&attribute.values, &value) {
        store.save_validity(&identifier, &name, &value, valid_to);
        proof {
            assert(attributes_of(*store) =~= attributes_of(*old(store)).insert(
                (id_v, name_v),
                spec_set_values(old_values, val_v),
            ));
        }
    } else {
        attribute.values.push(value.clone());
        proof {
            assert(attribute.values.deep_view() =~= old_values.push(val_v));
        }
        store.save_attribute(&identifier, &name, &attribute.values);
        store.save_validity(&identifier, &name, &value, valid_to);
    }
    let res = Response::new()
        .add_attribute("identifier", identifier.clone())
        .add_attribute("name", name)
        .add_attribute("value", value)
        .add_attribute("validTo", u64_to_dec_string(valid_to))
        .add_attribute("previousChange", u64_to_dec_string(changed))
        .add_attribute("from", info.sender);
    store.save_changed(&identifier, env.block.height);
    proof {
        assert(res.spec_pairs() =~= seq![
            ("identifier"@, id_v),
            ("name"@, name_v),
            ("value"@, val_v),
            ("validTo"@, dec_rep(valid_to as nat)),
            ("previousChange"@, dec_rep(spec_changed_of(changed_of(*old(store)), id_v) as nat)),
            ("from"@, sender_v),
        ]);
    }
    Ok(res)
}

/// Reports the revocation of `value` under the identifier's attribute
/// `name`, if the sender is the current controller: the record carries
/// a zero expiry, but neither the value sequence nor the stored expiry
/// is touched; only the change marker advances.
pub fn try_revoke_attribute(
    store: &mut Store,
    env: Env,
    info: MessageInfo,
    identifier: String,
    name: String,
    value: String,
) -> (r: Result<Response, ContractError>)
    ensures
        r is Ok <==> spec_authorized(info.sender@, identifier@, controllers_of(*old(store))),
        r matches Err(e) ==> e == (ContractError::Unauthorized {}) && *final(store) == *old(
            store,
        ),
        r is Ok ==> controllers_of(*final(store)) == controllers_of(*old(store)),
        r is Ok ==> attributes_of(*final(store)) == attributes_of(*old(store)),
        r is Ok ==> validities_of(*final(store)) == validities_of(*old(store)),
        r is Ok ==> changed_of(*final(store)) == changed_of(*old(store)).insert(
            identifier@,
            env.block.height,
        ),
        r matches Ok(res) ==> res.spec_pairs() == seq![
            ("identifier"@, identifier@),
            ("name"@, name@),
            ("value"@, value@),
            ("validTo"@, dec_rep(0)),
            ("previousChange"@, dec_rep(spec_changed_of(changed_of(*old(store)), identifier@) as nat)),
            ("from"@, info.sender@),
        ],
{
    let ghost id_v = identifier@;
    let ghost name_v = name@;
    let ghost val_v = value@;
    let ghost sender_v = info.sender@;
    let loaded_controller = store.load_controller(&identifier);
    match only_controller(&info.sender, &identifier, loaded_controller) {
        Err(e) => {
            return Err(e);
        },
        Ok(()) => {},
    }
    let loaded_changed = store.load_changed(&identifier);
    let changed: u64 = match loaded_changed {
        Some(c) => c,
        None => 0,
    };
    let res = Response::new()
        .add_attribute("identifier", identifier.clone())
        .add_attribute("name", name)
        .add_attribute("value", value)
        .add_attribute("validTo", u64_to_dec_string(0))
        .add_attribute("previousChange", u64_to_dec_string(changed))
        .add_attribute("from", info.sender);
    store.save_changed(&identifier, env.block.height);
    proof {
        assert(res.spec_pairs() =~= seq![
            ("identifier"@, id_v),
            ("name"@, name_v),
            ("value"@, val_v),
            ("validTo"@, dec_rep(0)),
            ("previousChange"@, dec_rep(spec_changed_of(changed_of(*old(store)), id_v) as nat)),
            ("from"@, sender_v),
        ]);
    }
    Ok(res)
}

/// Dispatches a mutation message: authorizes the sender against the
/// identifier's current controller, applies the operation, advances the
/// change marker, and returns the audit record.
pub fn execute(store: &mut Store, env: Env, info: MessageInfo, msg: ExecuteMsg) -> (r: Result<
    Response,
    ContractError,
>)
    requires
        msg matches ExecuteMsg::SetAttribute { identifier, name, value, validity } ==> env.block.time_seconds
            + validity <= u64::MAX && spec_utf8_len(identifier@) <= 0xFFFF && spec_utf8_len(name@)
            <= 0xFFFF,
    ensures
        r is Ok <==> spec_authorized(
            info.sender@,
            spec_msg_identifier(msg),
            controllers_of(*old(store)),
        ),
        r matches Err(e) ==> e == (ContractError::Unauthorized {}) && *final(store) == *old(
            store,
        ),
        r is Ok ==> spec_apply(*old(store), *final(store), env, msg),
        r matches Ok(res) ==> res.spec_pairs() == spec_record(*old(store), env, info.sender@, msg),
{
    match msg {
        ExecuteMsg::ChangeController { identifier, new_controller } => try_change_controller(
            store,
            env,
            info,
            identifier,
            new_controller,
        ),
        ExecuteMsg::SetAttribute { identifier, name, value, validity } => try_set_attribute(
            store,
            env,
            info,
            identifier,
            name,
            value,
            validity,
        ),
        ExecuteMsg::RevokeAttribute { identifier, name, value } => try_revoke_attribute(
            store,
            env,
            info,
            identifier,
            name,
            value,
        ),
    }
}

/// The identifier's current controller, the identifier itself when none
/// is recorded.
fn query_controller(store: &Store, identifier: String) -> (r: ControllerResponse)
    ensures
        r.controller@ == spec_controller_of(controllers_of(*store), identifier@),
{
    let loaded_controller = store.load_controller(&identifier);
    match loaded_controller {
        Some(v) => ControllerResponse { controller: v },
        None => ControllerResponse { controller: identifier },
    }
}

/// The identifier's value sequence under `name`, empty when none is
/// recorded.
fn query_attribute(store: &Store, identifier: String, name: String) -> (r: AttributeResponse)
    requires
        spec_utf8_len(identifier@) <= 0xFFFF,
    ensures
        r.values.deep_view() == spec_values_of(attributes_of(*store), identifier@, name@),
{
    let loaded_attribute = store.load_attribute(&identifier, &name);
    let r = match loaded_attribute {
        Some(v) => AttributeResponse { values: v },
        None => AttributeResponse { values: Vec::new() },
    };
    proof {
        assert(r.values.deep_view() =~= spec_values_of(attributes_of(*store), identifier@, name@));
    }
    r
}

/// The stored expiry of `value` under the identifier's attribute
/// `name`, zero when none is recorded.
fn query_valid_to(store: &Store, identifier: String, name: String, value: String) -> (r:
    ValidToResponse)
    requires
        spec_utf8_len(identifier@) <= 0xFFFF,
        spec_utf8_len(name@) <= 0xFFFF,
    ensures
        r.valid_to == spec_valid_to_of(validities_of(*store), identifier@, name@, value@),
{
    let loaded_validity = store.load_validity(&identifier, &name, &value);
    match loaded_validity {
        Some(v) => ValidToResponse { valid_to: v },
        None => ValidToResponse { valid_to: 0 },
    }
}

/// Dispatches a read query. Reads need no authorization, and absence of
/// a record is folded into a default answer, never an error.
pub fn query(store: &Store, msg: QueryMsg) -> (r: QueryAnswer)
    requires
        msg matches QueryMsg::Attribute { identifier, name } ==> spec_utf8_len(identifier@)
            <= 0xFFFF,
        msg matches QueryMsg::ValidTo { identifier, name, value } ==> spec_utf8_len(identifier@)
            <= 0xFFFF && spec_utf8_len(name@) <= 0xFFFF,
    ensures
        msg matches QueryMsg::Controller { identifier } ==> (r matches QueryAnswer::Controller(cr)
            && cr.controller@ == spec_controller_of(controllers_of(*store), identifier@)),
        msg matches QueryMsg::Attribute { identifier, name } ==> (r matches QueryAnswer::Attribute(
            ar,
        ) && ar.values.deep_view() == spec_values_of(attributes_of(*store), identifier@, name@)),
        msg matches QueryMsg::ValidTo { identifier, name, value } ==> (r matches QueryAnswer::ValidTo(
            vr,
        ) && vr.valid_to == spec_valid_to_of(validities_of(*store), identifier@, name@, value@)),
{
    match msg {
        QueryMsg::Controller { identifier } => QueryAnswer::Controller(
            query_controller(store, identifier),
        ),
        QueryMsg::Attribute { identifier, name } => QueryAnswer::Attribute(
            query_attribute(store, identifier, name),
        ),
        QueryMsg::ValidTo { identifier, name, value } => QueryAnswer::ValidTo(
            query_valid_to(store, identifier, name, value),
        ),
    }
}

} // verus!
