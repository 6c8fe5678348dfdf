use did_contract::contract::{execute, query, try_set_attribute};
use did_contract::error::ContractError;
use did_contract::helper::get_attribute_value;
use did_contract::msg::{BlockInfo, Env, ExecuteMsg, MessageInfo, QueryAnswer, QueryMsg};
use did_contract::state::Store;

fn mock_env() -> Env {
    Env { block: BlockInfo { height: 12345, time_seconds: 1571797419 } }
}

fn mock_info(sender: &str) -> MessageInfo {
    MessageInfo { sender: String::from(sender) }
}

fn query_controller_value(store: &Store, identifier: &str) -> String {
    match query(store, QueryMsg::Controller { identifier: String::from(identifier) }) {
        QueryAnswer::Controller(res) => res.controller,
        _ => panic!("unexpected query answer"),
    }
}

fn query_attribute_values(store: &Store, identifier: &str, name: &str) -> Vec<String> {
    match query(
        store,
        QueryMsg::Attribute { identifier: String::from(identifier), name: String::from(name) },
    ) {
        QueryAnswer::Attribute(res) => res.values,
        _ => panic!("unexpected query answer"),
    }
}

fn query_valid_to_value(store: &Store, identifier: &str, name: &str, value: &str) -> u64 {
    match query(
        store,
        QueryMsg::ValidTo {
            identifier: String::from(identifier),
            name: String::from(name),
            value: String::from(value),
        },
    ) {
        QueryAnswer::ValidTo(res) => res.valid_to,
        _ => panic!("unexpected query answer"),
    }
}

#[test]
fn controller() {
    let store = Store::new();

    let identifier = String::from("identifier0001");

    let value = query_controller_value(&store, &identifier);
    assert_eq!(identifier, value);
}

#[test]
fn change_controller() {
    let mut store = Store::new();

    let identifier1 = String::from("identifier0001");
    let controller1 = String::from("addr0001");

    // only the original identifier address can change the controller at the first time
    let auth_info = mock_info("identifier0001");

    let msg = ExecuteMsg::ChangeController {
        identifier: identifier1.clone(),
        new_controller: controller1.clone(),
    };

    let _res = execute(&mut store, mock_env(), auth_info, msg).unwrap();

    let value = query_controller_value(&store, &identifier1);
    assert_eq!(controller1, value);

    // only the controller address can change the controller
    let auth_info = mock_info("addr0001");
    let controller2 = String::from("addr0002");

    let msg = ExecuteMsg::ChangeController {
        identifier: identifier1.clone(),
        new_controller: controller2.clone(),
    };

    let _res = execute(&mut store, mock_env(), auth_info, msg).unwrap();

    let value = query_controller_value(&store, &identifier1);
    assert_eq!(controller2, value);
}

#[test]
fn change_controller_by_attacker() {
    let mut store = Store::new();

    let identifier1 = String::from("identifier0001");
    let controller1 = String::from("addr0001");

    let auth_info = mock_info("attacker");

    let msg = ExecuteMsg::ChangeController {
        identifier: identifier1.clone(),
        new_controller: controller1.clone(),
    };

    let err = execute(&mut store, mock_env(), auth_info, msg).unwrap_err();
    assert_eq!(err, ContractError::Unauthorized {});

    let value = query_controller_value(&store, &identifier1);
    assert_eq!(identifier1, value);

    // only the original identifier address can change the controller at the first time
    let auth_info = mock_info("identifier0001");

    let msg = ExecuteMsg::ChangeController {
        identifier: identifier1.clone(),
        new_controller: controller1.clone(),
    };

    let _res = execute(&mut store, mock_env(), auth_info, msg).unwrap();

    let value = query_controller_value(&store, &identifier1);
    assert_eq!(controller1, value);

    let auth_info = mock_info("attacker");

    let msg = ExecuteMsg::ChangeController {
        identifier: identifier1.clone(),
        new_controller: identifier1.clone(),
    };

    let err = execute(&mut store, mock_env(), auth_info, msg).unwrap_err();
    assert_eq!(err, ContractError::Unauthorized {});

    let value = query_controller_value(&store, &identifier1);
    assert_eq!(controller1, value);
}

#[test]
fn set_attribute() {
    let mut store = Store::new();

    let identifier1 = String::from("identifier0001");

    let auth_info = mock_info("identifier0001");

    let msg = ExecuteMsg::SetAttribute {
        identifier: identifier1.clone(),
        name: String::from("identifier_name"),
        value: String::from("abc"),
        validity: 0,
    };

    let res = execute(&mut store, mock_env(), auth_info.clone(), msg).unwrap();

    // check name attribute
    let name = get_attribute_value(res.clone(), "name");

    assert_eq!(name, "identifier_name");

    // check value attribute
    let value = get_attribute_value(res.clone(), "value");

    assert_eq!(value, "abc");

    // set attribute again
    let msg = ExecuteMsg::SetAttribute {
        identifier: identifier1.clone(),
        name: String::from("identifier_name"),
        value: String::from("def"),
        validity: 0,
    };

    let res = execute(&mut store, mock_env(), auth_info.clone(), msg).unwrap();

    // check name attribute
    let name = get_attribute_value(res.clone(), "name");
    assert_eq!(name, "identifier_name");

    // check value attribute
    let value = get_attribute_value(res.clone(), "value");
    assert_eq!(value, "def");

    let values = query_attribute_values(&store, &identifier1, "identifier_name");
    assert_eq!(values, ["abc", "def"]);

    // check validTo
    let valid_to = query_valid_to_value(&store, &identifier1, "identifier_name", "abc");
    assert_ne!(valid_to, 0);

    // set attribute again
    let msg = ExecuteMsg::SetAttribute {
        identifier: identifier1.clone(),
        name: String::from("identifier_name"),
        value: String::from("abc"),
        validity: 0,
    };

    let res = execute(&mut store, mock_env(), auth_info.clone(), msg).unwrap();

    // check name attribute
    let name = get_attribute_value(res.clone(), "name");
    assert_eq!(name, "identifier_name");

    // check value attribute
    let value = get_attribute_value(res.clone(), "value");
    assert_eq!(value, "abc");

    let values = query_attribute_values(&store, &identifier1, "identifier_name");
    assert_eq!(values, ["abc", "def"]);

    // check validTo
    let valid_to = query_valid_to_value(&store, &identifier1, "identifier_name", "def");
    assert_ne!(valid_to, 0);
}

#[test]
fn set_attribute_by_attacker() {
    let mut store = Store::new();

    let identifier1 = String::from("identifier0001");

    let auth_info = mock_info("attacker");

    let msg = ExecuteMsg::SetAttribute {
        identifier: identifier1.clone(),
        name: String::from("identifier_name"),
        value: String::from("abc"),
        validity: 0,
    };

    let err = execute(&mut store, mock_env(), auth_info, msg).unwrap_err();
    assert_eq!(err, ContractError::Unauthorized {});
}

#[test]
fn revoke_attribute() {
    let mut store = Store::new();

    let identifier1 = String::from("identifier0001");

    let auth_info = mock_info("identifier0001");

    let msg = ExecuteMsg::SetAttribute {
        identifier: identifier1.clone(),
        name: String::from("identifier_name"),
        value: String::from("abc"),
        validity: 0,
    };

    let res = execute(&mut store, mock_env(), auth_info, msg).unwrap();

    // check name attribute
    let name = get_attribute_value(res.clone(), "name");

    assert_eq!(name, "identifier_name");

    // check value attribute
    let value = get_attribute_value(res.clone(), "value");

    assert_eq!(value, "abc");

    // revoke_attribute test
    let msg = ExecuteMsg::RevokeAttribute {
        identifier: identifier1.clone(),
        name: String::from("identifier_name"),
        value: String::from("xyz"),
    };

    let auth_info = mock_info("identifier0001");
    let res = execute(&mut store, mock_env(), auth_info, msg).unwrap();

    // check name attribute
    let name = get_attribute_value(res.clone(), "name");

    assert_eq!(name, "identifier_name");

    // check value attribute
    let value = get_attribute_value(res.clone(), "value");

    assert_eq!(value, "xyz");

    // check validity attribute
    let validity = get_attribute_value(res.clone(), "validTo");

    assert_eq!(validity, "0");
}

#[test]
fn revoke_attribute_by_attacker() {
    let mut store = Store::new();

    let identifier1 = String::from("identifier0001");

    let auth_info = mock_info("identifier0001");

    let msg = ExecuteMsg::SetAttribute {
        identifier: identifier1.clone(),
        name: String::from("identifier_name"),
        value: String::from("abc"),
        validity: 0,
    };

    let res = execute(&mut store, mock_env(), auth_info, msg).unwrap();

    // check name attribute
    let name = get_attribute_value(res.clone(), "name");

    assert_eq!(name, "identifier_name");

    // check value attribute
    let value = get_attribute_value(res.clone(), "value");

    assert_eq!(value, "abc");

    // revoke_attribute test
    let msg = ExecuteMsg::RevokeAttribute {
        identifier: identifier1.clone(),
        name: String::from("identifier_name"),
        value: String::from("xyz"),
    };

    let auth_info = mock_info("attacker");
    let err = execute(&mut store, mock_env(), auth_info, msg).unwrap_err();
    assert_eq!(err, ContractError::Unauthorized {});
}

#[test]
fn marker_advances_and_previous_change_chains() {
    let mut store = Store::new();

    let env1 = Env { block: BlockInfo { height: 5, time_seconds: 1000 } };
    let env2 = Env { block: BlockInfo { height: 9, time_seconds: 2000 } };
    let auth_info = mock_info("id1");

    let msg = ExecuteMsg::SetAttribute {
        identifier: String::from("id1"),
        name: String::from("n"),
        value: String::from("v1"),
        validity: 10,
    };
    let res = execute(&mut store, env1, auth_info.clone(), msg).unwrap();
    assert_eq!(get_attribute_value(res, "previousChange"), "0");

    let msg = ExecuteMsg::RevokeAttribute {
        identifier: String::from("id1"),
        name: String::from("n"),
        value: String::from("v1"),
    };
    let res = execute(&mut store, env2, auth_info, msg).unwrap();
    assert_eq!(get_attribute_value(res, "previousChange"), "5");
}

#[test]
fn reset_refreshes_validity_without_growing_sequence() {
    let mut store = Store::new();

    let env1 = Env { block: BlockInfo { height: 1, time_seconds: 1000 } };
    let env2 = Env { block: BlockInfo { height: 2, time_seconds: 1000 } };
    let env3 = Env { block: BlockInfo { height: 3, time_seconds: 5000 } };
    let auth_info = mock_info("id1");

    let msg = ExecuteMsg::SetAttribute {
        identifier: String::from("id1"),
        name: String::from("n"),
        value: String::from("v1"),
        validity: 100,
    };
    execute(&mut store, env1, auth_info.clone(), msg).unwrap();

    let msg = ExecuteMsg::SetAttribute {
        identifier: String::from("id1"),
        name: String::from("n"),
        value: String::from("v2"),
        validity: 100,
    };
    execute(&mut store, env2, auth_info.clone(), msg).unwrap();

    let before = query_valid_to_value(&store, "id1", "n", "v1");
    assert_eq!(before, 1100);

    let msg = ExecuteMsg::SetAttribute {
        identifier: String::from("id1"),
        name: String::from("n"),
        value: String::from("v1"),
        validity: 100,
    };
    let res = execute(&mut store, env3, auth_info, msg).unwrap();
    assert_eq!(get_attribute_value(res, "validTo"), "5100");

    let values = query_attribute_values(&store, "id1", "n");
    assert_eq!(values, ["v1", "v2"]);

    let after = query_valid_to_value(&store, "id1", "n", "v1");
    assert_eq!(after, 5100);
    assert!(after > before);
}

#[test]
fn revocation_is_reported_not_stored() {
    let mut store = Store::new();

    let env = Env { block: BlockInfo { height: 1, time_seconds: 1000 } };
    let auth_info = mock_info("id1");

    let msg = ExecuteMsg::SetAttribute {
        identifier: String::from("id1"),
        name: String::from("n"),
        value: String::from("v1"),
        validity: 100,
    };
    execute(&mut store, env, auth_info.clone(), msg).unwrap();

    let msg = ExecuteMsg::RevokeAttribute {
        identifier: String::from("id1"),
        name: String::from("n"),
        value: String::from("v1"),
    };
    let res = execute(&mut store, env, auth_info, msg).unwrap();

    // the operation reports the value as expired now
    assert_eq!(get_attribute_value(res, "validTo"), "0");

    // but neither the sequence nor the stored expiry changed
    let values = query_attribute_values(&store, "id1", "n");
    assert_eq!(values, ["v1"]);
    assert_eq!(query_valid_to_value(&store, "id1", "n", "v1"), 1100);
}

#[test]
fn end_to_end_scenario() {
    let mut store = Store::new();

    let env = Env { block: BlockInfo { height: 7, time_seconds: 1000 } };

    // "id1" has no prior state: the identifier itself may set an attribute
    let msg = ExecuteMsg::SetAttribute {
        identifier: String::from("id1"),
        name: String::from("email"),
        value: String::from("a@example.com"),
        validity: 3600,
    };
    let res = execute(&mut store, env, mock_info("id1"), msg).unwrap();
    assert_eq!(get_attribute_value(res.clone(), "previousChange"), "0");
    assert_eq!(get_attribute_value(res, "validTo"), "4600");

    // a call by an attacker fails and leaves the attribute store untouched
    let msg = ExecuteMsg::SetAttribute {
        identifier: String::from("id1"),
        name: String::from("email"),
        value: String::from("b@example.com"),
        validity: 3600,
    };
    let err = execute(&mut store, env, mock_info("attacker"), msg).unwrap_err();
    assert_eq!(err, ContractError::Unauthorized {});

    let values = query_attribute_values(&store, "id1", "email");
    assert_eq!(values, ["a@example.com"]);
}

#[test]
fn key_components_at_the_length_limit() {
    let mut store = Store::new();

    // the storage layer length-prefixes the identifier and the name with
    // two bytes; 0xFFFF-byte components are the largest it accepts
    let identifier = "a".repeat(0xFFFF);
    let name = "b".repeat(0xFFFF);

    let env = Env { block: BlockInfo { height: 1, time_seconds: 1000 } };
    let msg = ExecuteMsg::SetAttribute {
        identifier: identifier.clone(),
        name: name.clone(),
        value: String::from("v1"),
        validity: 100,
    };
    let res = execute(&mut store, env, MessageInfo { sender: identifier.clone() }, msg).unwrap();
    assert_eq!(get_attribute_value(res, "value"), "v1");

    let values = query_attribute_values(&store, &identifier, &name);
    assert_eq!(values, ["v1"]);
    assert_eq!(query_valid_to_value(&store, &identifier, &name, "v1"), 1100);
}

#[test]
fn valid_to_defaults_to_zero_when_never_set() {
    let store = Store::new();
    assert_eq!(query_valid_to_value(&store, "id1", "n", "v1"), 0);
}

#[test]
fn set_attribute_reports_all_fields() {
    let mut store = Store::new();

    let env = Env { block: BlockInfo { height: 12345, time_seconds: 1000 } };
    let msg = ExecuteMsg::SetAttribute {
        identifier: String::from("id1"),
        name: String::from("n"),
        value: String::from("v1"),
        validity: 60,
    };
    let res = execute(&mut store, env, mock_info("id1"), msg).unwrap();

    assert_eq!(get_attribute_value(res.clone(), "identifier"), "id1");
    assert_eq!(get_attribute_value(res.clone(), "name"), "n");
    assert_eq!(get_attribute_value(res.clone(), "value"), "v1");
    assert_eq!(get_attribute_value(res.clone(), "validTo"), "1060");
    assert_eq!(get_attribute_value(res.clone(), "previousChange"), "0");
    assert_eq!(get_attribute_value(res, "from"), "id1");

    // the next mutation reports the recorded height as its previous change
    let msg = ExecuteMsg::ChangeController {
        identifier: String::from("id1"),
        new_controller: String::from("c1"),
    };
    let env = Env { block: BlockInfo { height: 99999, time_seconds: 2000 } };
    let res = execute(&mut store, env, mock_info("id1"), msg).unwrap();
    assert_eq!(get_attribute_value(res.clone(), "identifier"), "id1");
    assert_eq!(get_attribute_value(res.clone(), "controller"), "c1");
    assert_eq!(get_attribute_value(res, "previousChange"), "12345");

    assert_eq!(query_controller_value(&store, "id1"), "c1");
}
