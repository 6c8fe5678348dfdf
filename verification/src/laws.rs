//! The registry's general guarantees, stated over the same spec
//! functions the operations' contracts use and proved once for all
//! inputs.

use vstd::prelude::*;

use vstd::arithmetic::div_mod::lemma_fundamental_div_mod;

use crate::contract::{spec_apply, spec_msg_identifier, spec_set_values};
use crate::digits::{dec_digit, dec_rep};
use crate::helper::spec_authorized;
use crate::msg::{Env, ExecuteMsg};
use crate::state::{
    attributes_of, changed_of, spec_changed_of, spec_controller_of, spec_values_of, validities_of,
    Store,
};

verus! {

/// An identifier with no controller record is its own controller, and
/// it alone is authorized to mutate its record.
pub proof fn lemma_self_sovereign_default(
    controllers: Map<Seq<char>, Seq<char>>,
    identifier: Seq<char>,
    sender: Seq<char>,
)
    requires
        !controllers.dom().contains(identifier),
    ensures
        spec_controller_of(controllers, identifier) == identifier,
        spec_authorized(sender, identifier, controllers) <==> sender == identifier,
{
}

/// After a controller change takes effect, the new controller is read
/// back, and it alone is authorized to mutate the identifier's record.
pub proof fn lemma_controller_change_takes_effect(
    controllers: Map<Seq<char>, Seq<char>>,
    identifier: Seq<char>,
    new_controller: Seq<char>,
    sender: Seq<char>,
)
    ensures
        spec_controller_of(controllers.insert(identifier, new_controller), identifier)
            == new_controller,
        spec_authorized(sender, identifier, controllers.insert(identifier, new_controller))
            <==> sender == new_controller,
{
}

/// A mutation recorded at a block height above the identifier's current
/// marker strictly increases that marker, to exactly the block height.
/// (Two mutations within one block leave the marker at that same
/// height, so the hypothesis on the height is needed.)
pub proof fn lemma_mutation_advances_marker(
    changed: Map<Seq<char>, u64>,
    identifier: Seq<char>,
    height: u64,
)
    requires
        spec_changed_of(changed, identifier) < height,
    ensures
        spec_changed_of(changed.insert(identifier, height), identifier) > spec_changed_of(
            changed,
            identifier,
        ),
        spec_changed_of(changed.insert(identifier, height), identifier) == height,
        forall|other: Seq<char>| other != identifier ==> spec_changed_of(
            changed.insert(identifier, height),
            other,
        ) == spec_changed_of(changed, other),
{
}

/// The values of a sequence are pairwise distinct.
pub open spec fn spec_distinct(values: Seq<Seq<char>>) -> bool {
    forall|i: int, j: int| 0 <= i < j < values.len() ==> values[i] != values[j]
}

/// Setting a value keeps the sequence's values distinct, leaves every
/// value already there at its position, ends with the set value
/// present, and leaves the sequence wholly unchanged when the value was
/// already present.
pub proof fn lemma_set_values_distinct_and_ordered(values: Seq<Seq<char>>, value: Seq<char>)
    requires
        spec_distinct(values),
    ensures
        spec_distinct(spec_set_values(values, value)),
        spec_set_values(values, value).contains(value),
        forall|i: int| 0 <= i < values.len() ==> spec_set_values(values, value)[i] == values[i],
        values.contains(value) ==> spec_set_values(values, value) == values,
{
    if !values.contains(value) {
        let pushed = values.push(value);
        assert(pushed[values.len() as int] == value);
        assert forall|i: int, j: int| 0 <= i < j < pushed.len() implies pushed[i] != pushed[j] by {
            if j == values.len() {
                assert(pushed[i] == values[i]);
            }
        }
        assert(pushed.contains(value));
    }
}

/// Every recorded attribute sequence holds pairwise distinct values.
pub open spec fn spec_all_values_distinct(
    attributes: Map<(Seq<char>, Seq<char>), Seq<Seq<char>>>,
) -> bool {
    forall|key: (Seq<char>, Seq<char>)|
        attributes.dom().contains(key) ==> spec_distinct(#[trigger] attributes[key])
}

/// Every successful mutation preserves the invariant that each recorded
/// attribute sequence holds pairwise distinct values.
pub proof fn lemma_execute_keeps_values_distinct(s0: Store, s1: Store, env: Env, msg: ExecuteMsg)
    requires
        spec_apply(s0, s1, env, msg),
        spec_all_values_distinct(attributes_of(s0)),
    ensures
        spec_all_values_distinct(attributes_of(s1)),
{
    match msg {
        ExecuteMsg::ChangeController { identifier, new_controller } => {},
        ExecuteMsg::SetAttribute { identifier, name, value, validity } => {
            let old_values = spec_values_of(attributes_of(s0), identifier@, name@);
            assert(spec_distinct(old_values));
            lemma_set_values_distinct_and_ordered(old_values, value@);
            assert forall|key: (Seq<char>, Seq<char>)|
                attributes_of(s1).dom().contains(key) implies spec_distinct(
                #[trigger] attributes_of(s1)[key],
            ) by {
                if key != (identifier@, name@) {
                    assert(attributes_of(s1)[key] == attributes_of(s0)[key]);
                }
            }
        },
        ExecuteMsg::RevokeAttribute { identifier, name, value } => {},
    }
}

/// Every value that appears in some attribute sequence has a validity
/// record of its own.
pub open spec fn spec_values_covered(
    attributes: Map<(Seq<char>, Seq<char>), Seq<Seq<char>>>,
    validities: Map<(Seq<char>, Seq<char>, Seq<char>), u64>,
) -> bool {
    forall|key: (Seq<char>, Seq<char>), i: int|
        attributes.dom().contains(key) && 0 <= i < attributes[key].len()
            ==> validities.dom().contains((key.0, key.1, #[trigger] attributes[key][i]))
}

/// Setting an attribute value, which updates the value sequence and the
/// value's validity record together, preserves the invariant that every
/// recorded value has a validity record.
pub proof fn lemma_set_attribute_preserves_coverage(
    attributes: Map<(Seq<char>, Seq<char>), Seq<Seq<char>>>,
    validities: Map<(Seq<char>, Seq<char>, Seq<char>), u64>,
    identifier: Seq<char>,
    name: Seq<char>,
    value: Seq<char>,
    valid_to: u64,
)
    requires
        spec_values_covered(attributes, validities),
    ensures
        spec_values_covered(
            attributes.insert(
                (identifier, name),
                spec_set_values(spec_values_of(attributes, identifier, name), value),
            ),
            validities.insert((identifier, name, value), valid_to),
        ),
{
    let new_values = spec_set_values(spec_values_of(attributes, identifier, name), value);
    let new_attributes = attributes.insert((identifier, name), new_values);
    let new_validities = validities.insert((identifier, name, value), valid_to);
    assert forall|key: (Seq<char>, Seq<char>), i: int|
        new_attributes.dom().contains(key) && 0 <= i < new_attributes[key].len()
            implies new_validities.dom().contains((key.0, key.1, #[trigger] new_attributes[key][i])) by {
        if key == (identifier, name) {
            let old_values = spec_values_of(attributes, identifier, name);
            if i < old_values.len() {
                assert(new_attributes[key][i] == old_values[i]);
                if attributes.dom().contains(key) {
                    assert(validities.dom().contains((key.0, key.1, attributes[key][i])));
                }
            } else {
                assert(new_attributes[key][i] == value);
            }
        } else {
            assert(attributes.dom().contains(key) && attributes[key] == new_attributes[key]);
            assert(validities.dom().contains((key.0, key.1, attributes[key][i])));
        }
    }
}

/// Every successful mutation advances the identifier's change marker to
/// the block height it executed at; when that height lies above the
/// current marker — the host clock has moved past the last mutation —
/// the marker strictly increases. (Two mutations within one block leave
/// it at that same height, so the hypothesis on the height is needed.)
pub proof fn lemma_execute_advances_marker(s0: Store, s1: Store, env: Env, msg: ExecuteMsg)
    requires
        spec_apply(s0, s1, env, msg),
        spec_changed_of(changed_of(s0), spec_msg_identifier(msg)) < env.block.height,
    ensures
        spec_changed_of(changed_of(s1), spec_msg_identifier(msg)) == env.block.height,
        spec_changed_of(changed_of(s1), spec_msg_identifier(msg)) > spec_changed_of(
            changed_of(s0),
            spec_msg_identifier(msg),
        ),
{
}

/// Every successful mutation preserves the invariant that each value
/// recorded in an attribute sequence has a validity record of its own.
pub proof fn lemma_execute_preserves_coverage(s0: Store, s1: Store, env: Env, msg: ExecuteMsg)
    requires
        spec_apply(s0, s1, env, msg),
        spec_values_covered(attributes_of(s0), validities_of(s0)),
    ensures
        spec_values_covered(attributes_of(s1), validities_of(s1)),
{
    match msg {
        ExecuteMsg::ChangeController { identifier, new_controller } => {},
        ExecuteMsg::SetAttribute { identifier, name, value, validity } => {
            lemma_set_attribute_preserves_coverage(
                attributes_of(s0),
                validities_of(s0),
                identifier@,
                name@,
                value@,
                (env.block.time_seconds + validity) as u64,
            );
        },
        ExecuteMsg::RevokeAttribute { identifier, name, value } => {},
    }
}

proof fn lemma_dec_rep_len(n: nat)
    ensures
        dec_rep(n).len() >= 1,
        n >= 10 ==> dec_rep(n).len() >= 2,
    decreases n,
{
    if n >= 10 {
        lemma_dec_rep_len(n / 10);
    }
}

proof fn lemma_dec_digit_injective(a: nat, b: nat)
    requires
        a < 10,
        b < 10,
        dec_digit(a) == dec_digit(b),
    ensures
        a == b,
{
}

/// Decimal rendering is injective: the audit record's decimal strings
/// (the previous change marker, the expiry) determine the numbers they
/// were rendered from.
pub proof fn lemma_dec_rep_injective(a: nat, b: nat)
    requires
        dec_rep(a) == dec_rep(b),
    ensures
        a == b,
    decreases a,
{
    lemma_dec_rep_len(a);
    lemma_dec_rep_len(b);
    if a < 10 && b < 10 {
        assert(dec_rep(a)[0] == dec_digit(a));
        assert(dec_rep(b)[0] == dec_digit(b));
        lemma_dec_digit_injective(a, b);
    } else if a < 10 {
        assert(dec_rep(a).len() == 1);
        assert(false);
    } else if b < 10 {
        assert(dec_rep(b).len() == 1);
        assert(false);
    } else {
        let ra = dec_rep(a / 10);
        let rb = dec_rep(b / 10);
        assert(ra.push(dec_digit(a % 10)).last() == dec_digit(a % 10));
        assert(rb.push(dec_digit(b % 10)).last() == dec_digit(b % 10));
        lemma_dec_digit_injective(a % 10, b % 10);
        assert(ra =~= ra.push(dec_digit(a % 10)).drop_last());
        assert(rb =~= rb.push(dec_digit(b % 10)).drop_last());
        lemma_dec_rep_injective(a / 10, b / 10);
        lemma_fundamental_div_mod(a as int, 10);
        lemma_fundamental_div_mod(b as int, 10);
    }
}

} // verus!
