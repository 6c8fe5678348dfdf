//! The authorization decision reused by every mutation, and a reader for
//! the key/value pairs of an audit record.

use vstd::prelude::*;

use crate::error::ContractError;
use crate::msg::Response;
use crate::state::spec_controller_of;

verus! {

/// The acting principal may mutate the identifier's record: it is the
/// recorded controller, or, when none is recorded, the identifier
/// itself.
pub open spec fn spec_authorized(
    sender: Seq<char>,
    identifier: Seq<char>,
    controllers: Map<Seq<char>, Seq<char>>,
) -> bool {
    sender == spec_controller_of(controllers, identifier)
}

/// Permits the action iff the sender matches the loaded controller, or
/// matches the identifier itself when no controller is recorded.
pub fn only_controller(
    sender: &String,
    identifier: &String,
    loaded_controller: Option<String>,
) -> (r: Result<(), ContractError>)
    ensures
        r is Ok <==> (match loaded_controller {
            Some(c) => sender@ == c@,
            None => sender@ == identifier@,
        }),
        r matches Err(e) ==> e == (ContractError::Unauthorized {}),
{
    match loaded_controller {
        Some(controller_address) => {
            if !(*sender == controller_address) {
                return Err(ContractError::Unauthorized {});
            }
            Ok(())
        },
        None => {
            if !(*sender == *identifier) {
                return Err(ContractError::Unauthorized {});
            }
            Ok(())
        },
    }
}

/// Some pair of the record carries this key.
pub open spec fn spec_has_key(pairs: Seq<(Seq<char>, Seq<char>)>, key: Seq<char>) -> bool {
    exists|i: int| 0 <= i < pairs.len() && pairs[i].0 == key
}

/// The value of the first pair carrying this key (the empty sequence
/// when there is none).
pub open spec fn spec_first_value(pairs: Seq<(Seq<char>, Seq<char>)>, key: Seq<char>) -> Seq<char>
    decreases pairs.len(),
{
    if pairs.len() == 0 {
        Seq::empty()
    } else if pairs[0].0 == key {
        pairs[0].1
    } else {
        spec_first_value(pairs.drop_first(), key)
    }
}

proof fn lemma_first_value_at(pairs: Seq<(Seq<char>, Seq<char>)>, key: Seq<char>, i: int)
    requires
        0 <= i < pairs.len(),
        pairs[i].0 == key,
        forall|j: int| 0 <= j < i ==> pairs[j].0 != key,
    ensures
        spec_first_value(pairs, key) == pairs[i].1,
    decreases i,
{
    if i > 0 {
        lemma_first_value_at(pairs.drop_first(), key, i - 1);
    }
}

/// The value under the first pair of the record whose key is `target`.
pub fn get_attribute_value(response: Response, target: &str) -> (r: String)
    requires
        spec_has_key(response.spec_pairs(), target@),
    ensures
        r@ == spec_first_value(response.spec_pairs(), target@),
{
    let t = String::from_str(target);
    let n = response.attributes.len();
    let mut i: usize = 0;
    while i < n
        invariant
            0 <= i <= n,
            n == response.attributes.len(),
            t@ == target@,
            spec_has_key(response.spec_pairs(), target@),
            forall|j: int| 0 <= j < i ==> response.spec_pairs()[j].0 != target@,
        decreases n - i,
    {
        if response.attributes[i].key == t {
            proof {
                lemma_first_value_at(response.spec_pairs(), target@, i as int);
            }
            return response.attributes[i].value.clone();
        }
        i = i + 1;
    }
    proof {
        let witness = choose|k: int|
            0 <= k < response.spec_pairs().len() && response.spec_pairs()[k].0 == target@;
        assert(response.spec_pairs()[witness].0 != target@);
    }
    String::new()
}

} // verus!
