use vstd::prelude::*;

verus! {

/// The single failure the registry surfaces: the acting principal is not
/// the identifier's current controller (or, when no controller is
/// recorded, not the identifier itself).
#[derive(Debug, Clone, PartialEq, Eq)]
pub enum ContractError {
    Unauthorized {},
}

} // verus!
