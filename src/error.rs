use vstd::prelude::*;

verus! {

/// Why a request was refused. A refused request changes nothing.
#[derive(Debug, PartialEq, Eq)]
pub enum ContractError {
    /// The caller is not the owner, who is named here.
    Unauthorized { owner: String },
    /// The receiver of a withdrawal is not a valid address.
    InvalidAddress { address: String },
    /// A qualifying donation arrived while the counter was at its largest value.
    CounterOverflow,
}

} // verus!
