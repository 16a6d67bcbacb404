use vstd::prelude::*;

use crate::coin::Coin;

verus! {

/// What the contract stores: its owner, the counter, and the donation threshold.
/// The owner and the threshold are written once, at creation. The counter is
/// a `u64`: a donation that would carry it past `u64::MAX` is refused with
/// `ContractError::CounterOverflow`, and nothing changes.
#[derive(Debug, PartialEq, Eq)]
pub struct State {
    pub owner: String,
    pub counter: u64,
    pub minimal_donation: Coin,
}

impl State {
    /// The same owner and threshold, with another counter.
    pub open spec fn with_counter(self, counter: u64) -> State {
        State { owner: self.owner, counter, minimal_donation: self.minimal_donation }
    }
}

} // verus!
