use vstd::prelude::*;

verus! {

/// An amount of one denomination of funds.
#[derive(Debug, PartialEq, Eq)]
pub struct Coin {
    pub denom: String,
    pub amount: u128,
}

impl Coin {
    pub fn new(amount: u128, denom: &str) -> (r: Coin)
        ensures
            r.denom@ == denom@,
            r.amount == amount,
    {
        Coin { denom: denom.to_string(), amount }
    }
}

impl Clone for Coin {
    fn clone(&self) -> (r: Coin)
        ensures
            r == *self,
    {
        Coin { denom: self.denom.clone(), amount: self.amount }
    }
}

/// Some entry of `funds` holds at least `amount` of `denom`.
pub open spec fn pays_at_least(funds: Seq<Coin>, denom: Seq<char>, amount: u128) -> bool {
    exists|i: int| 0 <= i < funds.len() && funds[i].denom@ == denom && funds[i].amount >= amount
}

/// A payment counts as a donation when the threshold is zero, or when it holds
/// at least the threshold's amount in the threshold's denomination.
pub open spec fn qualifies(minimal: Coin, funds: Seq<Coin>) -> bool {
    minimal.amount == 0 || pays_at_least(funds, minimal.denom@, minimal.amount)
}

/// Decides whether `funds` meets the donation threshold `minimal`.
pub fn meets_minimum(minimal: &Coin, funds: &Vec<Coin>) -> (r: bool)
    ensures
        r == qualifies(*minimal, funds@),
{
    if minimal.amount == 0 {
        return true;
    }
    let mut i: usize = 0;
    while i < funds.len()
        invariant
            0 <= i <= funds.len(),
            forall|j: int|
                0 <= j < i ==> !(funds@[j].denom@ == minimal.denom@ && funds@[j].amount
                    >= minimal.amount),
        decreases funds.len() - i,
    {
        if funds[i].denom == minimal.denom && funds[i].amount >= minimal.amount {
            return true;
        }
        i += 1;
    }
    false
}

} // verus!
