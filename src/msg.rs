use vstd::prelude::*;

use crate::coin::Coin;

verus! {

/// The arguments of creation.
#[derive(Debug, PartialEq, Eq)]
pub struct InstantiateMsg {
    pub counter: u64,
    pub minimal_donation: Coin,
}

/// The state-changing requests.
#[derive(Debug, PartialEq, Eq)]
pub enum ExecMsg {
    Donate {},
    Reset { counter: u64 },
    Withdraw {},
    WithdrawTo { receiver: String, funds: Vec<Coin> },
}

/// The read-only requests.
#[derive(Debug, PartialEq, Eq)]
pub enum QueryMsg {
    Value {},
}

/// The answer to `QueryMsg::Value`.
#[derive(Debug, PartialEq, Eq, Structural)]
pub struct ValueResp {
    pub value: u64,
}

/// Who called, and what payment the call carries.
#[derive(Debug, PartialEq, Eq)]
pub struct MessageInfo {
    pub sender: String,
    pub funds: Vec<Coin>,
}

/// What the host reports for one call: the contract's whole balance, and
/// whether the host accepts the receiver of a `WithdrawTo` as an address.
#[derive(Debug, PartialEq, Eq)]
pub struct Env {
    pub balance: Vec<Coin>,
    pub receiver_valid: bool,
}

/// A transfer of funds out of the contract's account, which the host performs.
#[derive(Debug, PartialEq, Eq)]
pub struct BankSend {
    pub to_address: String,
    pub amount: Vec<Coin>,
}

/// The transfers that a successful request asks the host to perform, in order.
#[derive(Debug, PartialEq, Eq)]
pub struct Response {
    pub messages: Vec<BankSend>,
}

impl Response {
    pub fn new() -> (r: Response)
        ensures
            r.messages@.len() == 0,
    {
        Response { messages: Vec::new() }
    }
}

/// A success that asks for no transfer.
pub open spec fn no_transfer(r: Result<Response, crate::error::ContractError>) -> bool {
    r is Ok && r->Ok_0.messages@.len() == 0
}

/// A success that asks for exactly one transfer, of `amount` to `to`.
pub open spec fn one_transfer(
    r: Result<Response, crate::error::ContractError>,
    to: Seq<char>,
    amount: Seq<Coin>,
) -> bool {
    &&& r is Ok
    &&& r->Ok_0.messages@.len() == 1
    &&& r->Ok_0.messages@[0].to_address@ == to
    &&& r->Ok_0.messages@[0].amount@ == amount
}

} // verus!
