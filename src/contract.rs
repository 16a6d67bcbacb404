use vstd::prelude::*;

use crate::coin::{meets_minimum, qualifies, Coin};
use crate::error::ContractError;
use crate::msg::{
    no_transfer, one_transfer, BankSend, Env, ExecMsg, InstantiateMsg, MessageInfo, QueryMsg,
    Response, ValueResp,
};
use crate::state::State;

verus! {

/// The state right after creation by `sender`.
pub open spec fn created(sender: String, msg: InstantiateMsg) -> State {
    State { owner: sender, counter: msg.counter, minimal_donation: msg.minimal_donation }
}

/// The refusal of an owner-only request.
pub open spec fn unauthorized(pre: State) -> Result<Response, ContractError> {
    Err(ContractError::Unauthorized { owner: pre.owner })
}

/// What a donation carrying `funds` does: the counter advances by one when the
/// payment qualifies, and stays otherwise. Advancing past `u64::MAX` is refused.
pub open spec fn donate_outcome(
    pre: State,
    post: State,
    funds: Seq<Coin>,
    r: Result<Response, ContractError>,
) -> bool {
    if !qualifies(pre.minimal_donation, funds) {
        post == pre && no_transfer(r)
    } else if pre.counter < u64::MAX {
        post == pre.with_counter((pre.counter + 1) as u64) && no_transfer(r)
    } else {
        post == pre && r == Err::<Response, ContractError>(ContractError::CounterOverflow)
    }
}

/// What a reset to `counter` by `sender` does.
pub open spec fn reset_outcome(
    pre: State,
    post: State,
    sender: Seq<char>,
    counter: u64,
    r: Result<Response, ContractError>,
) -> bool {
    if sender == pre.owner@ {
        post == pre.with_counter(counter) && no_transfer(r)
    } else {
        post == pre && r == unauthorized(pre)
    }
}

/// What a withdrawal by `sender` answers, `balance` being the contract's funds.
pub open spec fn withdraw_outcome(
    pre: State,
    sender: Seq<char>,
    balance: Seq<Coin>,
    r: Result<Response, ContractError>,
) -> bool {
    if sender == pre.owner@ {
        one_transfer(r, pre.owner@, balance)
    } else {
        r == unauthorized(pre)
    }
}

/// What a withdrawal of `funds` to `receiver` by `sender` answers: the whole
/// `balance` when `funds` is empty, else exactly `funds`.
pub open spec fn withdraw_to_outcome(
    pre: State,
    sender: Seq<char>,
    receiver: String,
    receiver_valid: bool,
    funds: Seq<Coin>,
    balance: Seq<Coin>,
    r: Result<Response, ContractError>,
) -> bool {
    if sender != pre.owner@ {
        r == unauthorized(pre)
    } else if !receiver_valid {
        r == Err::<Response, ContractError>(ContractError::InvalidAddress { address: receiver })
    } else if funds.len() == 0 {
        one_transfer(r, receiver@, balance)
    } else {
        one_transfer(r, receiver@, funds)
    }
}

/// What any state-changing request does.
pub open spec fn execute_outcome(
    pre: State,
    post: State,
    info: MessageInfo,
    env: Env,
    msg: ExecMsg,
    r: Result<Response, ContractError>,
) -> bool {
    match msg {
        ExecMsg::Donate {  } => donate_outcome(pre, post, info.funds@, r),
        ExecMsg::Reset { counter } => reset_outcome(pre, post, info.sender@, counter, r),
        ExecMsg::Withdraw {  } => post == pre && withdraw_outcome(
            pre,
            info.sender@,
            env.balance@,
            r,
        ),
        ExecMsg::WithdrawTo { receiver, funds } => post == pre && withdraw_to_outcome(
            pre,
            info.sender@,
            receiver,
            env.receiver_valid,
            funds@,
            env.balance@,
            r,
        ),
    }
}

/// The answer to a value query on `s`.
pub open spec fn value_of(s: State) -> ValueResp {
    ValueResp { value: s.counter }
}

/// Creates the contract: the caller becomes the owner for good.
pub fn instantiate(info: MessageInfo, msg: InstantiateMsg) -> (r: State)
    ensures
        r == created(info.sender, msg),
{
    State { owner: info.sender, counter: msg.counter, minimal_donation: msg.minimal_donation }
}

/// Counts a donation when `funds` meets the threshold.
pub fn donate(state: &mut State, funds: &Vec<Coin>) -> (r: Result<Response, ContractError>)
    ensures
        donate_outcome(*old(state), *final(state), funds@, r),
{
    if meets_minimum(&state.minimal_donation, funds) {
        if state.counter == u64::MAX {
            return Err(ContractError::CounterOverflow);
        }
        state.counter = state.counter + 1;
    }
    Ok(Response::new())
}

/// Overwrites the counter; only the owner may.
pub fn reset(state: &mut State, sender: &String, counter: u64) -> (r: Result<
    Response,
    ContractError,
>)
    ensures
        reset_outcome(*old(state), *final(state), sender@, counter, r),
{
    if *sender != state.owner {
        return Err(ContractError::Unauthorized { owner: state.owner.clone() });
    }
    state.counter = counter;
    Ok(Response::new())
}

/// The response that sends `amount` to `to`.
fn send(to: String, amount: Vec<Coin>) -> (r: Response)
    ensures
        one_transfer(Ok(r), to@, amount@),
{
    let mut resp = Response::new();
    resp.messages.push(BankSend { to_address: to, amount });
    resp
}

/// Sends the contract's whole `balance` to the owner; only the owner may.
pub fn withdraw(state: &State, sender: &String, balance: Vec<Coin>) -> (r: Result<
    Response,
    ContractError,
>)
    ensures
        withdraw_outcome(*state, sender@, balance@, r),
{
    if *sender != state.owner {
        return Err(ContractError::Unauthorized { owner: state.owner.clone() });
    }
    Ok(send(state.owner.clone(), balance))
}

/// Sends `funds`, or the whole `balance` when `funds` is empty, to `receiver`;
/// only the owner may. Whether `funds` is covered by the balance is left to
/// the transfer itself.
pub fn withdraw_to(
    state: &State,
    sender: &String,
    receiver: String,
    receiver_valid: bool,
    funds: Vec<Coin>,
    balance: Vec<Coin>,
) -> (r: Result<Response, ContractError>)
    ensures
        withdraw_to_outcome(*state, sender@, receiver, receiver_valid, funds@, balance@, r),
{
    if *sender != state.owner {
        return Err(ContractError::Unauthorized { owner: state.owner.clone() });
    }
    if !receiver_valid {
        return Err(ContractError::InvalidAddress { address: receiver });
    }
    if funds.len() == 0 {
        Ok(send(receiver, balance))
    } else {
        Ok(send(receiver, funds))
    }
}

/// Dispatches a state-changing request to its handler.
pub fn execute(state: &mut State, info: MessageInfo, env: Env, msg: ExecMsg) -> (r: Result<
    Response,
    ContractError,
>)
    ensures
        execute_outcome(*old(state), *final(state), info, env, msg, r),
{
    match msg {
        ExecMsg::Donate {  } => donate(state, &info.funds),
        ExecMsg::Reset { counter } => reset(state, &info.sender, counter),
        ExecMsg::Withdraw {  } => withdraw(state, &info.sender, env.balance),
        ExecMsg::WithdrawTo { receiver, funds } => withdraw_to(
            state,
            &info.sender,
            receiver,
            env.receiver_valid,
            funds,
            env.balance,
        ),
    }
}

/// The current counter.
pub fn value(state: &State) -> (r: ValueResp)
    ensures
        r == value_of(*state),
{
    ValueResp { value: state.counter }
}

/// Dispatches a read-only request to its handler.
pub fn query(state: &State, msg: QueryMsg) -> (r: ValueResp)
    ensures
        r == value_of(*state),
{
    match msg {
        QueryMsg::Value {  } => value(state),
    }
}

} // verus!
