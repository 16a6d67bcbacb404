use vstd::prelude::*;

use crate::coin::{pays_at_least, qualifies, Coin};
use crate::contract::{
    created, donate_outcome, execute_outcome, reset_outcome, unauthorized, value_of,
};
use crate::error::ContractError;
use crate::msg::{one_transfer, Env, ExecMsg, InstantiateMsg, MessageInfo, Response, ValueResp};
use crate::state::State;

verus! {

/// Right after creation the value is the initial counter, whatever the
/// creator and the threshold.
pub proof fn value_after_creation(sender: String, msg: InstantiateMsg)
    ensures
        value_of(created(sender, msg)).value == msg.counter,
{
}

/// Below the counter's largest value a donation always succeeds. It advances the
/// counter by exactly one when the payment holds at least the threshold in the
/// threshold's denomination, or when the threshold is zero; otherwise (an empty
/// payment against a positive threshold among them) it changes nothing.
pub proof fn donation_counts_once(
    pre: State,
    post: State,
    funds: Seq<Coin>,
    r: Result<Response, ContractError>,
)
    requires
        donate_outcome(pre, post, funds, r),
        pre.counter < u64::MAX,
    ensures
        r is Ok,
        post.owner == pre.owner && post.minimal_donation == pre.minimal_donation,
        pays_at_least(funds, pre.minimal_donation.denom@, pre.minimal_donation.amount)
            ==> post.counter == pre.counter + 1,
        pre.minimal_donation.amount == 0 ==> post.counter == pre.counter + 1,
        !qualifies(pre.minimal_donation, funds) ==> post == pre,
        funds.len() == 0 && pre.minimal_donation.amount > 0 ==> post == pre,
{
}

/// A reset by the owner sets the value to the given counter, below or above
/// the previous one; a reset by anyone else is refused and changes nothing.
pub proof fn reset_sets_value(
    pre: State,
    post: State,
    sender: Seq<char>,
    counter: u64,
    r: Result<Response, ContractError>,
)
    requires
        reset_outcome(pre, post, sender, counter, r),
    ensures
        sender == pre.owner@ ==> value_of(post).value == counter && r is Ok,
        sender != pre.owner@ ==> post == pre && r == unauthorized(pre),
{
}

/// A withdrawal by the owner sends the contract's whole balance to the owner;
/// by anyone else it is refused with no transfer. The state never changes.
pub proof fn withdraw_sends_balance(
    pre: State,
    post: State,
    info: MessageInfo,
    env: Env,
    r: Result<Response, ContractError>,
)
    requires
        execute_outcome(pre, post, info, env, ExecMsg::Withdraw {  }, r),
    ensures
        post == pre,
        info.sender@ == pre.owner@ ==> one_transfer(r, pre.owner@, env.balance@),
        info.sender@ != pre.owner@ ==> r == unauthorized(pre),
{
}

/// A withdrawal to a valid receiver by the owner sends the whole balance when
/// no funds are named, and exactly the named funds otherwise; by anyone else it
/// is refused before any transfer, whatever the receiver.
pub proof fn withdraw_to_sends_funds(
    pre: State,
    post: State,
    info: MessageInfo,
    env: Env,
    receiver: String,
    funds: Vec<Coin>,
    r: Result<Response, ContractError>,
)
    requires
        execute_outcome(pre, post, info, env, ExecMsg::WithdrawTo { receiver, funds }, r),
    ensures
        post == pre,
        info.sender@ == pre.owner@ && env.receiver_valid && funds@.len() == 0 ==> one_transfer(
            r,
            receiver@,
            env.balance@,
        ),
        info.sender@ == pre.owner@ && env.receiver_valid && funds@.len() > 0 ==> one_transfer(
            r,
            receiver@,
            funds@,
        ),
        info.sender@ != pre.owner@ ==> r == unauthorized(pre),
{
}

/// Two value queries on the same state give the same answer.
pub proof fn queries_agree(s: State, a: ValueResp, b: ValueResp)
    requires
        a == value_of(s),
        b == value_of(s),
    ensures
        a == b,
{
}

/// Every owner-only request from anyone but the owner is refused with the
/// owner's identity, and changes no state and asks for no transfer.
pub proof fn owner_only(
    pre: State,
    post: State,
    info: MessageInfo,
    env: Env,
    msg: ExecMsg,
    r: Result<Response, ContractError>,
)
    requires
        execute_outcome(pre, post, info, env, msg, r),
        info.sender@ != pre.owner@,
        !(msg is Donate),
    ensures
        post == pre,
        r == unauthorized(pre),
        r->Err_0 == (ContractError::Unauthorized { owner: pre.owner }),
{
}

/// A refused request leaves the state as it was.
pub proof fn refusal_changes_nothing(
    pre: State,
    post: State,
    info: MessageInfo,
    env: Env,
    msg: ExecMsg,
    r: Result<Response, ContractError>,
)
    requires
        execute_outcome(pre, post, info, env, msg, r),
        r is Err,
    ensures
        post == pre,
{
}

} // verus!
