use counting_contract::bank::Ledger;
use counting_contract::coin::Coin;
use counting_contract::contract::{execute, instantiate, query};
use counting_contract::error::ContractError;
use counting_contract::msg::{
    Env, ExecMsg, InstantiateMsg, MessageInfo, QueryMsg, Response, ValueResp,
};
use counting_contract::state::State;

const CONTRACT: &str = "contract";

fn coins(amount: u128, denom: &str) -> Vec<Coin> {
    vec![Coin::new(amount, denom)]
}

fn create(owner: &str, counter: u64, minimal_donation: Coin) -> State {
    instantiate(
        MessageInfo { sender: owner.to_string(), funds: vec![] },
        InstantiateMsg { counter, minimal_donation },
    )
}

/// One call as the host makes it: the attached funds reach the contract
/// first, the handler runs, then its transfers are performed. A refused call
/// hands the attached funds back.
fn call(
    ledger: &mut Ledger,
    state: &mut State,
    sender: &str,
    msg: ExecMsg,
    funds: Vec<Coin>,
) -> Result<Response, ContractError> {
    let contract = CONTRACT.to_string();
    let sender = sender.to_string();
    ledger.transfer(&sender, &contract, &funds).unwrap();
    let env = Env { balance: ledger.all_balances(&contract), receiver_valid: true };
    let paid = funds.clone();
    match execute(state, MessageInfo { sender: sender.clone(), funds }, env, msg) {
        Ok(resp) => {
            ledger.apply(&contract, &resp).unwrap();
            Ok(resp)
        }
        Err(e) => {
            ledger.transfer(&contract, &sender, &paid).unwrap();
            Err(e)
        }
    }
}

fn value(state: &State) -> ValueResp {
    query(state, QueryMsg::Value {})
}

#[test]
fn query_value() {
    let state = create("sender", 0, Coin::new(10, "atom"));
    assert_eq!(value(&state), ValueResp { value: 0 });
}

#[test]
fn reset() {
    let mut ledger = Ledger::new();
    let mut state = create("sender", 0, Coin::new(10, "atom"));
    call(&mut ledger, &mut state, "sender", ExecMsg::Reset { counter: 10 }, vec![]).unwrap();
    assert_eq!(value(&state), ValueResp { value: 10 });
}

#[test]
fn donate() {
    let mut ledger = Ledger::new();
    let mut state = create("sender", 0, Coin::new(10, "atom"));
    call(&mut ledger, &mut state, "sender", ExecMsg::Donate {}, vec![]).unwrap();
    assert_eq!(value(&state), ValueResp { value: 0 });
}

#[test]
fn donate_with_funds() {
    let mut ledger = Ledger::new();
    ledger.mint(&"sender".to_string(), &Coin::new(10, "atom")).unwrap();
    let mut state = create("sender", 0, Coin::new(10, "atom"));
    call(&mut ledger, &mut state, "sender", ExecMsg::Donate {}, coins(10, "atom")).unwrap();
    assert_eq!(value(&state), ValueResp { value: 1 });
}

#[test]
fn expecting_no_funds() {
    let mut ledger = Ledger::new();
    let mut state = create("sender", 0, Coin::new(0, "atom"));
    call(&mut ledger, &mut state, "sender", ExecMsg::Donate {}, vec![]).unwrap();
    assert_eq!(value(&state), ValueResp { value: 1 });
}

#[test]
fn withdraw() {
    let mut ledger = Ledger::new();
    ledger.mint(&"sender".to_string(), &Coin::new(10, "atom")).unwrap();
    let mut state = create("owner", 0, Coin::new(10, "atom"));
    call(&mut ledger, &mut state, "sender", ExecMsg::Donate {}, coins(10, "atom")).unwrap();
    call(&mut ledger, &mut state, "owner", ExecMsg::Withdraw {}, vec![]).unwrap();
    assert_eq!(ledger.all_balances(&"owner".to_string()), coins(10, "atom"));
    assert_eq!(ledger.all_balances(&CONTRACT.to_string()), vec![]);
}

#[test]
fn withdraw_to() {
    let mut ledger = Ledger::new();
    ledger.mint(&"sender".to_string(), &Coin::new(10, "atom")).unwrap();
    let mut state = create("owner", 0, Coin::new(10, "atom"));
    call(&mut ledger, &mut state, "sender", ExecMsg::Donate {}, coins(10, "atom")).unwrap();
    call(
        &mut ledger,
        &mut state,
        "owner",
        ExecMsg::WithdrawTo { receiver: "receiver".to_string(), funds: coins(5, "atom") },
        vec![],
    )
    .unwrap();
    assert_eq!(ledger.all_balances(&"owner".to_string()), vec![]);
    assert_eq!(ledger.all_balances(&"receiver".to_string()), coins(5, "atom"));
    assert_eq!(ledger.all_balances(&CONTRACT.to_string()), coins(5, "atom"));
}

#[test]
fn unauthorized_withdraw() {
    let mut ledger = Ledger::new();
    let mut state = create("owner", 0, Coin::new(10, "atom"));
    let err = call(&mut ledger, &mut state, "member", ExecMsg::Withdraw {}, vec![]).unwrap_err();
    assert_eq!(ContractError::Unauthorized { owner: "owner".to_string() }, err);
}

#[test]
fn unauthorized_withdraw_to() {
    let mut ledger = Ledger::new();
    let mut state = create("owner", 0, Coin::new(10, "atom"));
    let err = call(
        &mut ledger,
        &mut state,
        "member",
        ExecMsg::WithdrawTo { receiver: "owner".to_string(), funds: vec![] },
        vec![],
    )
    .unwrap_err();
    assert_eq!(ContractError::Unauthorized { owner: "owner".to_string() }, err);
}

#[test]
fn unauthorized_reset() {
    let mut ledger = Ledger::new();
    let mut state = create("owner", 0, Coin::new(10, "atom"));
    let err =
        call(&mut ledger, &mut state, "member", ExecMsg::Reset { counter: 10 }, vec![]).unwrap_err();
    assert_eq!(ContractError::Unauthorized { owner: "owner".to_string() }, err);
}

#[test]
fn stranger_leaves_counter_and_balance() {
    let mut ledger = Ledger::new();
    ledger.mint(&"sender".to_string(), &Coin::new(10, "atom")).unwrap();
    let mut state = create("owner", 0, Coin::new(10, "atom"));
    call(&mut ledger, &mut state, "sender", ExecMsg::Donate {}, coins(10, "atom")).unwrap();
    let requests = vec![
        ExecMsg::Reset { counter: 10 },
        ExecMsg::Withdraw {},
        ExecMsg::WithdrawTo { receiver: "member".to_string(), funds: coins(5, "atom") },
    ];
    for msg in requests {
        let err = call(&mut ledger, &mut state, "member", msg, vec![]).unwrap_err();
        assert_eq!(err, ContractError::Unauthorized { owner: "owner".to_string() });
        assert_eq!(value(&state), ValueResp { value: 1 });
        assert_eq!(ledger.all_balances(&CONTRACT.to_string()), coins(10, "atom"));
        assert_eq!(ledger.all_balances(&"member".to_string()), vec![]);
    }
}

#[test]
fn donation_overflow_refunds_payment() {
    let mut ledger = Ledger::new();
    ledger.mint(&"sender".to_string(), &Coin::new(10, "atom")).unwrap();
    let mut state = create("owner", u64::MAX, Coin::new(10, "atom"));
    let err = call(&mut ledger, &mut state, "sender", ExecMsg::Donate {}, coins(10, "atom"))
        .unwrap_err();
    assert_eq!(err, ContractError::CounterOverflow);
    assert_eq!(ledger.all_balances(&"sender".to_string()), coins(10, "atom"));
    assert_eq!(value(&state), ValueResp { value: u64::MAX });
}
