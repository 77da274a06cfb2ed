use vesting_contract::contract::{execute, instantiate, query, Observation, QueryResponse};
use vesting_contract::{
    AddToWhitelistMsg, Coin, Config, ContractError, DelegateFundsMsg, ExecuteMsg, InstantiateMsg,
    Instruction, QueryMsg, RedelegateFundsMsg, RemoveFromWhitelistMsg, Response, State,
    UndelegateFundsMsg, UpdateOwnerMsg, UpdateRecipientMsg, WithdrawDelegatorRewardMsg,
    WithdrawVestedFundsMsg,
};

const VESTING_START_TIME: u64 = 1735707600; //jan 1, 2025, 00:00:00
const VESTING_END_TIME: u64 = 1861937999; //dec 31, 2028, 23:59:59

const CLIFF_AMOUNT: u128 = 25_000_000_000_000; //25m u_units
const VESTING_AMOUNT: u128 = 100_000_000_000_000; //100m u_units

// one day of linear vesting over three normal years and a leap year, rounding included
const VESTED_PER_DAY: u128 = 68_446_270_221;

const DAY_IN_SECONDS: u64 = 86400;

/// The ledger of a contract set up one second before its schedule starts,
/// with the time of setup.
struct Ledger {
    config: Config,
    state: State,
    time: u64,
    balance: u128,
}

fn instantiate_contract() -> (Ledger, String, String) {
    let owner = "vlad".to_string();
    let recipient = "javier".to_string();
    let time = VESTING_START_TIME - 1;
    let msg = InstantiateMsg {
        owner: owner.clone(),
        recipient: recipient.clone(),
        cliff_amount: CLIFF_AMOUNT,
        vesting_amount: VESTING_AMOUNT,
        start_time: Some(VESTING_START_TIME),
        end_time: VESTING_END_TIME,
    };
    let (config, state, _) = instantiate(&msg, time).unwrap();
    // prefilled with the whole pool
    let ledger = Ledger { config, state, time, balance: VESTING_AMOUNT + CLIFF_AMOUNT };
    (ledger, owner, recipient)
}

fn run(ledger: &mut Ledger, sender: &str, msg: ExecuteMsg) -> Result<Response, ContractError> {
    let seen = Observation { balance: ledger.balance, rewards: None, dst_rewards: None };
    execute(&mut ledger.config, &mut ledger.state, &sender.to_string(), ledger.time, &msg, &seen)
}

fn withdraw(denom: &str) -> WithdrawVestedFundsMsg {
    WithdrawVestedFundsMsg { denom: denom.to_string() }
}

fn transfer(to: &str, amount: u128, denom: &str) -> Instruction {
    Instruction::Transfer { to_address: to.to_string(), amount: vec![Coin::new(amount, denom)] }
}

#[test]
fn test_withdraw_vested_funds_owner() {
    let (mut ledger, owner, recipient) = instantiate_contract();
    ledger.time += DAY_IN_SECONDS + 1;

    let mut res =
        run(&mut ledger, &owner, ExecuteMsg::WithdrawCliffVestedFunds(withdraw("uluna"))).unwrap();
    assert_eq!(res.messages[0], transfer(&recipient, CLIFF_AMOUNT, "uluna"));

    res = run(&mut ledger, &owner, ExecuteMsg::WithdrawVestedFunds(withdraw("uluna"))).unwrap();
    //one day of vesting
    assert_eq!(res.messages[0], transfer(&recipient, VESTED_PER_DAY, "uluna"));
}

#[test]
fn test_withdraw_vested_funds_whitelist() {
    let (mut ledger, _owner, recipient) = instantiate_contract();
    ledger.time += DAY_IN_SECONDS + 1;

    let mut res = run(&mut ledger, &recipient, ExecuteMsg::WithdrawCliffVestedFunds(withdraw("uluna")))
        .unwrap();
    assert_eq!(res.messages[0], transfer(&recipient, CLIFF_AMOUNT, "uluna"));
    ledger.balance = VESTING_AMOUNT;

    res = run(&mut ledger, &recipient, ExecuteMsg::WithdrawVestedFunds(withdraw("uluna"))).unwrap();
    assert_eq!(res.messages[0], transfer(&recipient, VESTED_PER_DAY, "uluna"));
}

#[test]
fn test_withdraw_vested_funds_before_withdrawing_cliff_vested() {
    let (mut ledger, owner, _recipient) = instantiate_contract();
    ledger.time += 10;

    let res = run(&mut ledger, &owner, ExecuteMsg::WithdrawVestedFunds(withdraw("uluna")))
        .unwrap_err();
    assert_eq!(res, ContractError::WithdrawCliffFirst {});
}

#[test]
fn test_withdraw_cliff_vested_funds_with_not_enough_balance() {
    let (mut ledger, owner, recipient) = instantiate_contract();
    ledger.time += 1;

    let res = run(&mut ledger, &owner, ExecuteMsg::WithdrawCliffVestedFunds(withdraw("uluna")))
        .unwrap();
    assert_eq!(res.messages[0], transfer(&recipient, CLIFF_AMOUNT, "uluna"));
    assert_eq!(
        ledger.state,
        State { cliff_amount_withdrawn: CLIFF_AMOUNT, last_withdrawn_time: VESTING_START_TIME }
    );

    // Withdrawing vested funds should fail until all cliff vested funds are withdrawn
    run(&mut ledger, &owner, ExecuteMsg::WithdrawVestedFunds(withdraw("uluna"))).unwrap_err();
}

#[test]
fn test_withdraw_vested_funds_before_vesting_started() {
    let (mut ledger, owner, _recipient) = instantiate_contract();
    ledger.time -= 5;

    run(&mut ledger, &owner, ExecuteMsg::WithdrawCliffVestedFunds(withdraw("uluna"))).unwrap_err();
}

#[test]
fn test_withdraw_vested_funds_zero_balance() {
    let (mut ledger, owner, _recipient) = instantiate_contract();
    ledger.time += 1;
    ledger.balance = 0;

    let res = run(&mut ledger, &owner, ExecuteMsg::WithdrawCliffVestedFunds(withdraw("uluna")))
        .unwrap_err();
    assert_eq!(res, ContractError::NothingToWithdraw {});

    ledger.state =
        State { cliff_amount_withdrawn: CLIFF_AMOUNT, last_withdrawn_time: VESTING_START_TIME };

    let res = run(&mut ledger, &owner, ExecuteMsg::WithdrawVestedFunds(withdraw("uluna")))
        .unwrap_err();
    assert_eq!(res, ContractError::NothingToWithdraw {});
}

#[test]
fn test_withdraw_vested_funds_balance_smaller_than_withdrawable() {
    let (mut ledger, owner, recipient) = instantiate_contract();
    ledger.time += DAY_IN_SECONDS * 2 + 1;

    //cliff withdrawn
    ledger.state =
        State { last_withdrawn_time: VESTING_START_TIME, cliff_amount_withdrawn: CLIFF_AMOUNT };
    ledger.balance = VESTED_PER_DAY;

    let res = run(&mut ledger, &owner, ExecuteMsg::WithdrawVestedFunds(withdraw("uluna"))).unwrap();
    assert_eq!(res.messages[0], transfer(&recipient, VESTED_PER_DAY, "uluna"));
    assert_eq!(
        ledger.state,
        State {
            //one day worth withdrawn, the clock moves by one day
            last_withdrawn_time: VESTING_START_TIME + DAY_IN_SECONDS,
            cliff_amount_withdrawn: 25000000000000,
        }
    );

    //now more is in the balance than is withdrawable
    ledger.balance = 150_000_000_000;
    let res = run(&mut ledger, &owner, ExecuteMsg::WithdrawVestedFunds(withdraw("uluna"))).unwrap();
    //the second day, plus one unit of rounding
    assert_eq!(res.messages[0], transfer(&recipient, VESTED_PER_DAY + 1, "uluna"));
    assert_eq!(
        ledger.state,
        State {
            last_withdrawn_time: VESTING_START_TIME + DAY_IN_SECONDS * 2,
            cliff_amount_withdrawn: CLIFF_AMOUNT,
        }
    );
}

#[test]
fn test_withdraw_vested_funds_balance_vesting_ended() {
    let (mut ledger, owner, recipient) = instantiate_contract();
    //past the end of vesting
    ledger.time = VESTING_END_TIME + 1;

    ledger.state =
        State { last_withdrawn_time: VESTING_START_TIME, cliff_amount_withdrawn: CLIFF_AMOUNT };
    // assume cliff has been withdrawn
    ledger.balance = VESTING_AMOUNT;

    let res = run(&mut ledger, &owner, ExecuteMsg::WithdrawVestedFunds(withdraw("uluna"))).unwrap();
    assert_eq!(res.messages[0], transfer(&recipient, VESTING_AMOUNT, "uluna"));
}

#[test]
fn test_withdraw_vested_funds_balance_non_luna() {
    let (mut ledger, owner, recipient) = instantiate_contract();
    ledger.time += 200;
    ledger.balance = 1_000_000;

    let res = run(&mut ledger, &owner, ExecuteMsg::WithdrawCliffVestedFunds(withdraw("uusd")))
        .unwrap();
    assert_eq!(res.messages[0], transfer(&recipient, 1_000_000, "uusd"));

    ledger.state =
        State { last_withdrawn_time: VESTING_START_TIME, cliff_amount_withdrawn: CLIFF_AMOUNT };

    let res = run(&mut ledger, &owner, ExecuteMsg::WithdrawVestedFunds(withdraw("uusd"))).unwrap();
    assert_eq!(res.messages[0], transfer(&recipient, 1000_000, "uusd"));
}

#[test]
fn test_withdraw_vested_funds_unauthorized() {
    //neither owner nor whitelist
    let (mut ledger, _owner, _recipient) = instantiate_contract();
    ledger.time += 200;
    ledger.balance = 1000_000;

    let res = run(&mut ledger, "random", ExecuteMsg::WithdrawCliffVestedFunds(withdraw("uluna")))
        .unwrap_err();
    assert_eq!(res, ContractError::Unauthorized {});

    ledger.state =
        State { last_withdrawn_time: VESTING_START_TIME, cliff_amount_withdrawn: 100_000 };

    let res = run(&mut ledger, "random", ExecuteMsg::WithdrawVestedFunds(withdraw("uluna")))
        .unwrap_err();
    assert_eq!(res, ContractError::Unauthorized {},);
}

#[test]
fn test_add_to_whitelist_successful() {
    let (mut ledger, owner, _recipient) = instantiate_contract();
    ledger.time += 200;

    run(
        &mut ledger,
        &owner,
        ExecuteMsg::AddToWhitelist(AddToWhitelistMsg { addresses: vec!["warp".to_string()] }),
    )
    .unwrap();

    assert_eq!(
        ledger.config.whitelisted_addresses,
        vec!["vlad".to_string(), "javier".to_string(), "warp".to_string()]
    );
}

#[test]
fn test_add_to_whitelist_not_owner() {
    let (mut ledger, _owner, _recipient) = instantiate_contract();
    ledger.time += 200;

    run(
        &mut ledger,
        "random",
        ExecuteMsg::AddToWhitelist(AddToWhitelistMsg { addresses: vec!["warp".to_string()] }),
    )
    .unwrap_err();
}

#[test]
fn test_add_to_whitelist_already_included() {
    let (mut ledger, owner, _recipient) = instantiate_contract();
    ledger.time += 200;

    run(
        &mut ledger,
        &owner,
        ExecuteMsg::AddToWhitelist(AddToWhitelistMsg { addresses: vec!["javier".to_string()] }),
    )
    .unwrap();

    assert_eq!(ledger.config.whitelisted_addresses, vec!["vlad".to_string(), "javier".to_string()]);
}

#[test]
fn test_remove_from_whitelist_successful() {
    let (mut ledger, owner, _recipient) = instantiate_contract();
    ledger.time += 200;

    run(
        &mut ledger,
        &owner,
        ExecuteMsg::AddToWhitelist(AddToWhitelistMsg { addresses: vec!["warp".to_string()] }),
    )
    .unwrap();
    assert_eq!(
        ledger.config.whitelisted_addresses,
        vec!["vlad".to_string(), "javier".to_string(), "warp".to_string()]
    );

    run(
        &mut ledger,
        &owner,
        ExecuteMsg::RemoveFromWhitelist(RemoveFromWhitelistMsg {
            addresses: vec!["warp".to_string()],
        }),
    )
    .unwrap();
    assert_eq!(ledger.config.whitelisted_addresses, vec!["vlad".to_string(), "javier".to_string()]);
}

#[test]
fn test_remove_from_whitelist_not_owner() {
    let (mut ledger, _owner, _recipient) = instantiate_contract();
    ledger.time += 200;

    run(
        &mut ledger,
        "random",
        ExecuteMsg::RemoveFromWhitelist(RemoveFromWhitelistMsg {
            addresses: vec!["warp".to_string()],
        }),
    )
    .unwrap_err();
}

#[test]
fn test_remove_recipient_from_whitelist() {
    let (mut ledger, owner, recipient) = instantiate_contract();
    ledger.time += 200;

    run(
        &mut ledger,
        &owner,
        ExecuteMsg::RemoveFromWhitelist(RemoveFromWhitelistMsg {
            addresses: vec![recipient.clone()],
        }),
    )
    .unwrap();
    assert_eq!(ledger.config.whitelisted_addresses, vec![owner, recipient]);
}

#[test]
fn test_remove_owner_from_whitelist() {
    let (mut ledger, owner, recipient) = instantiate_contract();
    ledger.time += 200;

    run(
        &mut ledger,
        &owner,
        ExecuteMsg::RemoveFromWhitelist(RemoveFromWhitelistMsg { addresses: vec![owner.clone()] }),
    )
    .unwrap();
    assert_eq!(ledger.config.whitelisted_addresses, vec![owner, recipient]);
}

#[test]
fn test_update_owner_successful() {
    let (mut ledger, owner, _recipient) = instantiate_contract();
    ledger.time += 200;

    run(&mut ledger, &owner, ExecuteMsg::UpdateOwner(UpdateOwnerMsg { owner: "rando".to_string() }))
        .unwrap();
    assert_eq!(ledger.config.owner, "rando".to_string());
}

#[test]
fn test_update_owner_unauthorized() {
    let (mut ledger, _owner, _recipient) = instantiate_contract();
    ledger.time += 200;

    run(&mut ledger, "random", ExecuteMsg::UpdateOwner(UpdateOwnerMsg { owner: "rando".to_string() }))
        .unwrap_err();
}

#[test]
fn test_update_recipient_successful() {
    let (mut ledger, owner, _recipient) = instantiate_contract();
    ledger.time += 200;

    run(
        &mut ledger,
        &owner,
        ExecuteMsg::UpdateRecipient(UpdateRecipientMsg { recipient: "rando".to_string() }),
    )
    .unwrap();
    assert_eq!(ledger.config.recipient, "rando".to_string());
}

#[test]
fn test_update_recipient_unauthorized() {
    let (mut ledger, _owner, _recipient) = instantiate_contract();
    ledger.time += 200;

    run(
        &mut ledger,
        "random",
        ExecuteMsg::UpdateRecipient(UpdateRecipientMsg { recipient: "rando".to_string() }),
    )
    .unwrap_err();
}

#[test]
fn test_delegate_funds_successful() {
    let (mut ledger, owner, _recipient) = instantiate_contract();
    ledger.time += 200;

    let res = run(
        &mut ledger,
        &owner,
        ExecuteMsg::DelegateFunds(DelegateFundsMsg {
            validator: "random".to_string(),
            amount: Coin::new(100_000, "uluna"),
        }),
    )
    .unwrap();

    assert_eq!(res.messages.len(), 1);
    assert_eq!(
        res.messages[0],
        Instruction::Delegate {
            validator: "random".to_string(),
            amount: Coin { denom: "uluna".to_string(), amount: 100_000 },
        }
    );
}

#[test]
fn test_delegate_funds_unauthorized() {
    let (mut ledger, _owner, _recipient) = instantiate_contract();
    ledger.time += 200;

    let res = run(
        &mut ledger,
        "random",
        ExecuteMsg::DelegateFunds(DelegateFundsMsg {
            validator: "random".to_string(),
            amount: Coin::new(100_000, "uluna"),
        }),
    )
    .unwrap_err();
    assert_eq!(res, ContractError::Unauthorized {});
}

#[test]
fn test_undelegate_funds_successful() {
    let (mut ledger, owner, _recipient) = instantiate_contract();
    ledger.time += 200;

    let res = run(
        &mut ledger,
        &owner,
        ExecuteMsg::UndelegateFunds(UndelegateFundsMsg {
            validator: "random".to_string(),
            amount: Coin::new(100_000, "uluna"),
        }),
    )
    .unwrap();

    assert_eq!(res.messages.len(), 1);
    assert_eq!(
        res.messages[0],
        Instruction::Undelegate {
            validator: "random".to_string(),
            amount: Coin { denom: "uluna".to_string(), amount: 100_000 },
        }
    );
}

#[test]
fn test_undelegate_funds_unauthorized() {
    let (mut ledger, _owner, _recipient) = instantiate_contract();
    ledger.time += 200;

    let res = run(
        &mut ledger,
        "random",
        ExecuteMsg::UndelegateFunds(UndelegateFundsMsg {
            validator: "random".to_string(),
            amount: Coin::new(100_000, "uluna"),
        }),
    )
    .unwrap_err();
    assert_eq!(res, ContractError::Unauthorized {});
}

#[test]
fn test_redelegate_funds_successful() {
    let (mut ledger, owner, _recipient) = instantiate_contract();
    ledger.time += 200;

    let res = run(
        &mut ledger,
        &owner,
        ExecuteMsg::RedelegateFunds(RedelegateFundsMsg {
            src_validator: "random".to_string(),
            dst_validator: "another".to_string(),
            amount: Coin::new(100_000, "uluna"),
        }),
    )
    .unwrap();

    assert_eq!(res.messages.len(), 1);
    assert_eq!(
        res.messages[0],
        Instruction::Redelegate {
            src_validator: "random".to_string(),
            dst_validator: "another".to_string(),
            amount: Coin { denom: "uluna".to_string(), amount: 100_000 },
        }
    );
}

#[test]
fn test_redelegate_funds_unauthorized() {
    let (mut ledger, _owner, _recipient) = instantiate_contract();
    ledger.time += 200;

    let res = run(
        &mut ledger,
        "random",
        ExecuteMsg::RedelegateFunds(RedelegateFundsMsg {
            src_validator: "random".to_string(),
            dst_validator: "another".to_string(),
            amount: Coin::new(100_000, "uluna"),
        }),
    )
    .unwrap_err();
    assert_eq!(res, ContractError::Unauthorized {});
}

#[test]
fn test_withdraw_delegator_reward_successful() {
    let (mut ledger, owner, _recipient) = instantiate_contract();
    ledger.time += 200;

    let res = run(
        &mut ledger,
        &owner,
        ExecuteMsg::WithdrawDelegatorReward(WithdrawDelegatorRewardMsg {
            validator: "random".to_string(),
        }),
    )
    .unwrap();

    assert_eq!(res.messages.len(), 1);
    assert_eq!(
        res.messages[0],
        Instruction::WithdrawDelegatorReward { validator: "random".to_string() }
    );
}

#[test]
fn test_withdraw_delegator_reward_unauthorized() {
    let (mut ledger, _owner, _recipient) = instantiate_contract();
    ledger.time += 200;

    let res = run(
        &mut ledger,
        "random",
        ExecuteMsg::WithdrawDelegatorReward(WithdrawDelegatorRewardMsg {
            validator: "random".to_string(),
        }),
    )
    .unwrap_err();
    assert_eq!(res, ContractError::Unauthorized {});
}

#[test]
fn test_query_config() {
    let (ledger, owner, recipient) = instantiate_contract();

    let res = query(&ledger.config, &ledger.state, QueryMsg::QueryConfig {});
    assert_eq!(
        res,
        QueryResponse::Config(Config {
            owner: owner.clone(),
            recipient: recipient.clone(),
            cliff_amount: CLIFF_AMOUNT,
            vesting_amount: VESTING_AMOUNT,
            start_time: VESTING_START_TIME,
            end_time: VESTING_END_TIME,
            whitelisted_addresses: vec![owner, recipient],
        })
    );
}

#[test]
fn test_query_state() {
    let (ledger, _owner, _recipient) = instantiate_contract();

    let res = query(&ledger.config, &ledger.state, QueryMsg::QueryState {});
    assert_eq!(
        res,
        QueryResponse::State(State { last_withdrawn_time: 1735707600, cliff_amount_withdrawn: 0 })
    );
}
