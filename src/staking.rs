use crate::error::ContractError;
use crate::msg::{
    coins_view, owner_only, view_result, Action, Coin, CoinView, Config, DelegateFundsMsg,
    Instruction, InstructionView, RedelegateFundsMsg, Response, ResponseView, UndelegateFundsMsg,
    WithdrawDelegatorRewardMsg,
};
use crate::whitelist::lemma_filter_take_step;
use vstd::prelude::*;

verus! {

/// Whether a coin holds a positive amount.
pub open spec fn is_nonzero() -> spec_fn(CoinView) -> bool {
    |c: CoinView| c.amount != 0
}

/// The values of an optional list of coins.
pub open spec fn rewards_view(rewards: Option<Vec<Coin>>) -> Option<Seq<CoinView>> {
    match rewards {
        Some(coins) => Some(coins_view(coins@)),
        None => None,
    }
}

/// The instructions that sweep an accrued staking reward to `to`: one
/// transfer of its positive coins, or none when there is no delegation or no
/// positive coin.
pub open spec fn reward_sweep(to: Seq<char>, rewards: Option<Seq<CoinView>>) -> Seq<
    InstructionView,
> {
    match rewards {
        Some(coins) => {
            let positive = coins.filter(is_nonzero());
            if positive.len() == 0 {
                Seq::empty()
            } else {
                seq![InstructionView::Transfer { to_address: to, amount: positive }]
            }
        },
        None => Seq::empty(),
    }
}

/// The instructions of `r`, none or one.
pub open spec fn optional_instruction(r: Option<Instruction>) -> Seq<InstructionView> {
    match r {
        Some(i) => seq![i@],
        None => Seq::empty(),
    }
}

/// Sweeps the positive coins of an accrued staking reward to `to`.
pub fn withdraw_delegation_rewards(rewards: &Option<Vec<Coin>>, to: &String) -> (r: Option<
    Instruction,
>)
    ensures
        optional_instruction(r) == reward_sweep(to@, rewards_view(*rewards)),
{
    match rewards {
        None => None,
        Some(coins) => {
            let ghost all = coins_view(coins@);
            let mut positive: Vec<Coin> = Vec::new();
            let mut i: usize = 0;
            while i < coins.len()
                invariant
                    i <= coins.len(),
                    all == coins_view(coins@),
                    coins_view(positive@) == all.take(i as int).filter(is_nonzero()),
                decreases coins.len() - i,
            {
                proof {
                    lemma_filter_take_step(all, is_nonzero(), i as int);
                }
                if coins[i].amount != 0 {
                    positive.push(coins[i].duplicate());
                }
                i += 1;
                assert(coins_view(positive@) =~= all.take(i as int).filter(is_nonzero()));
            }
            assert(all.take(i as int) =~= all);
            if positive.len() == 0 {
                None
            } else {
                Some(Instruction::Transfer { to_address: to.clone(), amount: positive })
            }
        },
    }
}

/// The response to a delegation.
pub open spec fn delegate_response(
    config: Config,
    data: DelegateFundsMsg,
    rewards: Option<Vec<Coin>>,
) -> ResponseView {
    ResponseView {
        action: Action::DelegateFunds,
        messages: seq![
            InstructionView::Delegate { validator: data.validator@, amount: data.amount@ },
        ] + reward_sweep(config.recipient@, rewards_view(rewards)),
    }
}

/// The response to an undelegation.
pub open spec fn undelegate_response(
    config: Config,
    data: UndelegateFundsMsg,
    rewards: Option<Vec<Coin>>,
) -> ResponseView {
    ResponseView {
        action: Action::UndelegateFunds,
        messages: seq![
            InstructionView::Undelegate { validator: data.validator@, amount: data.amount@ },
        ] + reward_sweep(config.recipient@, rewards_view(rewards)),
    }
}

/// The response to a reward claim.
pub open spec fn claim_response(
    config: Config,
    data: WithdrawDelegatorRewardMsg,
    rewards: Option<Vec<Coin>>,
) -> ResponseView {
    ResponseView {
        action: Action::WithdrawDelegatorRewards,
        messages: seq![InstructionView::WithdrawDelegatorReward { validator: data.validator@ }]
            + reward_sweep(config.recipient@, rewards_view(rewards)),
    }
}

/// The response to a redelegation.
pub open spec fn redelegate_response(
    config: Config,
    data: RedelegateFundsMsg,
    src_rewards: Option<Vec<Coin>>,
    dst_rewards: Option<Vec<Coin>>,
) -> ResponseView {
    ResponseView {
        action: Action::RedelegateFunds,
        messages: seq![
            InstructionView::Redelegate {
                src_validator: data.src_validator@,
                dst_validator: data.dst_validator@,
                amount: data.amount@,
            },
        ] + reward_sweep(config.recipient@, rewards_view(src_rewards)) + reward_sweep(
            config.recipient@,
            rewards_view(dst_rewards),
        ),
    }
}

/// The values of a list of instructions.
pub open spec fn instructions_view(list: Seq<Instruction>) -> Seq<InstructionView> {
    list.map_values(|m: Instruction| m@)
}

/// Appends the instruction of `sweep`, if any.
fn push_sweep(messages: &mut Vec<Instruction>, sweep: Option<Instruction>)
    ensures
        instructions_view(final(messages)@) == instructions_view(old(messages)@)
            + optional_instruction(sweep),
{
    match sweep {
        Some(i) => {
            messages.push(i);
            assert(instructions_view(messages@) =~= instructions_view(old(messages)@)
                + optional_instruction(sweep));
        },
        None => {
            assert(instructions_view(messages@) =~= instructions_view(old(messages)@)
                + optional_instruction(sweep));
        },
    }
}

/// A response of the given kind: `first`, then the sweep of `rewards` to
/// the recipient.
fn respond_with_sweep(
    action: Action,
    first: Instruction,
    config: &Config,
    rewards: &Option<Vec<Coin>>,
) -> (r: Response)
    ensures
        r@ == (ResponseView {
            action,
            messages: seq![first@] + reward_sweep(config.recipient@, rewards_view(*rewards)),
        }),
{
    let ghost head = first@;
    let mut messages: Vec<Instruction> = vec![first];
    assert(instructions_view(messages@) =~= seq![head]);
    push_sweep(&mut messages, withdraw_delegation_rewards(rewards, &config.recipient));
    Response { action, messages }
}

/// Delegates funds to a validator and sweeps the reward already accrued
/// with it to the recipient; the owner only.
pub fn delegate_funds(
    config: &Config,
    sender: &String,
    data: &DelegateFundsMsg,
    rewards: &Option<Vec<Coin>>,
) -> (r: Result<Response, ContractError>)
    ensures
        view_result(r) == owner_only(*config, sender@, delegate_response(*config, *data, *rewards)),
{
    if !sender.eq(&config.owner) {
        return Err(ContractError::Unauthorized {  });
    }
    let first = Instruction::Delegate {
        validator: data.validator.clone(),
        amount: data.amount.duplicate(),
    };
    Ok(respond_with_sweep(Action::DelegateFunds, first, config, rewards))
}

/// Undelegates funds from a validator and sweeps the reward already accrued
/// with it to the recipient; the owner only.
pub fn undelegate_funds(
    config: &Config,
    sender: &String,
    data: &UndelegateFundsMsg,
    rewards: &Option<Vec<Coin>>,
) -> (r: Result<Response, ContractError>)
    ensures
        view_result(r) == owner_only(*config, sender@, undelegate_response(*config, *data, *rewards)),
{
    if !sender.eq(&config.owner) {
        return Err(ContractError::Unauthorized {  });
    }
    let first = Instruction::Undelegate {
        validator: data.validator.clone(),
        amount: data.amount.duplicate(),
    };
    Ok(respond_with_sweep(Action::UndelegateFunds, first, config, rewards))
}

/// Claims the staking reward accrued with a validator and sweeps what is
/// already claimable to the recipient; the owner only.
pub fn claim_delegator_reward(
    config: &Config,
    sender: &String,
    data: &WithdrawDelegatorRewardMsg,
    rewards: &Option<Vec<Coin>>,
) -> (r: Result<Response, ContractError>)
    ensures
        view_result(r) == owner_only(*config, sender@, claim_response(*config, *data, *rewards)),
{
    if !sender.eq(&config.owner) {
        return Err(ContractError::Unauthorized {  });
    }
    let first = Instruction::WithdrawDelegatorReward { validator: data.validator.clone() };
    Ok(respond_with_sweep(Action::WithdrawDelegatorRewards, first, config, rewards))
}

/// Moves a delegation between validators and sweeps the rewards already
/// accrued with the source, then with the destination, to the recipient;
/// the owner only.
pub fn redelegate_funds(
    config: &Config,
    sender: &String,
    data: &RedelegateFundsMsg,
    src_rewards: &Option<Vec<Coin>>,
    dst_rewards: &Option<Vec<Coin>>,
) -> (r: Result<Response, ContractError>)
    ensures
        view_result(r) == owner_only(*config, sender@, redelegate_response(*config, *data, *src_rewards, *dst_rewards)),
{
    if !sender.eq(&config.owner) {
        return Err(ContractError::Unauthorized {  });
    }
    let first = Instruction::Redelegate {
        src_validator: data.src_validator.clone(),
        dst_validator: data.dst_validator.clone(),
        amount: data.amount.duplicate(),
    };
    let ghost head = first@;
    let mut messages: Vec<Instruction> = vec![first];
    assert(instructions_view(messages@) =~= seq![head]);
    push_sweep(&mut messages, withdraw_delegation_rewards(src_rewards, &config.recipient));
    push_sweep(&mut messages, withdraw_delegation_rewards(dst_rewards, &config.recipient));
    Ok(Response { action: Action::RedelegateFunds, messages })
}

} // verus!
