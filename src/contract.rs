use crate::error::ContractError;
use crate::laws::lemma_withdrawal_monotone;
use crate::msg::{
    coins_view, owner_only, view_result, Action, Coin, CoinView, Config, ExecuteMsg,
    InstantiateMsg, Instruction, InstructionView, QueryMsg, Response, ResponseView, State,
    WithdrawVestedFundsMsg,
};
use crate::schedule::{
    cliff_outcome, initial_state, is_tracked, linear_release, vested_outcome, TRACKED_DENOM,
};
use crate::staking::{
    claim_delegator_reward, claim_response, delegate_funds, delegate_response, redelegate_funds,
    redelegate_response, undelegate_funds, undelegate_response,
};
use crate::whitelist::{
    add_to_whitelist, added_whitelist, addresses_view, admin, admin_response, has_no_duplicates,
    leading_principals, principals, copy_addresses,
    remove_from_whitelist, removed_whitelist, same_terms, update_owner, update_recipient,
    with_member,
};
use vstd::prelude::*;

verus! {

/// The response to a withdrawal that pays `amount` of `denom` to `to`.
pub open spec fn payout_response(to: Seq<char>, denom: Seq<char>, amount: u128) -> ResponseView {
    ResponseView {
        action: Action::WithdrawVestedFunds,
        messages: seq![
            InstructionView::Transfer {
                to_address: to,
                amount: seq![CoinView { denom, amount }],
            },
        ],
    }
}

/// `r` is what a withdrawal with the given outcome answers when paying to
/// `to` in `denom`.
pub open spec fn answers_withdrawal(
    r: Result<(State, Response), ContractError>,
    outcome: Result<(State, u128), ContractError>,
    to: Seq<char>,
    denom: Seq<char>,
) -> bool {
    match outcome {
        Ok((next, amount)) => r matches Ok((st, resp)) && st == next && resp@ == payout_response(
            to,
            denom,
            amount,
        ),
        Err(e) => r == Err::<(State, Response), ContractError>(e),
    }
}

/// Whether `list` holds `a`.
pub fn contains_address(list: &Vec<String>, a: &String) -> (r: bool)
    ensures
        r == list@.map_values(|s: String| s@).contains(a@),
{
    let ghost view = list@.map_values(|s: String| s@);
    let mut i: usize = 0;
    while i < list.len()
        invariant
            i <= list.len(),
            view == list@.map_values(|s: String| s@),
            forall|j: int| 0 <= j < i ==> view[j] != a@,
        decreases list.len() - i,
    {
        if list[i].eq(a) {
            assert(view[i as int] == a@);
            return true;
        }
        i += 1;
    }
    proof {
        assert forall|j: int| 0 <= j < view.len() implies view[j] != a@ by {}
    }
    false
}

/// Whether `denom` is the tracked denomination.
pub fn is_tracked_denom(denom: &String) -> (r: bool)
    ensures
        r == is_tracked(denom@),
{
    let expected = TRACKED_DENOM.to_owned();
    denom.eq(&expected)
}

/// Pays `amount` of `denom` to the recipient.
fn payout(config: &Config, denom: &String, amount: u128) -> (r: Response)
    ensures
        r@ == payout_response(config.recipient@, denom@, amount),
{
    let coins = vec![Coin { denom: denom.clone(), amount }];
    assert(coins_view(coins@) =~= seq![CoinView { denom: denom@, amount }]);
    let transfer = Instruction::Transfer { to_address: config.recipient.clone(), amount: coins };
    let r = Response { action: Action::WithdrawVestedFunds, messages: vec![transfer] };
    assert(r@.messages =~= seq![transfer@]);
    r
}

/// Releases vested funds of the linear pool (see [`vested_outcome`]): once
/// the cliff pool is withdrawn, pays what accrued since the virtual clock,
/// or the whole balance when it falls short (advancing the clock by the
/// seconds that the balance stands for) or when the schedule has ended.
/// Other denominations are swept whole.
pub fn withdraw_vested_funds(
    config: &Config,
    state: &State,
    sender: &String,
    now: u64,
    data: &WithdrawVestedFundsMsg,
    balance: u128,
) -> (r: Result<(State, Response), ContractError>)
    requires
        config.wf(),
        state.wf(config),
    ensures
        answers_withdrawal(
            r,
            vested_outcome(*config, *state, sender@, now, data.denom@, balance),
            config.recipient@,
            data.denom@,
        ),
{
    if !contains_address(&config.whitelisted_addresses, sender) || now < config.start_time {
        return Err(ContractError::Unauthorized {  });
    }
    if state.cliff_amount_withdrawn < config.cliff_amount {
        return Err(ContractError::WithdrawCliffFirst {  });
    }
    if !is_tracked_denom(&data.denom) {
        if balance == 0 {
            return Err(ContractError::NothingToWithdraw {  });
        }
        return Ok((*state, payout(config, &data.denom, balance)));
    }
    match linear_release(config, state, now, balance) {
        Ok((next, amount)) => Ok((next, payout(config, &data.denom, amount))),
        Err(e) => Err(e),
    }
}

/// Releases the cliff pool (see [`cliff_outcome`]): pays what is left of it,
/// or the whole balance when that is smaller. Other denominations are swept
/// whole.
pub fn withdraw_cliff_vested_funds(
    config: &Config,
    state: &State,
    sender: &String,
    now: u64,
    data: &WithdrawVestedFundsMsg,
    balance: u128,
) -> (r: Result<(State, Response), ContractError>)
    requires
        config.wf(),
        state.wf(config),
    ensures
        answers_withdrawal(
            r,
            cliff_outcome(*config, *state, sender@, now, data.denom@, balance),
            config.recipient@,
            data.denom@,
        ),
{
    if !contains_address(&config.whitelisted_addresses, sender) || now < config.start_time {
        return Err(ContractError::Unauthorized {  });
    }
    if !is_tracked_denom(&data.denom) {
        if balance == 0 {
            return Err(ContractError::NothingToWithdraw {  });
        }
        return Ok((*state, payout(config, &data.denom, balance)));
    }
    if state.cliff_amount_withdrawn >= config.cliff_amount || balance == 0 {
        return Err(ContractError::NothingToWithdraw {  });
    }
    let remaining = config.cliff_amount - state.cliff_amount_withdrawn;
    let amount = if balance < remaining {
        balance
    } else {
        remaining
    };
    let next = State {
        cliff_amount_withdrawn: state.cliff_amount_withdrawn + amount,
        ..*state
    };
    Ok((next, payout(config, &data.denom, amount)))
}

/// The start of a schedule set up at `now`.
pub open spec fn schedule_start(msg: InstantiateMsg, now: u64) -> u64 {
    match msg.start_time {
        Some(t) => t,
        None => now,
    }
}

/// `c` and `st` are the records that setting up `msg` at `now` creates.
pub open spec fn set_up(msg: InstantiateMsg, now: u64, c: Config, st: State) -> bool {
    &&& c.owner@ == msg.owner@
    &&& c.recipient@ == msg.recipient@
    &&& c.cliff_amount == msg.cliff_amount
    &&& c.vesting_amount == msg.vesting_amount
    &&& c.start_time == schedule_start(msg, now)
    &&& c.end_time == msg.end_time
    &&& c.whitelist() == principals(msg.owner@, msg.recipient@)
    &&& st == initial_state(c)
}

/// Sets up a vesting arrangement: the schedule starts at the given time, or
/// at `now`, and must end after it starts; the owner and the recipient form
/// the whitelist, and nothing has been withdrawn yet.
pub fn instantiate(msg: &InstantiateMsg, now: u64) -> (r: Result<
    (Config, State, Response),
    ContractError,
>)
    ensures
        schedule_start(*msg, now) >= msg.end_time ==> r == Err::<
            (Config, State, Response),
            ContractError,
        >(ContractError::InvalidSchedule {  }),
        schedule_start(*msg, now) < msg.end_time ==> (r matches Ok((c, st, resp)) && set_up(
            *msg,
            now,
            c,
            st,
        ) && c.wf() && st.wf(&c) && resp@ == admin_response(Action::Instantiate)),
{
    let start_time = match msg.start_time {
        Some(t) => t,
        None => now,
    };
    if start_time >= msg.end_time {
        return Err(ContractError::InvalidSchedule {  });
    }
    let whitelisted_addresses = leading_principals(&msg.owner, &msg.recipient);
    let config = Config {
        owner: msg.owner.clone(),
        recipient: msg.recipient.clone(),
        cliff_amount: msg.cliff_amount,
        vesting_amount: msg.vesting_amount,
        start_time,
        end_time: msg.end_time,
        whitelisted_addresses,
    };
    assert(config.whitelist()[0] == msg.owner@);
    assert(config.whitelist()[config.whitelist().len() - 1] == msg.recipient@);
    let state = State { cliff_amount_withdrawn: 0, last_withdrawn_time: start_time };
    Ok((config, state, admin(Action::Instantiate)))
}

impl Config {
    /// Whether the record is well formed.
    pub fn is_valid(&self) -> (r: bool)
        ensures
            r == self.wf(),
    {
        self.start_time < self.end_time && has_no_duplicates(&self.whitelisted_addresses)
            && contains_address(
            &self.whitelisted_addresses,
            &self.owner,
        ) && contains_address(&self.whitelisted_addresses, &self.recipient)
    }

    /// A copy of the record.
    pub fn duplicate(&self) -> (r: Config)
        ensures
            same_config(r, *self),
    {
        Config {
            owner: self.owner.clone(),
            recipient: self.recipient.clone(),
            cliff_amount: self.cliff_amount,
            vesting_amount: self.vesting_amount,
            start_time: self.start_time,
            end_time: self.end_time,
            whitelisted_addresses: copy_addresses(&self.whitelisted_addresses),
        }
    }
}

impl State {
    /// Whether the record is well formed against `c`.
    pub fn is_valid(&self, c: &Config) -> (r: bool)
        ensures
            r == self.wf(c),
    {
        self.cliff_amount_withdrawn <= c.cliff_amount && c.start_time <= self.last_withdrawn_time
            && self.last_withdrawn_time <= c.end_time
    }
}

/// `a` holds the same fields as `b`.
pub open spec fn same_config(a: Config, b: Config) -> bool {
    &&& a.owner == b.owner
    &&& a.recipient == b.recipient
    &&& same_terms(b, a)
    &&& a.whitelisted_addresses@ == b.whitelisted_addresses@
}

/// The answer to a read-only request.
#[derive(Debug, Clone, PartialEq, Eq)]
pub enum QueryResponse {
    Config(Config),
    State(State),
}

/// Answers a read-only request with the record it names.
pub fn query(config: &Config, state: &State, msg: QueryMsg) -> (r: QueryResponse)
    ensures
        msg is QueryConfig ==> (r matches QueryResponse::Config(c) && same_config(c, *config)),
        msg is QueryState ==> r == QueryResponse::State(*state),
{
    match msg {
        QueryMsg::QueryConfig => QueryResponse::Config(config.duplicate()),
        QueryMsg::QueryState => QueryResponse::State(*state),
    }
}

/// What the environment reported for a request before it is decided: the
/// balance of the requested denomination, for withdrawals, and the staking
/// reward accrued with the validator (with the source and then the
/// destination, for a redelegation), `None` where there is no delegation.
#[derive(Debug, Clone, PartialEq, Eq)]
pub struct Observation {
    pub balance: u128,
    pub rewards: Option<Vec<Coin>>,
    pub dst_rewards: Option<Vec<Coin>>,
}

/// The result of a withdrawal, paired with the state it leaves.
pub open spec fn with_state(r: Result<Response, ContractError>, st: State) -> Result<
    (State, Response),
    ContractError,
> {
    match r {
        Ok(resp) => Ok((st, resp)),
        Err(e) => Err(e),
    }
}

/// `new` is `old` after a successful or refused request of the owner that
/// answered `r` with `resp`, where a successful one gives the whitelist
/// `list`.
pub open spec fn administered(
    old: Config,
    new: Config,
    sender: Seq<char>,
    r: Result<Response, ContractError>,
    resp: ResponseView,
    list: Seq<Seq<char>>,
) -> bool {
    &&& view_result(r) == owner_only(old, sender, resp)
    &&& sender != old.owner@ ==> new == old
    &&& sender == old.owner@ ==> new.whitelist() == list
    &&& same_terms(old, new)
}

/// Decides a state-changing request of `sender` at `now`, given what the
/// environment reported for it, and updates the records. A refused request
/// leaves both records as they were.
pub fn execute(
    config: &mut Config,
    state: &mut State,
    sender: &String,
    now: u64,
    msg: &ExecuteMsg,
    seen: &Observation,
) -> (r: Result<Response, ContractError>)
    requires
        old(config).wf(),
        old(state).wf(old(config)),
    ensures
        final(config).wf(),
        final(state).wf(final(config)),
        r is Err ==> *final(config) == *old(config) && *final(state) == *old(state),
        match *msg {
            ExecuteMsg::WithdrawVestedFunds(d) => *final(config) == *old(config)
                && answers_withdrawal(
                with_state(r, *final(state)),
                vested_outcome(*old(config), *old(state), sender@, now, d.denom@, seen.balance),
                old(config).recipient@,
                d.denom@,
            ),
            ExecuteMsg::WithdrawCliffVestedFunds(d) => *final(config) == *old(config)
                && answers_withdrawal(
                with_state(r, *final(state)),
                cliff_outcome(*old(config), *old(state), sender@, now, d.denom@, seen.balance),
                old(config).recipient@,
                d.denom@,
            ),
            ExecuteMsg::WithdrawDelegatorReward(d) => *final(config) == *old(config) && *final(state) == *old(state) && view_result(r) == owner_only(
                *old(config),
                sender@,
                claim_response(*old(config), d, seen.rewards),
            ),
            ExecuteMsg::DelegateFunds(d) => *final(config) == *old(config) && *final(state)
                == *old(state) && view_result(r) == owner_only(
                *old(config),
                sender@,
                delegate_response(*old(config), d, seen.rewards),
            ),
            ExecuteMsg::UndelegateFunds(d) => *final(config) == *old(config) && *final(state)
                == *old(state) && view_result(r) == owner_only(
                *old(config),
                sender@,
                undelegate_response(*old(config), d, seen.rewards),
            ),
            ExecuteMsg::RedelegateFunds(d) => *final(config) == *old(config) && *final(state)
                == *old(state) && view_result(r) == owner_only(
                *old(config),
                sender@,
                redelegate_response(*old(config), d, seen.rewards, seen.dst_rewards),
            ),
            ExecuteMsg::AddToWhitelist(d) => *final(state) == *old(state) && administered(
                *old(config),
                *final(config),
                sender@,
                r,
                admin_response(Action::AddToWhitelist),
                added_whitelist(old(config).whitelist(), addresses_view(d.addresses@)),
            ) && final(config).owner == old(config).owner && final(config).recipient == old(config).recipient,
            ExecuteMsg::RemoveFromWhitelist(d) => *final(state) == *old(state) && administered(
                *old(config),
                *final(config),
                sender@,
                r,
                admin_response(Action::RemoveFromWhitelist),
                removed_whitelist(
                    old(config).owner@,
                    old(config).recipient@,
                    old(config).whitelist(),
                    addresses_view(d.addresses@),
                ),
            ) && final(config).owner == old(config).owner && final(config).recipient == old(config).recipient,
            ExecuteMsg::UpdateOwner(d) => *final(state) == *old(state) && administered(
                *old(config),
                *final(config),
                sender@,
                r,
                admin_response(Action::UpdateOwner),
                with_member(old(config).whitelist(), d.owner@),
            ) && (sender@ == old(config).owner@ ==> final(config).owner@ == d.owner@) && final(config).recipient == old(config).recipient,
            ExecuteMsg::UpdateRecipient(d) => *final(state) == *old(state) && administered(
                *old(config),
                *final(config),
                sender@,
                r,
                admin_response(Action::UpdateRecipient),
                with_member(old(config).whitelist(), d.recipient@),
            ) && (sender@ == old(config).owner@ ==> final(config).recipient@ == d.recipient@)
                && final(config).owner == old(config).owner,
        },
{
    match msg {
        ExecuteMsg::WithdrawVestedFunds(d) => {
            proof {
                lemma_withdrawal_monotone(*config, *state, sender@, now, d.denom@, seen.balance);
            }
            match withdraw_vested_funds(config, state, sender, now, d, seen.balance) {
                Ok((next, resp)) => {
                    *state = next;
                    Ok(resp)
                },
                Err(e) => Err(e),
            }
        },
        ExecuteMsg::WithdrawCliffVestedFunds(d) => {
            proof {
                lemma_withdrawal_monotone(*config, *state, sender@, now, d.denom@, seen.balance);
            }
            match withdraw_cliff_vested_funds(config, state, sender, now, d, seen.balance) {
                Ok((next, resp)) => {
                    *state = next;
                    Ok(resp)
                },
                Err(e) => Err(e),
            }
        },
        ExecuteMsg::WithdrawDelegatorReward(d) => claim_delegator_reward(
            config,
            sender,
            d,
            &seen.rewards,
        ),
        ExecuteMsg::DelegateFunds(d) => delegate_funds(config, sender, d, &seen.rewards),
        ExecuteMsg::UndelegateFunds(d) => undelegate_funds(config, sender, d, &seen.rewards),
        ExecuteMsg::RedelegateFunds(d) => redelegate_funds(
            config,
            sender,
            d,
            &seen.rewards,
            &seen.dst_rewards,
        ),
        ExecuteMsg::AddToWhitelist(d) => add_to_whitelist(config, sender, d),
        ExecuteMsg::RemoveFromWhitelist(d) => remove_from_whitelist(config, sender, d),
        ExecuteMsg::UpdateOwner(d) => update_owner(config, sender, d),
        ExecuteMsg::UpdateRecipient(d) => update_recipient(config, sender, d),
    }
}

} // verus!
