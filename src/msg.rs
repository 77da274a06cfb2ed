use crate::error::ContractError;
use vstd::prelude::*;

verus! {

/// An amount of one denomination.
#[derive(Debug, Clone, PartialEq, Eq)]
pub struct Coin {
    pub denom: String,
    pub amount: u128,
}

/// The mathematical value of a [`Coin`].
pub struct CoinView {
    pub denom: Seq<char>,
    pub amount: u128,
}

impl View for Coin {
    type V = CoinView;

    open spec fn view(&self) -> CoinView {
        CoinView { denom: self.denom@, amount: self.amount }
    }
}

/// The values of a list of coins.
pub open spec fn coins_view(coins: Seq<Coin>) -> Seq<CoinView> {
    coins.map_values(|c: Coin| c@)
}

impl Coin {
    pub fn new(amount: u128, denom: &str) -> (r: Coin)
        ensures
            r@ == (CoinView { denom: denom@, amount }),
    {
        Coin { denom: denom.to_owned(), amount }
    }

    /// A copy of this coin.
    pub fn duplicate(&self) -> (r: Coin)
        ensures
            r@ == self@,
    {
        Coin { denom: self.denom.clone(), amount: self.amount }
    }
}

/// An outbound instruction that the surrounding environment carries out.
#[derive(Debug, Clone, PartialEq, Eq)]
#[allow(inconsistent_fields)]
pub enum Instruction {
    /// Send coins to an account.
    Transfer { to_address: String, amount: Vec<Coin> },
    /// Delegate coins to a validator.
    Delegate { validator: String, amount: Coin },
    /// Undelegate coins from a validator.
    Undelegate { validator: String, amount: Coin },
    /// Move a delegation from one validator to another.
    Redelegate { src_validator: String, dst_validator: String, amount: Coin },
    /// Claim the staking reward accrued with a validator.
    WithdrawDelegatorReward { validator: String },
}

/// The mathematical value of an [`Instruction`].
#[allow(inconsistent_fields)]
pub enum InstructionView {
    Transfer { to_address: Seq<char>, amount: Seq<CoinView> },
    Delegate { validator: Seq<char>, amount: CoinView },
    Undelegate { validator: Seq<char>, amount: CoinView },
    Redelegate { src_validator: Seq<char>, dst_validator: Seq<char>, amount: CoinView },
    WithdrawDelegatorReward { validator: Seq<char> },
}

impl View for Instruction {
    type V = InstructionView;

    open spec fn view(&self) -> InstructionView {
        match self {
            Instruction::Transfer { to_address, amount } => InstructionView::Transfer {
                to_address: to_address@,
                amount: coins_view(amount@),
            },
            Instruction::Delegate { validator, amount } => InstructionView::Delegate {
                validator: validator@,
                amount: amount@,
            },
            Instruction::Undelegate { validator, amount } => InstructionView::Undelegate {
                validator: validator@,
                amount: amount@,
            },
            Instruction::Redelegate { src_validator, dst_validator, amount } =>
                InstructionView::Redelegate {
                src_validator: src_validator@,
                dst_validator: dst_validator@,
                amount: amount@,
            },
            Instruction::WithdrawDelegatorReward { validator } =>
                InstructionView::WithdrawDelegatorReward { validator: validator@ },
        }
    }
}

/// The kind of operation that a [`Response`] answers.
#[derive(Debug, Clone, Copy, PartialEq, Eq, Structural)]
pub enum Action {
    Instantiate,
    WithdrawVestedFunds,
    WithdrawDelegatorRewards,
    DelegateFunds,
    UndelegateFunds,
    RedelegateFunds,
    AddToWhitelist,
    RemoveFromWhitelist,
    UpdateOwner,
    UpdateRecipient,
}

/// What a successful operation answers: its kind and the instructions to
/// carry out, in order.
#[derive(Debug, Clone, PartialEq, Eq)]
pub struct Response {
    pub action: Action,
    pub messages: Vec<Instruction>,
}

/// The mathematical value of a [`Response`].
pub struct ResponseView {
    pub action: Action,
    pub messages: Seq<InstructionView>,
}

impl View for Response {
    type V = ResponseView;

    open spec fn view(&self) -> ResponseView {
        ResponseView {
            action: self.action,
            messages: self.messages@.map_values(|m: Instruction| m@),
        }
    }
}

/// The answer of an operation that only the owner may perform.
pub open spec fn owner_only(config: Config, sender: Seq<char>, resp: ResponseView) -> Result<
    ResponseView,
    ContractError,
> {
    if sender == config.owner@ {
        Ok(resp)
    } else {
        Err(ContractError::Unauthorized {  })
    }
}

/// The value of an operation's result.
pub open spec fn view_result(r: Result<Response, ContractError>) -> Result<
    ResponseView,
    ContractError,
> {
    match r {
        Ok(resp) => Ok(resp@),
        Err(e) => Err(e),
    }
}

/// The schedule and the principals of one vesting arrangement.
#[derive(Debug, Clone, PartialEq, Eq)]
pub struct Config {
    /// Manages delegation and the administrative fields.
    pub owner: String,
    /// Receives every released amount.
    pub recipient: String,
    /// Released at once when the schedule starts.
    pub cliff_amount: u128,
    /// Released linearly between `start_time` and `end_time`.
    pub vesting_amount: u128,
    pub start_time: u64,
    pub end_time: u64,
    /// The principals that may trigger withdrawals.
    pub whitelisted_addresses: Vec<String>,
}

impl Config {
    /// The whitelist as a sequence of principals.
    pub open spec fn whitelist(&self) -> Seq<Seq<char>> {
        self.whitelisted_addresses@.map_values(|a: String| a@)
    }

    /// The schedule ends after it starts, the whitelist is a set of
    /// principals, and the owner and the recipient are always in it.
    pub open spec fn wf(&self) -> bool {
        &&& self.start_time < self.end_time
        &&& self.whitelist().no_duplicates()
        &&& self.whitelist().contains(self.owner@)
        &&& self.whitelist().contains(self.recipient@)
    }
}

/// The progress markers of a vesting arrangement.
#[derive(Debug, Clone, Copy, PartialEq, Eq, Structural)]
pub struct State {
    /// How much of the cliff pool has been paid out.
    pub cliff_amount_withdrawn: u128,
    /// The virtual time up to which the linear pool counts as consumed.
    pub last_withdrawn_time: u64,
}

impl State {
    /// The markers stay inside their pools.
    pub open spec fn wf(&self, c: &Config) -> bool {
        &&& self.cliff_amount_withdrawn <= c.cliff_amount
        &&& c.start_time <= self.last_withdrawn_time <= c.end_time
    }
}

/// The parameters of a new vesting arrangement.
#[derive(Debug, Clone, PartialEq, Eq)]
pub struct InstantiateMsg {
    pub owner: String,
    pub recipient: String,
    pub cliff_amount: u128,
    pub vesting_amount: u128,
    /// When absent, the schedule starts at the time of setup.
    pub start_time: Option<u64>,
    pub end_time: u64,
}

#[derive(Debug, Clone, PartialEq, Eq)]
pub struct WithdrawVestedFundsMsg {
    pub denom: String,
}

#[derive(Debug, Clone, PartialEq, Eq)]
pub struct WithdrawDelegatorRewardMsg {
    pub validator: String,
}

#[derive(Debug, Clone, PartialEq, Eq)]
pub struct DelegateFundsMsg {
    pub validator: String,
    pub amount: Coin,
}

#[derive(Debug, Clone, PartialEq, Eq)]
pub struct UndelegateFundsMsg {
    pub validator: String,
    pub amount: Coin,
}

#[derive(Debug, Clone, PartialEq, Eq)]
pub struct RedelegateFundsMsg {
    pub src_validator: String,
    pub dst_validator: String,
    pub amount: Coin,
}

#[derive(Debug, Clone, PartialEq, Eq)]
pub struct AddToWhitelistMsg {
    pub addresses: Vec<String>,
}

#[derive(Debug, Clone, PartialEq, Eq)]
pub struct RemoveFromWhitelistMsg {
    pub addresses: Vec<String>,
}

#[derive(Debug, Clone, PartialEq, Eq)]
pub struct UpdateOwnerMsg {
    pub owner: String,
}

#[derive(Debug, Clone, PartialEq, Eq)]
pub struct UpdateRecipientMsg {
    pub recipient: String,
}

/// A state-changing request.
#[derive(Debug, Clone, PartialEq, Eq)]
pub enum ExecuteMsg {
    WithdrawVestedFunds(WithdrawVestedFundsMsg),
    WithdrawCliffVestedFunds(WithdrawVestedFundsMsg),
    WithdrawDelegatorReward(WithdrawDelegatorRewardMsg),
    DelegateFunds(DelegateFundsMsg),
    UndelegateFunds(UndelegateFundsMsg),
    RedelegateFunds(RedelegateFundsMsg),
    AddToWhitelist(AddToWhitelistMsg),
    RemoveFromWhitelist(RemoveFromWhitelistMsg),
    UpdateOwner(UpdateOwnerMsg),
    UpdateRecipient(UpdateRecipientMsg),
}

/// A read-only request.
#[derive(Debug, Clone, Copy, PartialEq, Eq, Structural)]
pub enum QueryMsg {
    QueryConfig,
    QueryState,
}

} // verus!
