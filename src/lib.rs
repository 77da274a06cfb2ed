//! A token-vesting ledger: a cliff pool released at once and a vesting pool
//! released linearly over a schedule, with the accounting that decides how
//! much may be withdrawn at any time and under any available balance.

pub mod arith;
pub mod contract;
mod error;
pub mod laws;
pub mod msg;
pub mod schedule;
pub mod staking;
pub mod whitelist;

pub use crate::error::ContractError;
pub use crate::msg::{
    Action, AddToWhitelistMsg, Coin, Config, DelegateFundsMsg, ExecuteMsg, InstantiateMsg,
    Instruction, QueryMsg, RedelegateFundsMsg, RemoveFromWhitelistMsg, Response, State,
    UndelegateFundsMsg, UpdateOwnerMsg, UpdateRecipientMsg, WithdrawDelegatorRewardMsg,
    WithdrawVestedFundsMsg,
};
