use vstd::prelude::*;

verus! {

/// Why an operation was refused. A refused operation changes no record and
/// emits no instruction.
#[derive(Debug, Clone, Copy, PartialEq, Eq, Structural)]
pub enum ContractError {
    /// The caller may not perform the operation, or the schedule has not
    /// started yet.
    Unauthorized {},
    /// The cliff pool has to be withdrawn in full before the linear pool.
    WithdrawCliffFirst {},
    /// The amount that the operation would move is zero.
    NothingToWithdraw {},
    /// The schedule's end does not come after its start.
    InvalidSchedule {},
    /// The time that a balance-constrained payout stands for cannot be
    /// represented inside the schedule (the per-second rate is zero, or the
    /// virtual clock would pass the schedule's end).
    VirtualTimeOverflow {},
}

} // verus!
