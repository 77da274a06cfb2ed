use crate::arith::{lemma_div_monotone, lemma_div_of_sum, lemma_share_split, share, share_of};
use crate::error::ContractError;
use crate::msg::{Config, State};
use vstd::prelude::*;

verus! {

/// The single denomination whose withdrawals the ledger accounts for.
pub const TRACKED_DENOM: &'static str = "uluna";

/// Whether `denom` is the tracked denomination.
pub open spec fn is_tracked(denom: Seq<char>) -> bool {
    denom == TRACKED_DENOM@
}

impl Config {
    /// Length of the linear schedule in seconds.
    pub open spec fn duration(&self) -> int {
        self.end_time - self.start_time
    }

    /// Part of the vesting pool that the schedule has released by time `t`,
    /// rounded down.
    pub open spec fn consumed_at(&self, t: int) -> int {
        share(self.vesting_amount as int, t - self.start_time, self.duration())
    }

    /// Part of the vesting pool that the schedule still holds back at time
    /// `t`, rounded down.
    pub open spec fn unvested_at(&self, t: int) -> int {
        share(self.vesting_amount as int, self.end_time - t, self.duration())
    }

    /// Whole units released per second.
    pub open spec fn per_second_rate(&self) -> int {
        self.vesting_amount as int / self.duration()
    }

    /// The current time, clamped to the end of the schedule.
    pub open spec fn effective_now(&self, now: u64) -> u64 {
        if now < self.end_time {
            now
        } else {
            self.end_time
        }
    }

    /// The entitlement that accrued between the virtual time `last` and
    /// `now`: nothing while the clamped time lies before `last`, else the
    /// vesting pool minus what was consumed by `last` and minus what is still
    /// held back at the clamped time.
    pub open spec fn accrued(&self, last: u64, now: u64) -> int {
        let n = self.effective_now(now);
        if n < last {
            0
        } else {
            self.vesting_amount - self.consumed_at(last as int) - self.unvested_at(n as int)
        }
    }

    /// A caller may withdraw when whitelisted, once the schedule started.
    pub open spec fn may_withdraw(&self, sender: Seq<char>, now: u64) -> bool {
        self.whitelist().contains(sender) && self.start_time <= now
    }
}

/// The state of a newly set up arrangement.
pub open spec fn initial_state(c: Config) -> State {
    State { cliff_amount_withdrawn: 0, last_withdrawn_time: c.start_time }
}

/// Outcome of a cliff withdrawal: the next state and the amount paid.
pub open spec fn cliff_outcome(
    c: Config,
    st: State,
    sender: Seq<char>,
    now: u64,
    denom: Seq<char>,
    balance: u128,
) -> Result<(State, u128), ContractError> {
    if !c.may_withdraw(sender, now) {
        Err(ContractError::Unauthorized {  })
    } else if !is_tracked(denom) {
        if balance == 0 {
            Err(ContractError::NothingToWithdraw {  })
        } else {
            Ok((st, balance))
        }
    } else if st.cliff_amount_withdrawn >= c.cliff_amount || balance == 0 {
        Err(ContractError::NothingToWithdraw {  })
    } else {
        let remaining = c.cliff_amount - st.cliff_amount_withdrawn;
        let pay = if balance < remaining {
            balance as int
        } else {
            remaining
        };
        Ok(
            (
                State {
                    cliff_amount_withdrawn: (st.cliff_amount_withdrawn + pay) as u128,
                    ..st
                },
                pay as u128,
            ),
        )
    }
}

/// Outcome of a linear withdrawal of the tracked denomination, once the
/// caller and the cliff have been checked.
pub open spec fn vested_release(c: Config, st: State, now: u64, balance: u128) -> Result<
    (State, u128),
    ContractError,
> {
    let n = c.effective_now(now);
    let accrued = c.accrued(st.last_withdrawn_time, now);
    if n == c.end_time {
        if balance == 0 {
            Err(ContractError::NothingToWithdraw {  })
        } else {
            Ok((State { last_withdrawn_time: c.end_time, ..st }, balance))
        }
    } else if balance < accrued {
        if balance == 0 {
            Err(ContractError::NothingToWithdraw {  })
        } else if c.per_second_rate() == 0 || balance as int / c.per_second_rate() > c.end_time
            - st.last_withdrawn_time {
            Err(ContractError::VirtualTimeOverflow {  })
        } else {
            Ok(
                (
                    State {
                        last_withdrawn_time: (st.last_withdrawn_time + balance as int
                            / c.per_second_rate()) as u64,
                        ..st
                    },
                    balance,
                ),
            )
        }
    } else if accrued == 0 {
        Err(ContractError::NothingToWithdraw {  })
    } else {
        Ok((State { last_withdrawn_time: n, ..st }, accrued as u128))
    }
}

/// Outcome of a linear withdrawal: the next state and the amount paid.
pub open spec fn vested_outcome(
    c: Config,
    st: State,
    sender: Seq<char>,
    now: u64,
    denom: Seq<char>,
    balance: u128,
) -> Result<(State, u128), ContractError> {
    if !c.may_withdraw(sender, now) {
        Err(ContractError::Unauthorized {  })
    } else if st.cliff_amount_withdrawn < c.cliff_amount {
        Err(ContractError::WithdrawCliffFirst {  })
    } else if !is_tracked(denom) {
        if balance == 0 {
            Err(ContractError::NothingToWithdraw {  })
        } else {
            Ok((st, balance))
        }
    } else {
        vested_release(c, st, now, balance)
    }
}

/// What the schedule has released by `t` never exceeds the pool and grows
/// with `t`; released and held-back parts add up to the pool, or to one unit
/// less.
pub proof fn lemma_schedule_split(c: Config, t: int, u: int)
    requires
        c.start_time < c.end_time,
        c.start_time <= t <= u <= c.end_time,
    ensures
        0 <= c.consumed_at(t) <= c.consumed_at(u) <= c.vesting_amount,
        0 <= c.unvested_at(u),
        c.vesting_amount - 1 <= c.consumed_at(u) + c.unvested_at(u) <= c.vesting_amount,
{
    let v = c.vesting_amount as int;
    let d = c.duration();
    lemma_share_split(v, t - c.start_time, d);
    lemma_share_split(v, u - c.start_time, d);
    lemma_share_split(v, c.end_time - u, d);
    assert(v * (t - c.start_time) <= v * (u - c.start_time)) by (nonlinear_arith)
        requires
            0 <= v,
            t <= u,
    ;
    lemma_div_monotone(v * (t - c.start_time), v * (u - c.start_time), d);
    assert(v * (u - c.start_time) + v * (c.end_time - u) == d * v) by (nonlinear_arith)
        requires
            d == c.end_time - c.start_time,
    ;
    assert(0 <= v * (c.end_time - u)) by (nonlinear_arith)
        requires
            0 <= v,
            u <= c.end_time,
    ;
    lemma_div_of_sum(v * (u - c.start_time), v * (c.end_time - u), d);
    vstd::arithmetic::div_mod::lemma_div_multiples_vanish(v, d);
}

/// The entitlement accrued between `last` and the clamped time `n` is what
/// the schedule released in between, or one unit more.
pub proof fn lemma_accrued_bounds(c: Config, last: u64, now: u64)
    requires
        c.start_time < c.end_time,
        c.start_time <= last <= c.effective_now(now),
    ensures
        c.consumed_at(c.effective_now(now) as int) - c.consumed_at(last as int) <= c.accrued(
            last,
            now,
        ),
        c.accrued(last, now) <= c.consumed_at(c.effective_now(now) as int) - c.consumed_at(
            last as int,
        ) + 1,
        0 <= c.accrued(last, now) <= c.vesting_amount,
{
    lemma_schedule_split(c, last as int, c.effective_now(now) as int);
}

/// The entitlement accrued between the virtual time `last` and `now`.
pub fn accrued_amount(c: &Config, last: u64, now: u64) -> (r: u128)
    requires
        c.start_time < c.end_time,
        c.start_time <= last <= c.end_time,
    ensures
        r == c.accrued(last, now),
{
    let n = if now < c.end_time {
        now
    } else {
        c.end_time
    };
    if n < last {
        0
    } else {
        proof {
            lemma_accrued_bounds(*c, last, now);
        }
        let span = c.end_time - c.start_time;
        let consumed = share_of(c.vesting_amount, last - c.start_time, span);
        let unvested = share_of(c.vesting_amount, c.end_time - n, span);
        c.vesting_amount - consumed - unvested
    }
}

/// The linear release of the tracked denomination, once the caller and the
/// cliff have been checked.
pub fn linear_release(c: &Config, st: &State, now: u64, balance: u128) -> (r: Result<
    (State, u128),
    ContractError,
>)
    requires
        c.wf(),
        st.wf(c),
    ensures
        r == vested_release(*c, *st, now, balance),
{
    let n = if now < c.end_time {
        now
    } else {
        c.end_time
    };
    if n == c.end_time {
        if balance == 0 {
            return Err(ContractError::NothingToWithdraw {  });
        }
        return Ok((State { last_withdrawn_time: c.end_time, ..*st }, balance));
    }
    let accrued = accrued_amount(c, st.last_withdrawn_time, now);
    if balance < accrued {
        if balance == 0 {
            return Err(ContractError::NothingToWithdraw {  });
        }
        let rate = c.vesting_amount / ((c.end_time - c.start_time) as u128);
        if rate == 0 {
            return Err(ContractError::VirtualTimeOverflow {  });
        }
        let seconds = balance / rate;
        if seconds > (c.end_time - st.last_withdrawn_time) as u128 {
            return Err(ContractError::VirtualTimeOverflow {  });
        }
        Ok((State { last_withdrawn_time: st.last_withdrawn_time + seconds as u64, ..*st }, balance))
    } else if accrued == 0 {
        Err(ContractError::NothingToWithdraw {  })
    } else {
        Ok((State { last_withdrawn_time: n, ..*st }, accrued))
    }
}

} // verus!
