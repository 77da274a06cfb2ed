use crate::arith::{lemma_div_bounds, lemma_div_monotone, lemma_div_of_sum};
use crate::error::ContractError;
use crate::msg::{Config, State};
use crate::schedule::{
    cliff_outcome, initial_state, is_tracked, lemma_accrued_bounds, lemma_schedule_split,
    vested_outcome, TRACKED_DENOM,
};
use crate::whitelist::{added_whitelist, kept_on_removal, principals, removed_whitelist};
use vstd::prelude::*;

verus! {

/// `next` follows `st` without any marker going back: both markers stay in
/// their pools, and neither the cliff paid out, the virtual clock, nor the
/// part of the vesting pool consumed by it decreases.
pub open spec fn advances(c: Config, st: State, next: State) -> bool {
    &&& next.wf(&c)
    &&& st.cliff_amount_withdrawn <= next.cliff_amount_withdrawn
    &&& st.last_withdrawn_time <= next.last_withdrawn_time
    &&& c.consumed_at(st.last_withdrawn_time as int) <= c.consumed_at(
        next.last_withdrawn_time as int,
    )
}

/// While the cliff pool is not withdrawn in full, a linear withdrawal of the
/// tracked denomination by a caller who may withdraw fails with
/// `WithdrawCliffFirst`, whatever the balance.
pub proof fn lemma_cliff_first(c: Config, st: State, sender: Seq<char>, now: u64, balance: u128)
    requires
        c.wf(),
        st.wf(&c),
        st.cliff_amount_withdrawn < c.cliff_amount,
        c.may_withdraw(sender, now),
    ensures
        vested_outcome(c, st, sender, now, TRACKED_DENOM@, balance) == Err::<
            (State, u128),
            ContractError,
        >(ContractError::WithdrawCliffFirst {  }),
{
}

/// Every successful withdrawal, of either pool and of any denomination,
/// keeps the state well formed and moves no marker back: the cliff paid out
/// and the virtual clock, with the vesting it stands for, never decrease.
pub proof fn lemma_withdrawal_monotone(
    c: Config,
    st: State,
    sender: Seq<char>,
    now: u64,
    denom: Seq<char>,
    balance: u128,
)
    requires
        c.wf(),
        st.wf(&c),
    ensures
        cliff_outcome(c, st, sender, now, denom, balance) matches Ok((next, _)) ==> advances(
            c,
            st,
            next,
        ),
        vested_outcome(c, st, sender, now, denom, balance) matches Ok((next, _)) ==> advances(
            c,
            st,
            next,
        ),
{
    if let Ok((next, _)) = vested_outcome(c, st, sender, now, denom, balance) {
        lemma_schedule_split(
            c,
            st.last_withdrawn_time as int,
            next.last_withdrawn_time as int,
        );
    }
    if let Ok((next, _)) = cliff_outcome(c, st, sender, now, denom, balance) {
        lemma_schedule_split(
            c,
            st.last_withdrawn_time as int,
            next.last_withdrawn_time as int,
        );
    }
}

/// Advancing the virtual clock by `k` seconds from `last` consumes at least
/// `k` seconds at the whole per-second rate, and less than the exact share
/// of `k` seconds plus one unit.
pub proof fn lemma_consumed_step(c: Config, last: int, k: int)
    requires
        c.start_time < c.end_time,
        c.start_time <= last,
        0 <= k,
        last + k <= c.end_time,
    ensures
        c.per_second_rate() * k <= c.consumed_at(last + k) - c.consumed_at(last),
        c.duration() * (c.consumed_at(last + k) - c.consumed_at(last)) < c.vesting_amount * k
            + c.duration(),
{
    let v = c.vesting_amount as int;
    let d = c.duration();
    let x = v * (last - c.start_time);
    let y = v * k;
    assert(x + y == v * (last + k - c.start_time) && 0 <= x && 0 <= y) by (nonlinear_arith)
        requires
            0 <= v,
            c.start_time <= last,
            0 <= k,
            x == v * (last - c.start_time),
            y == v * k,
    ;
    lemma_div_of_sum(x, y, d);
    lemma_div_bounds(x, d);
    lemma_div_bounds(x + y, d);
    let rate = v / d;
    lemma_div_bounds(v, d);
    assert(d * (rate * k) <= y) by (nonlinear_arith)
        requires
            d * rate <= v,
            0 <= k,
            y == v * k,
    ;
    lemma_div_monotone(d * (rate * k), y, d);
    vstd::arithmetic::div_mod::lemma_div_multiples_vanish(rate * k, d);
    let a = x / d;
    let b = (x + y) / d;
    assert(d * (b - a) < y + d) by (nonlinear_arith)
        requires
            d * b <= x + y,
            x < d * a + d,
    ;
}

/// A linear withdrawal that the balance cut short, followed by a fully
/// funded one before the end, pays together what one fully funded
/// withdrawal at the later time pays, up to rounding. It pays at most the
/// part of the first payout below a whole number of seconds more; and, with
/// `k` the virtual seconds that the first payout stood for, less than
/// `(k * (vesting_amount % duration) + duration) / duration` units less,
/// that is at most one unit per virtual second, and nothing when the rate
/// divides evenly.
pub proof fn lemma_constrained_round_trip(
    c: Config,
    st: State,
    sender: Seq<char>,
    first_now: u64,
    first_balance: u128,
    later_now: u64,
    later_balance: u128,
    single_balance: u128,
)
    requires
        c.wf(),
        st.wf(&c),
        first_now < c.end_time,
        first_balance < c.accrued(st.last_withdrawn_time, first_now),
        later_now < c.end_time,
        single_balance >= c.accrued(st.last_withdrawn_time, later_now),
    ensures
        vested_outcome(c, st, sender, first_now, TRACKED_DENOM@, first_balance) matches Ok(
            (mid, paid)) ==> (later_balance >= c.accrued(mid.last_withdrawn_time, later_now) ==> (
        vested_outcome(c, mid, sender, later_now, TRACKED_DENOM@, later_balance) matches Ok(
            (_, rest)) ==> (vested_outcome(
            c,
            st,
            sender,
            later_now,
            TRACKED_DENOM@,
            single_balance,
        ) matches Ok((_, whole)) ==> {
            &&& paid + rest <= whole + paid as int % c.per_second_rate()
            &&& whole * c.duration() < (paid + rest) * c.duration() + (mid.last_withdrawn_time
                - st.last_withdrawn_time) * (c.vesting_amount as int % c.duration()) + c.duration()
        }))),
{
    let first = vested_outcome(c, st, sender, first_now, TRACKED_DENOM@, first_balance);
    if let Ok((mid, paid)) = first {
        let later = vested_outcome(c, mid, sender, later_now, TRACKED_DENOM@, later_balance);
        let single = vested_outcome(c, st, sender, later_now, TRACKED_DENOM@, single_balance);
        if later_balance >= c.accrued(mid.last_withdrawn_time, later_now) && later is Ok
            && single is Ok {
            let rest = later->Ok_0.1;
            let whole = single->Ok_0.1;
            let l = st.last_withdrawn_time as int;
            let m = mid.last_withdrawn_time as int;
            let k = m - l;
            let rate = c.per_second_rate();
            let d = c.duration();
            let v = c.vesting_amount as int;
            assert(rate > 0 && k == paid as int / rate && paid == first_balance);
            assert(later_now >= m);
            lemma_accrued_bounds(c, st.last_withdrawn_time, later_now);
            lemma_accrued_bounds(c, mid.last_withdrawn_time, later_now);
            lemma_consumed_step(c, l, k);
            lemma_div_bounds(paid as int, rate);
            vstd::arithmetic::div_mod::lemma_fundamental_div_mod(paid as int, rate);
            vstd::arithmetic::div_mod::lemma_fundamental_div_mod(v, d);
            assert(whole - rest == c.consumed_at(m) - c.consumed_at(l));
            assert(paid + rest - whole <= paid as int % rate) by (nonlinear_arith)
                requires
                    rate * k <= c.consumed_at(m) - c.consumed_at(l),
                    paid == rate * (paid as int / rate) + paid as int % rate,
                    k == paid as int / rate,
                    whole - rest == c.consumed_at(m) - c.consumed_at(l),
            ;
            assert(whole * d < (paid + rest) * d + k * (v % d) + d) by (nonlinear_arith)
                requires
                    d * (c.consumed_at(m) - c.consumed_at(l)) < v * k + d,
                    whole - rest == c.consumed_at(m) - c.consumed_at(l),
                    rate * k <= paid,
                    v == d * rate + v % d,
                    0 < d,
                    0 <= k,
            ;
        }
    }
}

/// Which pool a withdrawal draws from.
pub enum Pool {
    Cliff,
    Linear,
}

/// One withdrawal request, with the time and the balance it meets.
pub struct WithdrawalCall {
    pub pool: Pool,
    pub sender: Seq<char>,
    pub denom: Seq<char>,
    pub now: u64,
    pub balance: u128,
}

/// Outcome of one withdrawal request.
pub open spec fn call_outcome(c: Config, st: State, call: WithdrawalCall) -> Result<
    (State, u128),
    ContractError,
> {
    match call.pool {
        Pool::Cliff => cliff_outcome(c, st, call.sender, call.now, call.denom, call.balance),
        Pool::Linear => vested_outcome(c, st, call.sender, call.now, call.denom, call.balance),
    }
}

/// The state after a sequence of withdrawals and the total they paid, when
/// every one of them succeeds.
pub open spec fn run(c: Config, st: State, calls: Seq<WithdrawalCall>) -> Option<(State, int)>
    decreases calls.len(),
{
    if calls.len() == 0 {
        Some((st, 0))
    } else {
        match call_outcome(c, st, calls[0]) {
            Ok((next, paid)) => match run(c, next, calls.drop_first()) {
                Some((last, total)) => Some((last, paid + total)),
                None => None,
            },
            Err(_) => None,
        }
    }
}

/// Every linear withdrawal in the sequence draws the tracked denomination
/// and meets a balance that covers its accrued entitlement; once the
/// schedule has ended, a balance that holds exactly that entitlement.
pub open spec fn fully_funded(c: Config, st: State, calls: Seq<WithdrawalCall>) -> bool
    decreases calls.len(),
{
    if calls.len() == 0 {
        true
    } else {
        let call = calls[0];
        let owed = c.accrued(st.last_withdrawn_time, call.now);
        &&& is_tracked(call.denom)
        &&& (call.pool is Linear && call.now < c.end_time ==> call.balance >= owed)
        &&& (call.pool is Linear && call.now >= c.end_time ==> call.balance == owed)
        &&& match call_outcome(c, st, call) {
            Ok((next, _)) => fully_funded(c, next, calls.drop_first()),
            Err(_) => true,
        }
    }
}

/// Across any sequence of successful withdrawals, the state stays well
/// formed and no marker moves back.
pub proof fn lemma_run_monotone(c: Config, st: State, calls: Seq<WithdrawalCall>)
    requires
        c.wf(),
        st.wf(&c),
    ensures
        run(c, st, calls) matches Some((last, _)) ==> advances(c, st, last),
    decreases calls.len(),
{
    if calls.len() > 0 {
        let call = calls[0];
        lemma_withdrawal_monotone(c, st, call.sender, call.now, call.denom, call.balance);
        if let Ok((next, _)) = call_outcome(c, st, call) {
            lemma_run_monotone(c, next, calls.drop_first());
            if let Some((last, _)) = run(c, next, calls.drop_first()) {
                lemma_schedule_split(
                    c,
                    st.last_withdrawn_time as int,
                    last.last_withdrawn_time as int,
                );
            }
        }
    }
}

/// How many requests of the sequence draw from the linear pool.
pub open spec fn linear_count(calls: Seq<WithdrawalCall>) -> nat
    decreases calls.len(),
{
    if calls.len() == 0 {
        0
    } else {
        (if calls[0].pool is Linear {
            1nat
        } else {
            0nat
        }) + linear_count(calls.drop_first())
    }
}

/// Part of the vesting pool that the schedule has released by time `t`,
/// rounded up: the pool minus what is still held back.
pub open spec fn released_by(c: Config, t: int) -> int {
    c.vesting_amount - c.unvested_at(t)
}

/// The rounded-up release is the exact linear share, or less than one unit
/// more.
pub proof fn lemma_released_by_bounds(c: Config, t: int)
    requires
        c.start_time < c.end_time,
        c.start_time <= t <= c.end_time,
    ensures
        c.vesting_amount * (t - c.start_time) <= c.duration() * released_by(c, t),
        c.duration() * released_by(c, t) < c.vesting_amount * (t - c.start_time) + c.duration(),
{
    let v = c.vesting_amount as int;
    let d = c.duration();
    let held = v * (c.end_time - t);
    assert(0 <= held) by (nonlinear_arith)
        requires
            0 <= v,
            t <= c.end_time,
            held == v * (c.end_time - t),
    ;
    lemma_div_bounds(held, d);
    let r = held / d;
    assert(v * (t - c.start_time) <= d * (v - r) < v * (t - c.start_time) + d) by (nonlinear_arith)
        requires
            d * r <= held < d * r + d,
            held == v * (c.end_time - t),
            d == c.end_time - c.start_time,
    ;
}

/// Under full funding, a sequence of successful withdrawals pays the cliff
/// it records, plus, once it holds a linear withdrawal, what the schedule
/// released (rounded up) by the final virtual clock beyond what was
/// consumed (rounded down) by the first, and at most one unit more per
/// linear withdrawal after the first.
pub proof fn lemma_run_share(c: Config, st: State, calls: Seq<WithdrawalCall>)
    requires
        c.wf(),
        st.wf(&c),
        fully_funded(c, st, calls),
    ensures
        run(c, st, calls) matches Some((last, total)) ==> {
            let cliff = last.cliff_amount_withdrawn - st.cliff_amount_withdrawn;
            let vested = released_by(c, last.last_withdrawn_time as int) - c.consumed_at(
                st.last_withdrawn_time as int,
            );
            &&& linear_count(calls) == 0 ==> total == cliff && last.last_withdrawn_time
                == st.last_withdrawn_time
            &&& linear_count(calls) > 0 ==> cliff + vested <= total && total <= cliff + vested
                + linear_count(calls) - 1 && last.cliff_amount_withdrawn == c.cliff_amount
            &&& (calls.len() > 0 && calls.last().pool is Linear) ==> last.last_withdrawn_time
                == c.effective_now(calls.last().now)
        },
    decreases calls.len(),
{
    if calls.len() > 0 {
        let call = calls[0];
        lemma_withdrawal_monotone(c, st, call.sender, call.now, call.denom, call.balance);
        if let Ok((next, paid)) = call_outcome(c, st, call) {
            let rest = calls.drop_first();
            lemma_run_share(c, next, rest);
            lemma_run_monotone(c, next, rest);
            let l = st.last_withdrawn_time;
            if call.pool is Linear {
                lemma_accrued_bounds(c, l, call.now);
                let n = next.last_withdrawn_time;
                assert(paid == released_by(c, n as int) - c.consumed_at(l as int));
                lemma_schedule_split(c, n as int, n as int);
            }
            if rest.len() > 0 {
                assert(rest.last() == calls.last());
            }
        }
    }
}

/// Conservation under full funding: from setup, the successful withdrawals
/// pay the cliff pool exactly and, with `k` linear withdrawals, the linear
/// share of the vesting pool up to the final virtual clock, and less than
/// `k` units more. When the last request is a linear withdrawal at or after
/// the schedule's end, that is the cliff pool plus the vesting pool, and
/// less than `k` units more.
pub proof fn lemma_full_funding_conservation(c: Config, calls: Seq<WithdrawalCall>)
    requires
        c.wf(),
        fully_funded(c, initial_state(c), calls),
        linear_count(calls) > 0,
    ensures
        run(c, initial_state(c), calls) matches Some((last, total)) ==> {
            let k = linear_count(calls) as int;
            let share = c.vesting_amount * (last.last_withdrawn_time - c.start_time);
            &&& share <= c.duration() * (total - c.cliff_amount)
            &&& c.duration() * (total - c.cliff_amount) < share + k * c.duration()
            &&& calls.last().pool is Linear && calls.last().now >= c.end_time ==> c.cliff_amount
                + c.vesting_amount <= total && total < c.cliff_amount + c.vesting_amount + k
        },
{
    let st = initial_state(c);
    lemma_run_share(c, st, calls);
    if let Some((last, total)) = run(c, st, calls) {
        let k = linear_count(calls) as int;
        let d = c.duration();
        let v = c.vesting_amount as int;
        let t = last.last_withdrawn_time as int;
        lemma_run_monotone(c, st, calls);
        assert(c.consumed_at(c.start_time as int) == 0) by {
            vstd::arithmetic::div_mod::lemma_div_of0(d);
        }
        lemma_released_by_bounds(c, t);
        let rel = released_by(c, t);
        let vested = total - c.cliff_amount;
        assert(v * (t - c.start_time) <= d * vested < v * (t - c.start_time) + k * d)
            by (nonlinear_arith)
            requires
                v * (t - c.start_time) <= d * rel,
                d * rel < v * (t - c.start_time) + d,
                rel <= vested <= rel + k - 1,
                0 < d,
                1 <= k,
        ;
        if calls.last().pool is Linear && calls.last().now >= c.end_time {
            assert(t == c.end_time);
            assert(v <= vested < v + k) by (nonlinear_arith)
                requires
                    v * d <= d * vested < v * d + k * d,
                    0 < d,
            ;
        }
    }
}

/// Every request of the sequence meets the tracked balance that a holding
/// of `held` units leaves after the payouts before it.
pub open spec fn holding_follows(c: Config, st: State, calls: Seq<WithdrawalCall>, held: int) -> bool
    decreases calls.len(),
{
    if calls.len() == 0 {
        true
    } else {
        &&& calls[0].balance == held
        &&& match call_outcome(c, st, calls[0]) {
            Ok((next, paid)) => holding_follows(c, next, calls.drop_first(), held - paid),
            Err(_) => true,
        }
    }
}

/// A holding whose balance changes only by payouts is paid out in full by a
/// sequence of successful withdrawals that ends with a linear withdrawal at
/// or after the schedule's end; in particular, setup funded with the cliff
/// pool plus the vesting pool pays exactly both pools and leaves nothing.
pub proof fn lemma_holding_drained(c: Config, st: State, calls: Seq<WithdrawalCall>, held: int)
    requires
        holding_follows(c, st, calls, held),
        calls.len() > 0,
        calls.last().pool is Linear,
        calls.last().now >= c.end_time,
    ensures
        run(c, st, calls) matches Some((_, total)) ==> total == held,
    decreases calls.len(),
{
    if let Ok((next, paid)) = call_outcome(c, st, calls[0]) {
        let rest = calls.drop_first();
        if rest.len() > 0 {
            assert(rest.last() == calls.last());
            lemma_holding_drained(c, next, rest, held - paid);
        }
    }
}

/// Adding principals that a list already holds leaves it as it is.
pub proof fn lemma_add_present(list: Seq<Seq<char>>, addrs: Seq<Seq<char>>)
    requires
        forall|i: int| 0 <= i < addrs.len() ==> list.contains(#[trigger] addrs[i]),
    ensures
        added_whitelist(list, addrs) == list,
    decreases addrs.len(),
{
    if addrs.len() > 0 {
        let rest = addrs.drop_last();
        assert forall|i: int| 0 <= i < rest.len() implies list.contains(#[trigger] rest[i]) by {
            assert(rest[i] == addrs[i]);
        }
        lemma_add_present(list, rest);
        assert(list.contains(addrs[addrs.len() - 1]));
    }
}

/// Adding principals that are all whitelisted leaves the whitelist as it
/// is; removing principals that are all absent leaves the same set of
/// principals whitelisted.
pub proof fn lemma_whitelist_idempotent(c: Config, addrs: Seq<Seq<char>>)
    requires
        c.wf(),
    ensures
        (forall|i: int| 0 <= i < addrs.len() ==> c.whitelist().contains(#[trigger] addrs[i]))
            ==> added_whitelist(c.whitelist(), addrs) == c.whitelist(),
        (forall|i: int| 0 <= i < addrs.len() ==> !c.whitelist().contains(#[trigger] addrs[i]))
            ==> removed_whitelist(c.owner@, c.recipient@, c.whitelist(), addrs).to_set()
            == c.whitelist().to_set(),
{
    let list = c.whitelist();
    if forall|i: int| 0 <= i < addrs.len() ==> list.contains(#[trigger] addrs[i]) {
        lemma_add_present(list, addrs);
    }
    if forall|i: int| 0 <= i < addrs.len() ==> !list.contains(#[trigger] addrs[i]) {
        let pred = kept_on_removal(c.owner@, c.recipient@, addrs);
        let removed = removed_whitelist(c.owner@, c.recipient@, list, addrs);
        let front = principals(c.owner@, c.recipient@);
        let kept = list.filter(pred);
        list.filter_lemma(pred);
        assert forall|x: Seq<char>| removed.contains(x) implies list.contains(x) by {
            let j = choose|j: int| 0 <= j < removed.len() && removed[j] == x;
            if j >= front.len() {
                assert(kept.contains(x)) by {
                    assert(kept[j - front.len()] == x);
                }
                list.lemma_filter_contains_rev(pred, x);
            }
        }
        assert forall|x: Seq<char>| list.contains(x) implies removed.contains(x) by {
            if x == c.owner@ {
                assert(removed[0] == x);
            } else if x == c.recipient@ {
                assert(removed[front.len() - 1] == x);
            } else {
                let j = choose|j: int| 0 <= j < list.len() && list[j] == x;
                assert(!addrs.contains(x));
                assert(pred(list[j]));
                assert(kept.contains(list[j]));
                let k = choose|k: int| 0 <= k < kept.len() && kept[k] == x;
                assert(removed[k + front.len()] == x);
            }
        }
        assert(removed.to_set() =~= list.to_set());
    }
}

} // verus!
