use vstd::prelude::*;
use crate::msg::{AllocationInfo, SimulateWithdrawResponse};
use crate::schedule::{
    compute_released_amount, lemma_released_amount_bounds, lemma_released_amount_monotonic_in_time,
    released_amount, Schedule,
};

verus! {

/// The unlocking schedule that actually governs an allocation: its own,
/// or the process-wide default when it names none.
pub open spec fn effective_unlock_schedule(a: AllocationInfo, default_unlock: Schedule) -> Schedule {
    match a.unlock_schedule {
        Some(s) => s,
        None => default_unlock,
    }
}

/// Tokens vested at time `t`. Termination freezes vesting: the terminate
/// operation clips the total grant to what was vested (or already
/// withdrawn) at termination time, and a canceled allocation counts as
/// fully vested from then on.
pub open spec fn vested_amount(a: AllocationInfo, t: int) -> int {
    if a.canceled {
        a.total_amount as int
    } else {
        released_amount(a.vest_schedule, a.total_amount as int, t)
    }
}

/// Tokens unlocked at time `t`; unlocking follows its schedule even after
/// termination.
pub open spec fn unlocked_amount(a: AllocationInfo, default_unlock: Schedule, t: int) -> int {
    released_amount(effective_unlock_schedule(a, default_unlock), a.total_amount as int, t)
}

/// Tokens withdrawable at time `t`: whatever is both vested and unlocked,
/// less what was already withdrawn, and never negative.
pub open spec fn withdrawable_amount(a: AllocationInfo, default_unlock: Schedule, t: int) -> int {
    let ceiling: int = vstd::math::min(vested_amount(a, t), unlocked_amount(a, default_unlock, t));
    if ceiling > a.withdrawn_amount as int {
        ceiling - a.withdrawn_amount as int
    } else {
        0
    }
}

/// A well-formed allocation record: both schedules are valid and the
/// withdrawn amount never exceeds the total grant.
pub open spec fn allocation_wf(a: AllocationInfo) -> bool {
    &&& a.vest_schedule.valid()
    &&& (a.unlock_schedule matches Some(s) ==> s.valid())
    &&& a.withdrawn_amount <= a.total_amount
}

/// A record as it must arrive at creation: well-formed schedules, nothing
/// withdrawn yet, not canceled.
pub open spec fn new_allocation_valid(a: AllocationInfo) -> bool {
    &&& a.vest_schedule.valid()
    &&& (a.unlock_schedule matches Some(s) ==> s.valid())
    &&& a.withdrawn_amount == 0
    &&& !a.canceled
}

/// The full breakdown the simulate-withdraw query reports at time `t`.
pub open spec fn simulate_response(a: AllocationInfo, default_unlock: Schedule, t: int) -> SimulateWithdrawResponse {
    SimulateWithdrawResponse {
        total_whale_locked: a.total_amount,
        total_whale_unlocked: unlocked_amount(a, default_unlock, t) as u128,
        total_whale_vested: vested_amount(a, t) as u128,
        withdrawn_amount: a.withdrawn_amount,
        withdrawable_amount: withdrawable_amount(a, default_unlock, t) as u128,
    }
}

/// Vested and unlocked amounts lie between zero and the total grant.
pub proof fn lemma_vested_unlocked_bounds(a: AllocationInfo, default_unlock: Schedule, t: int)
    ensures
        0 <= vested_amount(a, t) <= a.total_amount,
        0 <= unlocked_amount(a, default_unlock, t) <= a.total_amount,
        0 <= withdrawable_amount(a, default_unlock, t) <= a.total_amount,
{
    lemma_released_amount_bounds(a.vest_schedule, a.total_amount as int, t);
    lemma_released_amount_bounds(effective_unlock_schedule(a, default_unlock), a.total_amount as int, t);
}

/// Once the withdrawn amount respects the vested and unlocked ceilings at
/// some time, it keeps respecting them at every later time: both ceilings
/// only grow as time passes. Together with the withdraw operation's
/// contract this shows that no sequence of withdrawals ever pushes
/// `withdrawn_amount` above `min(vested, unlocked)`.
pub proof fn lemma_withdrawn_bound_is_stable(a: AllocationInfo, default_unlock: Schedule, t1: int, t2: int)
    requires
        t1 <= t2,
        a.withdrawn_amount <= vested_amount(a, t1),
        a.withdrawn_amount <= unlocked_amount(a, default_unlock, t1),
    ensures
        a.withdrawn_amount <= vested_amount(a, t2),
        a.withdrawn_amount <= unlocked_amount(a, default_unlock, t2),
{
    if !a.canceled {
        lemma_released_amount_monotonic_in_time(a.vest_schedule, a.total_amount as int, t1, t2);
    }
    lemma_released_amount_monotonic_in_time(
        effective_unlock_schedule(a, default_unlock),
        a.total_amount as int,
        t1,
        t2,
    );
}

/// A withdrawal at time `t` raises the withdrawn amount exactly to the
/// vested-and-unlocked ceiling of `t`, so the record it leaves behind
/// never has more withdrawn than is vested, nor than is unlocked, at `t`
/// or at any later time. Applied after each withdrawal in turn, this
/// bounds every sequence of withdrawals.
pub proof fn lemma_withdraw_keeps_bound(
    a: AllocationInfo,
    default_unlock: Schedule,
    t: int,
    t2: int,
)
    requires
        t <= t2,
        withdrawable_amount(a, default_unlock, t) > 0,
    ensures
        ({
            let updated = AllocationInfo {
                total_amount: a.total_amount,
                withdrawn_amount: (a.withdrawn_amount + withdrawable_amount(
                    a,
                    default_unlock,
                    t,
                )) as u128,
                vest_schedule: a.vest_schedule,
                unlock_schedule: a.unlock_schedule,
                canceled: a.canceled,
            };
            &&& updated.withdrawn_amount <= vested_amount(updated, t2)
            &&& updated.withdrawn_amount <= unlocked_amount(updated, default_unlock, t2)
        }),
{
    lemma_vested_unlocked_bounds(a, default_unlock, t);
    let updated = AllocationInfo {
        total_amount: a.total_amount,
        withdrawn_amount: (a.withdrawn_amount + withdrawable_amount(a, default_unlock, t)) as u128,
        vest_schedule: a.vest_schedule,
        unlock_schedule: a.unlock_schedule,
        canceled: a.canceled,
    };
    assert(updated.withdrawn_amount <= vested_amount(updated, t));
    assert(updated.withdrawn_amount <= unlocked_amount(updated, default_unlock, t));
    lemma_withdrawn_bound_is_stable(updated, default_unlock, t, t2);
}

/// Computes the simulate-withdraw breakdown at runtime. The result is a
/// pure function of the record, the default unlock schedule and the
/// queried time: repeated calls with the same inputs answer the same.
pub fn simulate_withdraw(a: &AllocationInfo, default_unlock: &Schedule, t: u64) -> (r: SimulateWithdrawResponse)
    ensures
        r == simulate_response(*a, *default_unlock, t as int),
{
    proof {
        lemma_vested_unlocked_bounds(*a, *default_unlock, t as int);
    }
    let vested: u128 = if a.canceled {
        a.total_amount
    } else {
        compute_released_amount(&a.vest_schedule, a.total_amount, t)
    };
    let unlock_schedule: &Schedule = match &a.unlock_schedule {
        Some(s) => s,
        None => default_unlock,
    };
    let unlocked: u128 = compute_released_amount(unlock_schedule, a.total_amount, t);
    let ceiling: u128 = if vested < unlocked {
        vested
    } else {
        unlocked
    };
    let withdrawable: u128 = if ceiling > a.withdrawn_amount {
        ceiling - a.withdrawn_amount
    } else {
        0
    };
    SimulateWithdrawResponse {
        total_whale_locked: a.total_amount,
        total_whale_unlocked: unlocked,
        total_whale_vested: vested,
        withdrawn_amount: a.withdrawn_amount,
        withdrawable_amount: withdrawable,
    }
}

} // verus!
