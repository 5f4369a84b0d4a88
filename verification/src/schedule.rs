use vstd::prelude::*;
use vstd::arithmetic::div_mod::{
    lemma_div_is_ordered, lemma_div_multiples_vanish, lemma_div_pos_is_pos,
    lemma_fundamental_div_mod, lemma_fundamental_div_mod_converse, lemma_mod_bound,
};
use vstd::arithmetic::mul::{
    lemma_mul_inequality, lemma_mul_is_commutative, lemma_mul_nonnegative, lemma_mul_upper_bound,
};

verus! {

/// Parameters of a linear release schedule with a cliff: nothing is
/// released before `start_time + cliff`, everything is released at
/// `start_time + duration`, and release grows linearly with elapsed time
/// in between.
#[derive(Clone, Copy, Debug, PartialEq, Eq, Structural)]
pub struct Schedule {
    /// Timestamp (seconds) at which release begins.
    pub start_time: u64,
    /// Seconds after `start_time` during which nothing is released.
    pub cliff: u64,
    /// Seconds after `start_time` until the full amount is released.
    pub duration: u64,
}

impl Schedule {
    /// A schedule is well formed when its cliff does not outlast its
    /// duration. Schedules violating this are rejected when an allocation
    /// is created.
    pub open spec fn valid(self) -> bool {
        self.cliff <= self.duration
    }

    /// The all-zero sentinel schedule: it releases the full amount at any
    /// time at or after its start, and so stands for "no schedule".
    pub fn zero() -> (s: Schedule)
        ensures
            s == (Schedule { start_time: 0u64, cliff: 0u64, duration: 0u64 }),
    {
        Schedule {
            start_time: 0u64,
            cliff: 0u64,
            duration: 0u64,
        }
    }
}

/// How much of `total` the schedule `s` has released at time `t`:
/// zero before the cliff ends, everything from `start_time + duration`
/// on, and the linearly interpolated share `total * elapsed / duration`
/// in between, rounded down so the ledger never promises more than it
/// holds. A zero `duration` means full release at any time at or after
/// `start_time`, subject to the cliff.
pub open spec fn released_amount(s: Schedule, total: int, t: int) -> int {
    if t < s.start_time + s.cliff {
        0
    } else if t >= s.start_time + s.duration {
        total
    } else {
        total * (t - s.start_time) / (s.duration as int)
    }
}

/// Splitting `total` into quotient and remainder modulo `den` computes
/// `total * num / den` exactly, stays within `total`, and keeps every
/// intermediate product below 2^128 when `den` fits in 64 bits.
proof fn lemma_mul_div_split(total: int, num: int, den: int)
    requires
        0 <= total <= u128::MAX,
        0 <= num,
        num < den,
        den <= u64::MAX,
    ensures
        (total / den) * num + (total % den) * num / den == total * num / den,
        (total / den) * num <= total,
        (total % den) * num <= 0xffff_ffff_ffff_ffff * 0xffff_ffff_ffff_ffff,
        (total / den) * num + (total % den) * num / den <= total,
{
    let q: int = total / den;
    let rem: int = total % den;
    lemma_fundamental_div_mod(total, den);
    lemma_mod_bound(total, den);
    lemma_div_pos_is_pos(total, den);
    let lo: int = rem * num / den;
    let r2: int = rem * num % den;
    lemma_mul_nonnegative(rem, num);
    lemma_fundamental_div_mod(rem * num, den);
    lemma_mod_bound(rem * num, den);
    lemma_div_pos_is_pos(rem * num, den);
    assert(total * num == (q * num + lo) * den + r2) by (nonlinear_arith)
        requires
            total == den * q + rem,
            rem * num == den * lo + r2,
    ;
    lemma_fundamental_div_mod_converse(total * num, den, q * num + lo, r2);
    // q * num <= q * den <= total
    lemma_mul_inequality(num, den, q);
    lemma_mul_is_commutative(q, num);
    lemma_mul_is_commutative(q, den);
    // rem * num fits in 128 bits
    lemma_mul_upper_bound(rem, 0xffff_ffff_ffff_ffff, num, 0xffff_ffff_ffff_ffff);
    // lo <= rem, so the sum stays within total
    lemma_mul_inequality(num, den, rem);
    lemma_mul_is_commutative(rem, num);
    lemma_mul_is_commutative(rem, den);
    lemma_div_is_ordered(rem * num, den * rem, den);
    lemma_div_multiples_vanish(rem, den);
}

/// `total * num / den`, rounded down, computed without overflowing
/// 128-bit arithmetic: `total` is split into its quotient and remainder
/// modulo `den`, and the two shares are scaled separately.
fn mul_div(total: u128, num: u64, den: u64) -> (r: u128)
    requires
        num < den,
    ensures
        r == total * num / (den as int),
        r <= total,
{
    proof {
        lemma_mul_div_split(total as int, num as int, den as int);
    }
    let q: u128 = total / (den as u128);
    let rem: u128 = total % (den as u128);
    let hi: u128 = q * (num as u128);
    let lo: u128 = (rem * (num as u128)) / (den as u128);
    hi + lo
}

/// Evaluates `released_amount` at runtime: the share of `total` that
/// schedule `s` has released at time `t`.
pub fn compute_released_amount(s: &Schedule, total: u128, t: u64) -> (r: u128)
    ensures
        r == released_amount(*s, total as int, t as int),
        r <= total,
{
    if (t as u128) < s.start_time as u128 + s.cliff as u128 {
        0
    } else if (t as u128) >= s.start_time as u128 + s.duration as u128 {
        total
    } else {
        let elapsed: u64 = t - s.start_time;
        mul_div(total, elapsed, s.duration)
    }
}

/// A released amount is never negative and never exceeds the total.
pub proof fn lemma_released_amount_bounds(s: Schedule, total: int, t: int)
    requires
        0 <= total,
    ensures
        0 <= released_amount(s, total, t) <= total,
{
    if t < s.start_time + s.cliff {
    } else if t >= s.start_time + s.duration {
    } else {
        let d: int = t - s.start_time;
        let dur: int = s.duration as int;
        lemma_mul_nonnegative(total, d);
        lemma_div_pos_is_pos(total * d, dur);
        lemma_mul_inequality(d, dur, total);
        lemma_mul_is_commutative(total, d);
        lemma_mul_is_commutative(total, dur);
        lemma_div_is_ordered(total * d, dur * total, dur);
        lemma_div_multiples_vanish(total, dur);
    }
}

/// The released amount never decreases as time moves forward.
pub proof fn lemma_released_amount_monotonic_in_time(s: Schedule, total: int, t1: int, t2: int)
    requires
        0 <= total,
        t1 <= t2,
    ensures
        released_amount(s, total, t1) <= released_amount(s, total, t2),
{
    lemma_released_amount_bounds(s, total, t1);
    lemma_released_amount_bounds(s, total, t2);
    if t1 < s.start_time + s.cliff {
    } else if t1 >= s.start_time + s.duration {
    } else if t2 >= s.start_time + s.duration {
    } else {
        let d1: int = t1 - s.start_time;
        let d2: int = t2 - s.start_time;
        let dur: int = s.duration as int;
        lemma_mul_inequality(d1, d2, total);
        lemma_mul_is_commutative(total, d1);
        lemma_mul_is_commutative(total, d2);
        lemma_div_is_ordered(total * d1, total * d2, dur);
    }
}

/// Growing the total never shrinks the released amount.
pub proof fn lemma_released_amount_monotonic_in_total(s: Schedule, total1: int, total2: int, t: int)
    requires
        0 <= total1 <= total2,
    ensures
        released_amount(s, total1, t) <= released_amount(s, total2, t),
{
    if t < s.start_time + s.cliff {
    } else if t >= s.start_time + s.duration {
    } else {
        let d: int = t - s.start_time;
        let dur: int = s.duration as int;
        lemma_mul_inequality(total1, total2, d);
        lemma_div_is_ordered(total1 * d, total2 * d, dur);
    }
}

/// The cliff blocks all release: nothing is released strictly before
/// `start_time + cliff`, whatever the duration alone would imply.
pub proof fn lemma_released_amount_zero_before_cliff(s: Schedule, total: int, t: int)
    requires
        t < s.start_time + s.cliff,
    ensures
        released_amount(s, total, t) == 0,
{
}

/// A well-formed schedule has released the full amount at and after
/// `start_time + duration`.
pub proof fn lemma_released_amount_full_after_duration(s: Schedule, total: int, t: int)
    requires
        s.valid(),
        t >= s.start_time + s.duration,
    ensures
        released_amount(s, total, t) == total,
{
}

} // verus!
