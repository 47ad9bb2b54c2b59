//! The smoothed frame-duration estimator: a first-order exponential moving
//! average with a one-twentieth weight on the newest sample, kept in whole
//! microseconds and rounded toward zero at each step.

use vstd::prelude::*;
use vstd::arithmetic::div_mod::{
    lemma_div_is_ordered, lemma_div_multiples_vanish, lemma_fundamental_div_mod,
};

verus! {

/// One smoothing step: the old average keeps a weight of 95/100, the new
/// sample gets 5/100, and the quotient is rounded down.
pub open spec fn ema_step(s: nat, d: nat) -> nat {
    (s * 95 + d * 5) / 100
}

/// The smoothing step never leaves the range spanned by its inputs, so the
/// average of `u64` durations stays a `u64`.
pub proof fn lemma_ema_step_bounded(s: nat, d: nat, bound: nat)
    requires
        s <= bound,
        d <= bound,
    ensures
        ema_step(s, d) <= bound,
{
    assert(s * 95 + d * 5 <= bound * 95 + bound * 5);
    lemma_div_is_ordered((s * 95 + d * 5) as int, (bound * 100) as int, 100);
    lemma_div_multiples_vanish(bound as int, 100);
    assert(bound * 100 == 100 * bound);
}

/// Advances the smoothed frame duration by one sample, in microseconds.
pub fn ema_update(smoothed: u64, sample: u64) -> (r: u64)
    ensures
        r as nat == ema_step(smoothed as nat, sample as nat),
{
    let wide: u128 = (smoothed as u128) * 95 + (sample as u128) * 5;
    let next: u128 = wide / 100;
    proof {
        lemma_ema_step_bounded(smoothed as nat, sample as nat, u64::MAX as nat);
    }
    next as u64
}

/// Law: after a single frame of duration `d`, starting from a smoothed value
/// of zero, the average is exactly one twentieth of `d` — the 5% weight of
/// the newest sample — whenever `d` is a multiple of 20 (for other `d` the
/// integer average is rounded down, e.g. `d = 1` smooths to 0).
pub proof fn lemma_ema_first_frame(d: nat)
    requires
        d % 20 == 0,
    ensures
        ema_step(0, d) == d / 20,
        ema_step(0, d) * 20 == d,
{
    let k = d / 20;
    lemma_fundamental_div_mod(d as int, 20);
    assert(d == 20 * k);
    assert(0 * 95 + d * 5 == 100 * k) by (nonlinear_arith)
        requires d == 20 * k;
    lemma_div_multiples_vanish(k as int, 100);
    lemma_div_multiples_vanish(k as int, 20);
    assert(20 * k == k * 20);
}

/// Law: after two frames of durations `d1` then `d2`, starting from zero, the
/// average is exactly `(95/100)*(5/100)*d1 + (5/100)*d2`, written over the
/// common denominator 400 — whenever `d1` is a multiple of 400 and `d2` a
/// multiple of 20, so that every division is exact.
pub proof fn lemma_ema_two_frames(d1: nat, d2: nat)
    requires
        d1 % 400 == 0,
        d2 % 20 == 0,
    ensures
        ema_step(ema_step(0, d1), d2) == 19 * (d1 / 400) + d2 / 20,
{
    let a = d1 / 400;
    let b = d2 / 20;
    lemma_fundamental_div_mod(d1 as int, 400);
    lemma_fundamental_div_mod(d2 as int, 20);
    assert(d1 == 400 * a);
    assert(d2 == 20 * b);
    assert(d1 % 20 == 0) by (nonlinear_arith)
        requires d1 == 400 * a;
    lemma_ema_first_frame(d1);
    assert(ema_step(0, d1) == d1 / 20);
    assert(d1 / 20 == 20 * a) by {
        assert(d1 == 20 * (20 * a)) by (nonlinear_arith)
            requires d1 == 400 * a;
        lemma_div_multiples_vanish((20 * a) as int, 20);
    }
    assert((20 * a) * 95 + d2 * 5 == 100 * (19 * a + b)) by (nonlinear_arith)
        requires d2 == 20 * b;
    lemma_div_multiples_vanish((19 * a + b) as int, 100);
}

} // verus!
