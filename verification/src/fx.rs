//! The fixed-point number scale shared by every signal-processing component.
//!
//! A signal value `v` stands for the real number `v / FX_SCALE`. Signals that
//! flow through an expression tree are kept in the closed interval
//! `[-FX_SCALE, FX_SCALE]`, i.e. `[-1, +1]` in real terms.

use vstd::prelude::*;

verus! {

/// One whole unit (`1.0`) of signal in the fixed-point scale.
pub const FX_SCALE: i64 = 1_000_000;

/// Fitness below this epsilon (one ten-thousandth) keeps an individual
/// off the roulette wheel.
pub const FITNESS_EPSILON: i64 = 100;

/// A population whose total fitness falls below this (one thousandth) is
/// degenerate and is reinitialized.
pub const MIN_TOTAL_FITNESS: i64 = 1_000;

/// The search stops once the best fitness exceeds this threshold (0.95).
pub const CONVERGENCE_THRESHOLD: i64 = 950_000;

/// Largest magnitude accepted for a dataset target return (one million
/// units): keeps every sum of absolute returns, times `FX_SCALE`, inside
/// `i128` no matter how many rows the dataset has.
pub const FX_MAX_ABS: i64 = 1_000_000_000_000;

/// Clamp a value into the unit signal interval `[-FX_SCALE, FX_SCALE]`.
pub open spec fn clamp_unit_spec(v: int) -> int {
    if v < -(FX_SCALE as int) {
        -(FX_SCALE as int)
    } else if v > FX_SCALE as int {
        FX_SCALE as int
    } else {
        v
    }
}

/// The sign of `v`, expressed as a whole signal unit: `+1`, `-1` or `0`.
pub open spec fn sign_unit_spec(v: int) -> int {
    if v > 0 {
        FX_SCALE as int
    } else if v < 0 {
        -(FX_SCALE as int)
    } else {
        0
    }
}

/// Halving with truncation toward zero, the fixed-point rendering of a
/// division by two.
pub open spec fn half_spec(v: int) -> int {
    if v >= 0 {
        v / 2
    } else {
        -((-v) / 2)
    }
}

pub fn clamp_unit(v: i64) -> (r: i64)
    ensures
        r == clamp_unit_spec(v as int),
        -(FX_SCALE as int) <= r <= FX_SCALE as int,
{
    if v < -FX_SCALE {
        -FX_SCALE
    } else if v > FX_SCALE {
        FX_SCALE
    } else {
        v
    }
}

/// The sign of a value as a whole signal unit.
pub fn sign_unit(v: i64) -> (r: i64)
    ensures
        r == sign_unit_spec(v as int),
{
    if v > 0 {
        FX_SCALE
    } else if v < 0 {
        -FX_SCALE
    } else {
        0
    }
}

pub fn half(v: i64) -> (r: i64)
    requires
        -(FX_SCALE as int) * 2 <= v <= (FX_SCALE as int) * 2,
    ensures
        r == half_spec(v as int),
{
    if v >= 0 {
        ((v as u64) / 2) as i64
    } else {
        -((((-v) as u64) / 2) as i64)
    }
}

} // verus!
