//! Integer arithmetic used by the rate and usage calculations: division that
//! rounds half away from zero, and saturation into the fixed-width fields of
//! the published records.
//!
//! All fractional quantities in this crate are fixed-point integers: a value
//! in hundredths stands for `value / 100` of the unit named by its field.

use vstd::prelude::*;

verus! {

/// `n / d`, rounded to the nearest integer with halves rounded up
/// (equivalently: away from zero, since all inputs here are non-negative).
pub open spec fn round_div(n: int, d: int) -> int
    recommends
        d > 0,
{
    if 2 * (n % d) >= d {
        n / d + 1
    } else {
        n / d
    }
}

/// Saturate an unbounded integer into a `u64` field.
pub open spec fn sat_u64(n: int) -> u64 {
    if n > u64::MAX {
        u64::MAX
    } else if n < 0 {
        0
    } else {
        n as u64
    }
}

/// Saturating difference: a reset counter yields zero, never an underflow.
pub open spec fn sat_sub(a: u64, b: u64) -> u64 {
    if a >= b {
        (a - b) as u64
    } else {
        0
    }
}

pub fn sub_sat(a: u64, b: u64) -> (r: u64)
    ensures
        r == sat_sub(a, b),
{
    if a >= b {
        a - b
    } else {
        0
    }
}

/// Rounding division on machine integers wide enough for every product this
/// crate forms; the result is saturated into a `u64` by the callers' specs.
pub fn round_div_u128(n: u128, d: u128) -> (r: u128)
    requires
        d > 0,
    ensures
        r == round_div(n as int, d as int),
{
    let q = n / d;
    let rem = n % d;
    if rem >= d - rem {
        assert(2 * (n as int % d as int) >= d as int);
        assert(q < u128::MAX) by {
            if d == 1 {
                assert(n as int % 1int == 0);
                assert(false);
            } else {
                assert(n as int / d as int <= n as int / 2) by (nonlinear_arith)
                    requires
                        d as int >= 2,
                        n >= 0,
                ;
            }
        };
        q + 1
    } else {
        assert(!(2 * (n as int % d as int) >= d as int));
        q
    }
}

/// Rounding division whose result is clamped into a `u64`.
pub fn round_div_sat64(n: u128, d: u128) -> (r: u64)
    requires
        d > 0,
    ensures
        r == sat_u64(round_div(n as int, d as int)),
{
    let q = round_div_u128(n, d);
    if q > u64::MAX as u128 {
        u64::MAX
    } else {
        q as u64
    }
}

} // verus!
