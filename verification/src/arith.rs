//! Saturating arithmetic on stake amounts and cell indices, specified over
//! the integers.

use vstd::prelude::*;

verus! {

/// `v` brought into the range of `i128`.
pub open spec fn clamp_i128(v: int) -> i128 {
    if v > i128::MAX {
        i128::MAX
    } else if v < i128::MIN {
        i128::MIN
    } else {
        v as i128
    }
}

/// `v` brought into the range of `u32`; `v` is not negative.
pub open spec fn clamp_u32(v: int) -> u32 {
    if v > u32::MAX {
        u32::MAX
    } else {
        v as u32
    }
}

/// `a + b`, or the nearest bound where the sum does not fit.
pub fn sat_add_i128(a: i128, b: i128) -> (sum: i128)
    ensures
        sum == clamp_i128(a + b),
{
    match a.checked_add(b) {
        Some(v) => v,
        None => if a > 0 {
            i128::MAX
        } else {
            i128::MIN
        },
    }
}

/// `a - b`, or the nearest bound where the difference does not fit.
pub fn sat_sub_i128(a: i128, b: i128) -> (difference: i128)
    ensures
        difference == clamp_i128(a - b),
{
    match a.checked_sub(b) {
        Some(v) => v,
        None => if b < 0 {
            i128::MAX
        } else {
            i128::MIN
        },
    }
}

/// `a * b`, or the largest `u32` where the product does not fit.
pub fn sat_mul_u32(a: u32, b: u32) -> (product: u32)
    ensures
        product == clamp_u32(a * b),
{
    match a.checked_mul(b) {
        Some(v) => v,
        None => u32::MAX,
    }
}

} // verus!
