//! Integer arithmetic with Rust's meaning: wrapping `+ - *` (what a
//! release build computes), truncating `/ %`, and comparison through `f64`.
use vstd::prelude::*;

verus! {

/// `i64::checked_div`: truncating division; `None` on a zero divisor or overflow.
pub open spec fn spec_checked_div(x: int, d: int) -> Option<i64> {
    if d == 0 {
        None
    } else {
        let output = if x == 0 {
            0
        } else if x > 0 && d > 0 {
            x / d
        } else if x < 0 && d < 0 {
            ((x * -1) / (d * -1))
        } else if x < 0 {
            ((x * -1) / d) * -1
        } else {
            (x / (d * -1)) * -1
        };
        if output < i64::MIN || output > i64::MAX {
            None
        } else {
            Some(output as i64)
        }
    }
}

/// `i64::checked_rem`: remainder with the sign of the dividend; `None` on a
/// zero divisor or overflow.
pub open spec fn spec_checked_rem(x: int, d: int) -> Option<i64> {
    if d == 0 || (x == i64::MIN && d == -1) {
        None
    } else {
        let output = if x == 0 {
            0
        } else if x > 0 && d > 0 {
            x % d
        } else if x < 0 && d < 0 {
            ((x * -1) % (d * -1)) * -1
        } else if x < 0 {
            ((x * -1) % d) * -1
        } else {
            x % (d * -1)
        };
        if output < i64::MIN || output > i64::MAX {
            None
        } else {
            Some(output as i64)
        }
    }
}

/// Truncating division.
pub fn int_div(a: i64, b: i64) -> (r: Option<i64>)
    ensures
        r == spec_checked_div(a as int, b as int),
{
    a.checked_div(b)
}

/// Remainder with the sign of the dividend.
pub fn int_rem(a: i64, b: i64) -> (r: Option<i64>)
    ensures
        r == spec_checked_rem(a as int, b as int),
{
    a.checked_rem(b)
}

/// The largest magnitude below which every integer is a double exactly.
pub open spec fn exact_float_bound() -> int {
    9007199254740992
}

/// Whether both integers convert to doubles without rounding, so that
/// comparing them as doubles is comparing them as integers.
pub open spec fn both_exact(a: i64, b: i64) -> bool {
    -exact_float_bound() <= a <= exact_float_bound() && -exact_float_bound() <= b <= exact_float_bound()
}

/// Whether both integers convert to doubles exactly.
pub fn ints_exact_as_floats(a: i64, b: i64) -> (r: bool)
    ensures
        r == both_exact(a, b),
{
    -9007199254740992 <= a && a <= 9007199254740992 && -9007199254740992 <= b && b <= 9007199254740992
}

} // verus!
