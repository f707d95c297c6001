//! Fixed-point representation of measured quantities.
//!
//! Every real quantity handled by the library (a participant result, an
//! assigned value, an uncertainty, a score) is an integer count of
//! billionths (`SCALE` units make one whole unit). All arithmetic is exact
//! integer arithmetic; divisions truncate toward zero and square roots round
//! down, and the contracts say so.
use vstd::prelude::*;
use crate::error::CalculationError;

verus! {

/// Number of fixed-point units in one whole unit.
pub const SCALE: i64 = 1_000_000_000;

/// Largest magnitude a representable quantity may have (one hundred thousand
/// whole units). Larger values are rejected as invalid input, as a
/// non-finite number would be.
pub const MAX_MAGNITUDE: i64 = 100_000_000_000_000;

/// Longest sequence of results the library accepts.
pub const MAX_LEN: usize = 4096;

/// A quantity is valid when it lies within the representable range.
pub open spec fn valid_value(v: int) -> bool {
    -MAX_MAGNITUDE <= v <= MAX_MAGNITUDE
}

/// Every element of `s` is a valid quantity.
pub open spec fn all_valid(s: Seq<i64>) -> bool {
    forall|i: int| 0 <= i < s.len() ==> valid_value(#[trigger] s[i] as int)
}

/// Absolute value over the integers.
pub open spec fn abs(v: int) -> int {
    if v < 0 { -v } else { v }
}

/// Integer division rounding toward zero, for a positive divisor.
pub open spec fn div_trunc(a: int, b: int) -> int
    recommends b > 0,
{
    if a >= 0 { a / b } else { -((-a) / b) }
}

/// `r` is the square root of `n`, rounded down.
pub open spec fn is_floor_sqrt(n: int, r: int) -> bool {
    0 <= r && r * r <= n < (r + 1) * (r + 1)
}

/// The square root of a non-negative integer, rounded down.
pub open spec fn floor_sqrt(n: int) -> int {
    choose|r: int| is_floor_sqrt(n, r)
}

/// At most one integer is the rounded-down square root of `n`.
pub proof fn lemma_floor_sqrt_unique(n: int, r: int, t: int)
    requires
        is_floor_sqrt(n, r),
        is_floor_sqrt(n, t),
    ensures
        r == t,
{
    if r < t {
        assert((r + 1) * (r + 1) <= t * t) by (nonlinear_arith)
            requires 0 <= r, r + 1 <= t;
    } else if t < r {
        assert((t + 1) * (t + 1) <= r * r) by (nonlinear_arith)
            requires 0 <= t, t + 1 <= r;
    }
}

/// A witness fixes `floor_sqrt`.
pub proof fn lemma_floor_sqrt_is(n: int, r: int)
    requires
        is_floor_sqrt(n, r),
    ensures
        floor_sqrt(n) == r,
{
    let t = floor_sqrt(n);
    lemma_floor_sqrt_unique(n, r, t);
}

/// Returns whether `v` is a valid quantity: one within the representable
/// range (the fixed-point counterpart of a finite number).
pub fn is_valid_float(v: i64) -> (r: bool)
    ensures
        r == valid_value(v as int),
{
    -MAX_MAGNITUDE <= v && v <= MAX_MAGNITUDE
}

/// Integer division rounding toward zero.
pub fn div_toward_zero(a: i128, b: i128) -> (r: i128)
    requires
        b > 0,
        a > i128::MIN,
    ensures
        r == div_trunc(a as int, b as int),
{
    if a >= 0 {
        a / b
    } else {
        -((-a) / b)
    }
}

/// Square root of `n`, rounded down.
pub fn isqrt(n: u128) -> (r: u128)
    ensures
        is_floor_sqrt(n as int, r as int),
        floor_sqrt(n as int) == r as int,
{
    let mut lo: u128 = 0;
    let mut hi: u128 = 0x1_0000_0000_0000_0000;
    while hi - lo > 1
        invariant
            lo < hi <= 0x1_0000_0000_0000_0000u128,
            lo * lo <= n,
            n < hi * hi,
        decreases hi - lo,
    {
        let mid: u128 = lo + (hi - lo) / 2;
        assert(mid * mid <= u128::MAX) by (nonlinear_arith)
            requires mid < 0x1_0000_0000_0000_0000u128;
        if mid * mid <= n {
            lo = mid;
        } else {
            hi = mid;
        }
    }
    assert(hi == lo + 1);
    proof {
        lemma_floor_sqrt_is(n as int, lo as int);
    }
    lo
}

/// Fails with `InvalidInput` on the first value outside the representable
/// range.
pub fn validate_floats(data: &[i64], name: &str) -> (r: Result<(), CalculationError>)
    ensures
        r is Ok <==> all_valid(data@),
        r is Err ==> r matches Err(CalculationError::InvalidInput { .. }),
{
    let mut i: usize = 0;
    while i < data.len()
        invariant
            i <= data@.len(),
            forall|k: int| 0 <= k < i ==> valid_value(#[trigger] data@[k] as int),
        decreases data@.len() - i,
    {
        if !is_valid_float(data[i]) {
            return Err(
                CalculationError::InvalidInput {
                    message: "a value lies outside the representable range".to_string(),
                },
            );
        }
        i = i + 1;
    }
    Ok(())
}

} // verus!
