//! Standard uncertainty u(x_pt) of the assigned value, for each method of
//! obtaining it.
use vstd::prelude::*;
use crate::error::CalculationError;
use crate::fixed::{all_valid, is_valid_float, isqrt, valid_value, MAX_LEN, MAX_MAGNITUDE};

verus! {

/// Sum of the elements of `s`.
pub open spec fn sum_of(s: Seq<i64>) -> int
    decreases s.len(),
{
    if s.len() == 0 {
        0
    } else {
        sum_of(s.drop_last()) + s.last()
    }
}

/// Sum of the squares of the elements of `s`.
pub open spec fn sum_of_squares(s: Seq<i64>) -> int
    decreases s.len(),
{
    if s.len() == 0 {
        0
    } else {
        sum_of_squares(s.drop_last()) + s.last() * s.last()
    }
}

/// `sum (a * x_i - c)^2` over the elements `x_i` of `s`.
pub open spec fn sum_of_squared_offsets(s: Seq<i64>, a: int, c: int) -> int
    decreases s.len(),
{
    if s.len() == 0 {
        0
    } else {
        let d = a * s.last() - c;
        sum_of_squared_offsets(s.drop_last(), a, c) + d * d
    }
}

/// Squared deviations from the mean, scaled by `n^2`:
/// `sum (n * x_i - sum x)^2 == n^2 * sum (x_i - mean)^2`.
pub open spec fn scaled_squared_deviations(s: Seq<i64>) -> int {
    sum_of_squared_offsets(s, s.len() as int, sum_of(s))
}

/// Expanding the square: `sum (a x - c)^2 = a^2 sum x^2 - 2 a c sum x + n c^2`.
proof fn lemma_squared_offsets_expand(s: Seq<i64>, a: int, c: int)
    ensures
        sum_of_squared_offsets(s, a, c) == a * a * sum_of_squares(s) - 2 * a * c * sum_of(s) + s.len()
            * (c * c),
        sum_of_squared_offsets(s, a, c) >= 0,
    decreases s.len(),
{
    if s.len() > 0 {
        let t = s.drop_last();
        lemma_squared_offsets_expand(t, a, c);
        let x = s.last() as int;
        let q2 = sum_of_squares(t);
        let q1 = sum_of(t);
        let n = t.len() as int;
        assert((a * a * q2 - 2 * a * c * q1 + n * (c * c)) + (a * x - c) * (a * x - c) == a * a * (
        q2 + x * x) - 2 * a * c * (q1 + x) + (n + 1) * (c * c)) by (nonlinear_arith);
        assert((a * x - c) * (a * x - c) >= 0) by (nonlinear_arith);
    }
}

/// Uncertainty of a consensus value: `1.25 * s_star / sqrt(p)`, rounded down.
///
/// Fails with `InvalidInput` when `robust_std_dev` is negative or not
/// representable, then with `InsufficientData` when `num_participants` is zero.
pub fn calculate_uncertainty_consensus(robust_std_dev: i64, num_participants: usize) -> (r: Result<
    i64,
    CalculationError,
>)
    ensures
        r matches Err(CalculationError::InvalidInput { .. }) <==> !(valid_value(
            robust_std_dev as int,
        ) && robust_std_dev >= 0),
        r matches Err(CalculationError::InsufficientData { .. }) <==> valid_value(
            robust_std_dev as int,
        ) && robust_std_dev >= 0 && num_participants == 0,
        r matches Err(CalculationError::InsufficientData { required, actual }) ==> required == 1
            && actual == 0,
        r is Err ==> r matches Err(CalculationError::InvalidInput { .. }) || r matches Err(
            CalculationError::InsufficientData { .. },
        ),
        r matches Ok(u) ==> 0 <= u && 16 * num_participants * (u * u) <= 25 * (robust_std_dev
            * robust_std_dev) < 16 * num_participants * ((u + 1) * (u + 1)),
{
    if !is_valid_float(robust_std_dev) || robust_std_dev < 0 {
        return Err(
            CalculationError::InvalidInput {
                message: "invalid robust standard deviation".to_string(),
            },
        );
    }
    if num_participants == 0 {
        return Err(CalculationError::InsufficientData { required: 1, actual: 0 });
    }
    let s: u128 = robust_std_dev as u128;
    let p: u128 = num_participants as u128;
    assert(s * s <= 10_000_000_000_000_000_000_000_000_000) by (nonlinear_arith)
        requires s <= 100_000_000_000_000;
    assert(16 * p <= 16 * 18_446_744_073_709_551_615u128);
    let num: u128 = 25 * (s * s);
    let den: u128 = 16 * p;
    let q: u128 = num / den;
    let u = isqrt(q);
    proof {
        let n: int = num as int;
        let d: int = den as int;
        let qq: int = q as int;
        let uu: int = u as int;
        assert(uu * uu * d <= n) by (nonlinear_arith)
            requires uu * uu <= qq, qq == n / d, d > 0, n >= 0;
        assert(n < (uu + 1) * (uu + 1) * d) by (nonlinear_arith)
            requires qq < (uu + 1) * (uu + 1), qq == n / d, d > 0, n >= 0;
        assert(uu <= 1_000_000_000_000_000) by (nonlinear_arith)
            requires uu * uu * d <= n, n <= 250_000_000_000_000_000_000_000_000_000, d >= 16;
        let sd: int = robust_std_dev as int;
        let pp: int = num_participants as int;
        assert(16 * pp * (uu * uu) <= 25 * (sd * sd) < 16 * pp * ((uu + 1) * (uu + 1)))
            by (nonlinear_arith)
            requires uu * uu * d <= n, n < (uu + 1) * (uu + 1) * d, d == 16 * pp, n == 25 * (sd
                * sd);
    }
    Ok(u as i64)
}

/// Uncertainty stated on a certified reference material's certificate.
pub fn calculate_uncertainty_crm(crm_uncertainty: i64) -> (r: Result<i64, CalculationError>)
    ensures
        valid_value(crm_uncertainty as int) && crm_uncertainty >= 0 <==> r == Ok::<
            i64,
            CalculationError,
        >(crm_uncertainty),
        r is Err ==> r matches Err(CalculationError::InvalidInput { .. }),
{
    if !is_valid_float(crm_uncertainty) || crm_uncertainty < 0 {
        return Err(
            CalculationError::InvalidInput { message: "invalid CRM uncertainty".to_string() },
        );
    }
    Ok(crm_uncertainty)
}

/// Uncertainty estimated for a formulated test item.
pub fn calculate_uncertainty_formulation(formulation_uncertainty: i64) -> (r: Result<
    i64,
    CalculationError,
>)
    ensures
        valid_value(formulation_uncertainty as int) && formulation_uncertainty >= 0 <==> r
            == Ok::<i64, CalculationError>(formulation_uncertainty),
        r is Err ==> r matches Err(CalculationError::InvalidInput { .. }),
{
    if !is_valid_float(formulation_uncertainty) || formulation_uncertainty < 0 {
        return Err(
            CalculationError::InvalidInput {
                message: "invalid formulation uncertainty".to_string(),
            },
        );
    }
    Ok(formulation_uncertainty)
}

/// Uncertainty agreed by expert laboratories.
pub fn calculate_uncertainty_expert(expert_uncertainty: i64) -> (r: Result<i64, CalculationError>)
    ensures
        valid_value(expert_uncertainty as int) && expert_uncertainty >= 0 <==> r == Ok::<
            i64,
            CalculationError,
        >(expert_uncertainty),
        r is Err ==> r matches Err(CalculationError::InvalidInput { .. }),
{
    if !is_valid_float(expert_uncertainty) || expert_uncertainty < 0 {
        return Err(
            CalculationError::InvalidInput { message: "invalid expert uncertainty".to_string() },
        );
    }
    Ok(expert_uncertainty)
}

/// Standard error of the mean of expert results: the sample standard
/// deviation (divisor `n - 1`) over `sqrt(n)`, rounded down; zero for a
/// single result.
///
/// Fails with `InsufficientData` on no results, then with `InvalidInput`
/// when a result is not representable.
pub fn calculate_uncertainty_expert_from_results(expert_results: &[i64]) -> (r: Result<
    i64,
    CalculationError,
>)
    requires
        expert_results@.len() <= MAX_LEN,
    ensures
        r matches Err(CalculationError::InsufficientData { .. }) <==> expert_results@.len() == 0,
        r matches Err(CalculationError::InsufficientData { required, actual }) ==> required == 1
            && actual == 0,
        r matches Err(CalculationError::InvalidInput { .. }) <==> expert_results@.len() > 0
            && !all_valid(expert_results@),
        r is Err ==> r matches Err(CalculationError::InvalidInput { .. }) || r matches Err(
            CalculationError::InsufficientData { .. },
        ),
        r matches Ok(u) ==> expert_results@.len() == 1 ==> u == 0,
        r matches Ok(u) ==> expert_results@.len() >= 2 ==> ({
            let n = expert_results@.len() as int;
            let k = n * n * n * (n - 1);
            0 <= u && u * u * k <= scaled_squared_deviations(expert_results@) < (u + 1) * (u
                + 1) * k
        }),
{
    if expert_results.len() == 0 {
        return Err(CalculationError::InsufficientData { required: 1, actual: 0 });
    }
    let mut i: usize = 0;
    while i < expert_results.len()
        invariant
            i <= expert_results@.len(),
            forall|k: int| 0 <= k < i ==> valid_value(#[trigger] expert_results@[k] as int),
        decreases expert_results@.len() - i,
    {
        if !is_valid_float(expert_results[i]) {
            return Err(
                CalculationError::InvalidInput {
                    message: "invalid expert result".to_string(),
                },
            );
        }
        i = i + 1;
    }
    if expert_results.len() == 1 {
        return Ok(0);
    }
    let ghost d = expert_results@;
    let mut s1: i128 = 0;
    let mut s2: i128 = 0;
    let mut j: usize = 0;
    while j < expert_results.len()
        invariant
            j <= d.len() <= MAX_LEN,
            d == expert_results@,
            all_valid(d),
            s1 == sum_of(d.subrange(0, j as int)),
            s2 == sum_of_squares(d.subrange(0, j as int)),
            -j * MAX_MAGNITUDE <= s1 <= j * MAX_MAGNITUDE,
            0 <= s2 <= j * (MAX_MAGNITUDE * MAX_MAGNITUDE),
        decreases d.len() - j,
    {
        let x = expert_results[j];
        assert(valid_value(d[j as int] as int));
        let xx: i128 = x as i128;
        assert(0 <= xx * xx <= MAX_MAGNITUDE * MAX_MAGNITUDE) by (nonlinear_arith)
            requires -MAX_MAGNITUDE <= xx <= MAX_MAGNITUDE;
        assert(j * (MAX_MAGNITUDE * MAX_MAGNITUDE) + MAX_MAGNITUDE * MAX_MAGNITUDE <= MAX_LEN * (
        MAX_MAGNITUDE * MAX_MAGNITUDE)) by (nonlinear_arith)
            requires j + 1 <= MAX_LEN;
        assert(j * (MAX_MAGNITUDE * MAX_MAGNITUDE) + MAX_MAGNITUDE * MAX_MAGNITUDE == (j + 1) * (
        MAX_MAGNITUDE * MAX_MAGNITUDE)) by (nonlinear_arith);
        s1 = s1 + xx;
        s2 = s2 + xx * xx;
        proof {
            let next = d.subrange(0, j + 1);
            assert(next.drop_last() == d.subrange(0, j as int));
        }
        j = j + 1;
    }
    assert(d.subrange(0, d.len() as int) == d);
    let n: i128 = expert_results.len() as i128;
    proof {
        let nn: int = n as int;
        let a1: int = s1 as int;
        let a2: int = s2 as int;
        assert(0 <= nn * a2 <= 167_772_160_000_000_000_000_000_000_000_000_000) by (nonlinear_arith)
            requires
                0 <= a2 <= nn * 10_000_000_000_000_000_000_000_000_000,
                2 <= nn <= 4096;
        assert(0 <= a1 * a1 <= 167_772_160_000_000_000_000_000_000_000_000_000) by (nonlinear_arith)
            requires
                -nn * 100_000_000_000_000 <= a1 <= nn * 100_000_000_000_000,
                2 <= nn <= 4096;
        assert(0 <= nn * nn <= 16_777_216) by (nonlinear_arith)
            requires 2 <= nn <= 4096;
        assert(0 <= nn * nn * (nn - 1) <= 68_719_476_736) by (nonlinear_arith)
            requires 2 <= nn <= 4096;
    }
    let num: i128 = n * s2 - s1 * s1;
    let den: i128 = n * n * (n - 1);
    proof {
        lemma_squared_offsets_expand(d, n as int, s1 as int);
        assert(scaled_squared_deviations(d) == n * num) by (nonlinear_arith)
            requires scaled_squared_deviations(d) == n * n * s2 - 2 * n * s1 * s1 + n * (s1
                * s1), num == n * s2 - s1 * s1;
        assert(num >= 0) by (nonlinear_arith)
            requires n * num >= 0, n >= 2;
        assert(den >= 4) by (nonlinear_arith)
            requires n >= 2, den == n * n * (n - 1);
    }
    let q: i128 = num / den;
    let u = isqrt(q as u128);
    proof {
        let a: int = num as int;
        let b: int = den as int;
        let qq: int = q as int;
        let uu: int = u as int;
        let nn: int = n as int;
        assert(uu * uu * b <= a) by (nonlinear_arith)
            requires uu * uu <= qq, qq == a / b, b > 0, a >= 0;
        assert(a < (uu + 1) * (uu + 1) * b) by (nonlinear_arith)
            requires qq < (uu + 1) * (uu + 1), qq == a / b, b > 0, a >= 0;
        assert(uu * uu * (nn * nn * nn * (nn - 1)) <= nn * a) by (nonlinear_arith)
            requires uu * uu * b <= a, b == nn * nn * (nn - 1), nn >= 2;
        assert(nn * a < (uu + 1) * (uu + 1) * (nn * nn * nn * (nn - 1))) by (nonlinear_arith)
            requires a < (uu + 1) * (uu + 1) * b, b == nn * nn * (nn - 1), nn >= 2;
        assert(s1 * s1 >= 0) by (nonlinear_arith);
        assert(a <= nn * nn * (MAX_MAGNITUDE * MAX_MAGNITUDE)) by (nonlinear_arith)
            requires a <= nn * s2, s2 <= nn * (MAX_MAGNITUDE * MAX_MAGNITUDE), nn >= 2;
        assert(uu <= MAX_MAGNITUDE) by (nonlinear_arith)
            requires uu * uu * b <= a, a <= nn * nn * (MAX_MAGNITUDE * MAX_MAGNITUDE), b == nn
                * nn * (nn - 1), nn >= 2, uu >= 0;
    }
    Ok(u as i64)
}

} // verus!
