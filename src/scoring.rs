//! Participant performance scores: z-scores, zeta-scores (z') and their
//! interpretation.
use vstd::prelude::*;
use crate::error::{validate_array_dimensions, CalculationError};
use crate::fixed::validate_floats;
use crate::fixed::{
    abs, all_valid, div_toward_zero, div_trunc, floor_sqrt, is_valid_float, isqrt, valid_value,
    SCALE,
};

verus! {

/// Performance category of a score.
#[derive(Debug, Clone, Copy, PartialEq, Eq, Structural)]
pub enum Performance {
    Satisfactory,
    Questionable,
    Unsatisfactory,
}

impl Performance {
    /// The category's name.
    pub fn as_str(&self) -> (r: &'static str)
        ensures
            *self == Performance::Satisfactory ==> r@ == "Satisfactory"@,
            *self == Performance::Questionable ==> r@ == "Questionable"@,
            *self == Performance::Unsatisfactory ==> r@ == "Unsatisfactory"@,
    {
        match self {
            Performance::Satisfactory => "Satisfactory",
            Performance::Questionable => "Questionable",
            Performance::Unsatisfactory => "Unsatisfactory",
        }
    }
}

/// `(x - x_pt) / d`, in fixed-point units, rounded toward zero.
pub open spec fn standardized(x: int, x_pt: int, d: int) -> int {
    div_trunc((x - x_pt) * SCALE, d)
}

/// Combined standard uncertainty `sqrt(u^2 + u_x_pt^2)`, rounded down.
pub open spec fn combined_uncertainty(u: int, u_x_pt: int) -> int {
    floor_sqrt(u * u + u_x_pt * u_x_pt)
}

/// Category of a z-score: within 2 satisfactory, within 3 questionable.
pub open spec fn z_category(z: int) -> Performance {
    if abs(z) <= 2 * SCALE {
        Performance::Satisfactory
    } else if abs(z) <= 3 * SCALE {
        Performance::Questionable
    } else {
        Performance::Unsatisfactory
    }
}

/// Category of a zeta-score: within 2 satisfactory, else unsatisfactory.
pub open spec fn z_prime_category(z: int) -> Performance {
    if abs(z) <= 2 * SCALE {
        Performance::Satisfactory
    } else {
        Performance::Unsatisfactory
    }
}

/// Every element of `s` is non-negative.
pub open spec fn all_non_negative(s: Seq<i64>) -> bool {
    forall|i: int| 0 <= i < s.len() ==> 0 <= #[trigger] s[i]
}

/// `(x - x_pt) * SCALE / d` for valid `x` and `x_pt` and a positive `d`.
fn standardize(x: i64, x_pt: i64, d: i128) -> (r: i128)
    requires
        valid_value(x as int),
        valid_value(x_pt as int),
        d >= 1,
    ensures
        r == standardized(x as int, x_pt as int, d as int),
{
    let diff: i128 = x as i128 - x_pt as i128;
    assert(-200_000_000_000_000_000_000_000 <= diff * SCALE <= 200_000_000_000_000_000_000_000)
        by (nonlinear_arith)
        requires -200_000_000_000_000 <= diff <= 200_000_000_000_000;
    div_toward_zero(diff * (SCALE as i128), d)
}

/// Divides the deviation of each result from `x_pt` by the positive `d`.
fn standardize_all(results: &[i64], x_pt: i64, d: i128) -> (r: Vec<i128>)
    requires
        all_valid(results@),
        valid_value(x_pt as int),
        d >= 1,
    ensures
        r@.len() == results@.len(),
        forall|i: int|
            0 <= i < r@.len() ==> #[trigger] r@[i] == standardized(
                results@[i] as int,
                x_pt as int,
                d as int,
            ),
{
    let mut out: Vec<i128> = Vec::new();
    let mut i: usize = 0;
    while i < results.len()
        invariant
            i <= results@.len(),
            all_valid(results@),
            valid_value(x_pt as int),
            d >= 1,
            out@.len() == i,
            forall|k: int|
                0 <= k < i ==> #[trigger] out@[k] == standardized(
                    results@[k] as int,
                    x_pt as int,
                    d as int,
                ),
        decreases results@.len() - i,
    {
        assert(valid_value(results@[i as int] as int));
        let z = standardize(results[i], x_pt, d);
        out.push(z);
        i = i + 1;
    }
    out
}

/// z-scores `(x_i - x_pt) / sigma_pt`.
///
/// Fails with `InvalidInput` when a result or `x_pt` is not representable,
/// or `sigma_pt` is not positive and representable.
pub fn calculate_z_scores(results: &[i64], x_pt: i64, sigma_pt: i64) -> (r: Result<
    Vec<i128>,
    CalculationError,
>)
    ensures
        r is Ok <==> all_valid(results@) && valid_value(x_pt as int) && valid_value(
            sigma_pt as int,
        ) && sigma_pt > 0,
        r is Err ==> r matches Err(CalculationError::InvalidInput { .. }),
        r matches Ok(z) ==> z@.len() == results@.len() && forall|i: int|
            0 <= i < z@.len() ==> #[trigger] z@[i] == standardized(
                results@[i] as int,
                x_pt as int,
                sigma_pt as int,
            ),
{
    validate_floats(results, "participant results")?;
    if !is_valid_float(x_pt) {
        return Err(
            CalculationError::InvalidInput { message: "invalid assigned value x_pt".to_string() },
        );
    }
    if !is_valid_float(sigma_pt) || sigma_pt <= 0 {
        return Err(
            CalculationError::InvalidInput {
                message: "invalid or non-positive sigma_pt".to_string(),
            },
        );
    }
    Ok(standardize_all(results, x_pt, sigma_pt as i128))
}

/// Zeta-scores `(x_i - x_pt) / sqrt(u_i^2 + u_x_pt^2)`.
///
/// Fails with `DimensionMismatch` when the two sequences differ in length;
/// then with `InvalidInput` when a value is not representable or an
/// uncertainty is negative; then with `DivisionByZero` when some `u_i` and
/// `u_x_pt` are both zero.
pub fn calculate_z_prime_scores(results: &[i64], u_results: &[i64], x_pt: i64, u_x_pt: i64) -> (r:
    Result<Vec<i128>, CalculationError>)
    ensures
        results@.len() != u_results@.len() <==> r matches Err(
            CalculationError::DimensionMismatch { .. },
        ),
        r matches Err(CalculationError::DimensionMismatch { expected, actual }) ==> expected
            == results@.len() && actual == u_results@.len(),
        results@.len() == u_results@.len() ==> (r matches Err(CalculationError::InvalidInput { .. })
            <==> !(all_valid(results@) && all_valid(u_results@) && valid_value(x_pt as int)
            && valid_value(u_x_pt as int) && u_x_pt >= 0 && all_non_negative(u_results@))),
        r matches Err(CalculationError::DivisionByZero) <==> results@.len() == u_results@.len()
            && all_valid(results@) && all_valid(u_results@) && valid_value(x_pt as int)
            && valid_value(u_x_pt as int) && u_x_pt == 0 && all_non_negative(u_results@)
            && exists|i: int| 0 <= i < u_results@.len() && #[trigger] u_results@[i] == 0,
        r is Err ==> r matches Err(CalculationError::DimensionMismatch { .. }) || r matches Err(
            CalculationError::InvalidInput { .. },
        ) || r matches Err(CalculationError::DivisionByZero),
        r matches Ok(z) ==> z@.len() == results@.len() && forall|i: int|
            0 <= i < z@.len() ==> #[trigger] z@[i] == standardized(
                results@[i] as int,
                x_pt as int,
                combined_uncertainty(u_results@[i] as int, u_x_pt as int),
            ),
{
    validate_array_dimensions(results.len(), u_results.len(), "results", "uncertainties")?;
    validate_floats(results, "participant results")?;
    validate_floats(u_results, "participant uncertainties")?;
    if !is_valid_float(x_pt) {
        return Err(
            CalculationError::InvalidInput { message: "invalid assigned value x_pt".to_string() },
        );
    }
    if !is_valid_float(u_x_pt) || u_x_pt < 0 {
        return Err(
            CalculationError::InvalidInput { message: "invalid or negative u(x_pt)".to_string() },
        );
    }
    let mut k: usize = 0;
    while k < u_results.len()
        invariant
            k <= u_results@.len(),
            results@.len() == u_results@.len(),
            all_valid(results@),
            all_valid(u_results@),
            valid_value(x_pt as int),
            valid_value(u_x_pt as int),
            u_x_pt >= 0,
            forall|j: int| 0 <= j < k ==> 0 <= #[trigger] u_results@[j],
        decreases u_results@.len() - k,
    {
        if u_results[k] < 0 {
            return Err(
                CalculationError::InvalidInput {
                    message: "negative participant uncertainty".to_string(),
                },
            );
        }
        k = k + 1;
    }
    let mut out: Vec<i128> = Vec::new();
    let mut i: usize = 0;
    while i < results.len()
        invariant
            i <= results@.len(),
            results@.len() == u_results@.len(),
            all_valid(results@),
            all_valid(u_results@),
            all_non_negative(u_results@),
            valid_value(x_pt as int),
            valid_value(u_x_pt as int),
            u_x_pt >= 0,
            out@.len() == i,
            u_x_pt == 0 ==> forall|j: int| 0 <= j < i ==> #[trigger] u_results@[j] != 0,
            forall|j: int|
                0 <= j < i ==> #[trigger] out@[j] == standardized(
                    results@[j] as int,
                    x_pt as int,
                    combined_uncertainty(u_results@[j] as int, u_x_pt as int),
                ),
        decreases results@.len() - i,
    {
        let u = u_results[i];
        assert(valid_value(u_results@[i as int] as int));
        assert(valid_value(results@[i as int] as int));
        let uu: i128 = u as i128;
        let ux: i128 = u_x_pt as i128;
        assert(0 <= uu * uu <= 10_000_000_000_000_000_000_000_000_000) by (nonlinear_arith)
            requires 0 <= uu <= 100_000_000_000_000;
        assert(0 <= ux * ux <= 10_000_000_000_000_000_000_000_000_000) by (nonlinear_arith)
            requires 0 <= ux <= 100_000_000_000_000;
        let combined_sq: i128 = uu * uu + ux * ux;
        if combined_sq <= 0 {
            assert(uu == 0 && ux == 0) by (nonlinear_arith)
                requires uu * uu + ux * ux <= 0, uu >= 0, ux >= 0;
            return Err(CalculationError::DivisionByZero);
        }
        let root = isqrt(combined_sq as u128);
        assert(root >= 1) by (nonlinear_arith)
            requires combined_sq >= 1, combined_sq < (root + 1) * (root + 1), root >= 0;
        assert(root <= combined_sq) by (nonlinear_arith)
            requires root * root <= combined_sq, root >= 1;
        let z = standardize(results[i], x_pt, root as i128);
        out.push(z);
        proof {
            if u_x_pt == 0 {
                assert(u != 0) by (nonlinear_arith)
                    requires uu * uu + ux * ux > 0, ux == 0, uu == u;
            }
        }
        i = i + 1;
    }
    Ok(out)
}

/// Zeta-scores `(x_i - x_pt) / u_x_pt` for participants without stated
/// uncertainties.
///
/// Fails with `InvalidInput` when a result or `x_pt` is not representable,
/// or `u_x_pt` is not positive and representable.
pub fn calculate_z_prime_scores_no_participant_uncertainties(
    results: &[i64],
    x_pt: i64,
    u_x_pt: i64,
) -> (r: Result<Vec<i128>, CalculationError>)
    ensures
        r is Ok <==> all_valid(results@) && valid_value(x_pt as int) && valid_value(u_x_pt as int)
            && u_x_pt > 0,
        r is Err ==> r matches Err(CalculationError::InvalidInput { .. }),
        r matches Ok(z) ==> z@.len() == results@.len() && forall|i: int|
            0 <= i < z@.len() ==> #[trigger] z@[i] == standardized(
                results@[i] as int,
                x_pt as int,
                u_x_pt as int,
            ),
{
    validate_floats(results, "participant results")?;
    if !is_valid_float(x_pt) {
        return Err(
            CalculationError::InvalidInput { message: "invalid assigned value x_pt".to_string() },
        );
    }
    if !is_valid_float(u_x_pt) || u_x_pt <= 0 {
        return Err(
            CalculationError::InvalidInput {
                message: "invalid or non-positive u(x_pt)".to_string(),
            },
        );
    }
    Ok(standardize_all(results, x_pt, u_x_pt as i128))
}

/// Performance category of a z-score.
pub fn interpret_z_score(z_score: i128) -> (r: Performance)
    ensures
        r == z_category(z_score as int),
{
    let two: i128 = 2 * SCALE as i128;
    let three: i128 = 3 * SCALE as i128;
    if -two <= z_score && z_score <= two {
        Performance::Satisfactory
    } else if -three <= z_score && z_score <= three {
        Performance::Questionable
    } else {
        Performance::Unsatisfactory
    }
}

/// Performance category of a zeta-score.
pub fn interpret_z_prime_score(z_prime_score: i128) -> (r: Performance)
    ensures
        r == z_prime_category(z_prime_score as int),
{
    let two: i128 = 2 * SCALE as i128;
    if -two <= z_prime_score && z_prime_score <= two {
        Performance::Satisfactory
    } else {
        Performance::Unsatisfactory
    }
}

} // verus!
