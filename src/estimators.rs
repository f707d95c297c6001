//! The assigned value: Algorithm A (robust consensus) and the validated
//! pass-through methods (certified reference material, formulation,
//! expert consensus).
use vstd::prelude::*;
use crate::error::CalculationError;
use crate::fixed::{
    abs, all_valid, div_toward_zero, div_trunc, floor_sqrt, is_valid_float, isqrt, validate_floats,
    valid_value,
    MAX_LEN, MAX_MAGNITUDE, SCALE,
};
use crate::robust::{
    abs_deviations, huber_psi, lemma_median_valid, lemma_median_within, mad, median, median_of,
    lemma_abs_deviations_permutation, lemma_median_permutation, lemma_sum_by_permutation, psi,
    sum_by,
};

verus! {

/// Fewest results Algorithm A accepts.
pub const MIN_PARTICIPANTS_ALGORITHM_A: usize = 5;

/// Huber's tuning constant 1.5, in fixed-point units.
pub const HUBER_C: i128 = 1_500_000_000;

/// Fixed-point units of a weight: a weight of one is `WEIGHT_ONE`.
pub const WEIGHT_ONE: i128 = 1_000_000;

/// Weight at or below which a result counts as excluded (0.1).
pub const WEIGHT_THRESHOLD: i128 = 100_000;

/// Consistency factor 1.4826 from MAD to standard deviation, as a ratio.
pub const MAD_TO_SIGMA_NUM: i128 = 14826;

/// Denominator of `MAD_TO_SIGMA_NUM`.
pub const MAD_TO_SIGMA_DEN: i128 = 10000;

/// Smallest robust standard deviation, one fixed-point unit.
pub const MIN_SCALE: i128 = 1;

/// Default convergence tolerance (1e-6).
pub const DEFAULT_TOLERANCE: i64 = 1000;

/// Default iteration budget.
pub const DEFAULT_MAX_ITERATIONS: usize = 100;

/// Outcome of Algorithm A.
#[derive(Debug, Clone, Copy)]
pub struct AlgorithmAResult {
    pub x_pt: i64,
    pub s_star: i64,
    pub participants_used: usize,
    pub iterations: usize,
}

/// What the iteration of Algorithm A comes to, on valid inputs.
pub enum AlgorithmAOutcome {
    /// Converged on pass `iterations` (counted from zero) at `(x, s)`.
    Converged { x: int, s: int, iterations: int },
    /// The iteration budget ran out first.
    Exhausted,
    /// The total weight was not positive.
    Degenerate,
}

/// Standardized residual `(v - x) / s`, in fixed-point units.
pub open spec fn residual(v: int, x: int, s: int) -> int {
    div_trunc((v - x) * SCALE, s)
}

/// Huber weight `psi(r) / r` of `v`, one when the residual is zero.
pub open spec fn weight(v: int, x: int, s: int) -> int {
    let r = residual(v, x, s);
    if r == 0 {
        WEIGHT_ONE as int
    } else {
        psi(abs(r), HUBER_C as int) * WEIGHT_ONE / abs(r)
    }
}

/// Total weight of the results.
pub open spec fn sum_weights(d: Seq<i64>, x: int, s: int) -> int {
    sum_by(d, |v: i64| weight(v as int, x, s))
}

/// Weighted sum of the results.
pub open spec fn sum_weighted_values(d: Seq<i64>, x: int, s: int) -> int {
    sum_by(d, |v: i64| weight(v as int, x, s) * v)
}

/// Weighted sum of squared deviations from `x`.
pub open spec fn sum_weighted_squares(d: Seq<i64>, x: int, s: int) -> int {
    sum_by(d, |v: i64| weight(v as int, x, s) * ((v - x) * (v - x)))
}

/// Number of results whose weight exceeds the exclusion threshold.
pub open spec fn count_used(d: Seq<i64>, x: int, s: int) -> int {
    sum_by(d, |v: i64| if weight(v as int, x, s) > WEIGHT_THRESHOLD { 1int } else { 0int })
}

/// Initial robust standard deviation: 1.4826 times the MAD about the
/// median, at least `MIN_SCALE`.
pub open spec fn initial_scale(d: Seq<i64>) -> int {
    let m = median_of(abs_deviations(d, median_of(d))) * (MAD_TO_SIGMA_NUM as int) / (
        MAD_TO_SIGMA_DEN as int);
    if m < MIN_SCALE {
        MIN_SCALE as int
    } else {
        m
    }
}

/// Reweighting passes from pass `k` on, starting at `(x, s)`.
pub open spec fn iterate(d: Seq<i64>, tol: int, max: int, x: int, s: int, k: int) -> AlgorithmAOutcome
    decreases max - k,
{
    if k >= max {
        AlgorithmAOutcome::Exhausted
    } else {
        let sw = sum_weights(d, x, s);
        if sw <= 0 {
            AlgorithmAOutcome::Degenerate
        } else {
            let x2 = div_trunc(sum_weighted_values(d, x, s), sw);
            let root = floor_sqrt(sum_weighted_squares(d, x, s) / sw);
            let s2 = if root < MIN_SCALE {
                MIN_SCALE as int
            } else {
                root
            };
            if abs(x2 - x) < tol && abs(s2 - s) < tol {
                AlgorithmAOutcome::Converged { x: x2, s: s2, iterations: k }
            } else {
                iterate(d, tol, max, x2, s2, k + 1)
            }
        }
    }
}

/// Algorithm A on valid inputs: iteration from the median and the scaled MAD.
pub open spec fn algorithm_a_outcome(d: Seq<i64>, tol: int, max: int) -> AlgorithmAOutcome {
    iterate(d, tol, max, median_of(d), initial_scale(d), 0)
}

/// `res` is the converged outcome of Algorithm A on `d`.
pub open spec fn is_algorithm_a_result(d: Seq<i64>, tol: int, max: int, res: AlgorithmAResult) -> bool {
    match algorithm_a_outcome(d, tol, max) {
        AlgorithmAOutcome::Converged { x, s, iterations } => res.x_pt == x && res.s_star == s
            && res.iterations == iterations && res.participants_used == count_used(d, x, s),
        _ => false,
    }
}

/// Algorithm A is deterministic: on the same inputs, any two results that
/// its contract admits are identical, field by field.
pub proof fn lemma_algorithm_a_deterministic(
    d: Seq<i64>,
    tol: int,
    max: int,
    a: AlgorithmAResult,
    b: AlgorithmAResult,
)
    requires
        is_algorithm_a_result(d, tol, max, a),
        is_algorithm_a_result(d, tol, max, b),
    ensures
        a.x_pt == b.x_pt,
        a.s_star == b.s_star,
        a.participants_used == b.participants_used,
        a.iterations == b.iterations,
{
}

/// The weighted sums, and so every pass, depend on the elements only.
proof fn lemma_iterate_permutation(
    a: Seq<i64>,
    b: Seq<i64>,
    tol: int,
    max: int,
    x: int,
    s: int,
    k: int,
)
    requires
        a.to_multiset() == b.to_multiset(),
    ensures
        iterate(a, tol, max, x, s, k) == iterate(b, tol, max, x, s, k),
    decreases max - k,
{
    if k < max {
        lemma_sum_by_permutation(a, b, |v: i64| weight(v as int, x, s));
        lemma_sum_by_permutation(a, b, |v: i64| weight(v as int, x, s) * v);
        lemma_sum_by_permutation(a, b, |v: i64| weight(v as int, x, s) * ((v - x) * (v - x)));
        let sw = sum_weights(a, x, s);
        if sw > 0 {
            let x2 = div_trunc(sum_weighted_values(a, x, s), sw);
            let root = floor_sqrt(sum_weighted_squares(a, x, s) / sw);
            let s2 = if root < MIN_SCALE {
                MIN_SCALE as int
            } else {
                root
            };
            lemma_iterate_permutation(a, b, tol, max, x2, s2, k + 1);
        }
    }
}

/// Algorithm A does not depend on the order of the results: two orderings
/// of the same results are accepted alike, come to the same outcome, and
/// count the same participants at every location and scale.
pub proof fn lemma_algorithm_a_order_independent(a: Seq<i64>, b: Seq<i64>, tol: int, max: int)
    requires
        a.to_multiset() == b.to_multiset(),
    ensures
        algorithm_a_inputs_ok(a, tol) == algorithm_a_inputs_ok(b, tol),
        algorithm_a_outcome(a, tol, max) == algorithm_a_outcome(b, tol, max),
        forall|x: int, s: int| #[trigger] count_used(a, x, s) == count_used(b, x, s),
{
    broadcast use vstd::seq_lib::group_to_multiset_ensures;

    vstd::seq_lib::to_multiset_len(a);
    vstd::seq_lib::to_multiset_len(b);
    assert(all_valid(a) ==> all_valid(b)) by {
        if all_valid(a) {
            assert forall|i: int| 0 <= i < b.len() implies valid_value(#[trigger] b[i] as int) by {
                assert(b.contains(b[i]));
                assert(a.to_multiset().count(b[i]) > 0);
                assert(a.contains(b[i]));
            }
        }
    }
    assert(all_valid(b) ==> all_valid(a)) by {
        if all_valid(b) {
            assert forall|i: int| 0 <= i < a.len() implies valid_value(#[trigger] a[i] as int) by {
                assert(a.contains(a[i]));
                assert(b.to_multiset().count(a[i]) > 0);
                assert(b.contains(a[i]));
            }
        }
    }
    lemma_median_permutation(a, b);
    lemma_abs_deviations_permutation(a, b, median_of(a));
    lemma_median_permutation(abs_deviations(a, median_of(a)), abs_deviations(b, median_of(b)));
    lemma_iterate_permutation(a, b, tol, max, median_of(a), initial_scale(a), 0);
    assert forall|x: int, s: int| #[trigger] count_used(a, x, s) == count_used(b, x, s) by {
        lemma_sum_by_permutation(
            a,
            b,
            |v: i64|
                if weight(v as int, x, s) > WEIGHT_THRESHOLD {
                    1int
                } else {
                    0int
                },
        );
    }
}

/// The inputs of Algorithm A that it accepts.
pub open spec fn algorithm_a_inputs_ok(d: Seq<i64>, tol: int) -> bool {
    d.len() >= MIN_PARTICIPANTS_ALGORITHM_A && all_valid(d) && 0 < tol && valid_value(tol)
}

/// Weights lie between zero and one.
proof fn lemma_weight_bounds(v: int, x: int, s: int)
    requires
        s >= 1,
    ensures
        0 <= weight(v, x, s) <= WEIGHT_ONE,
{
    let r = residual(v, x, s);
    if r != 0 {
        let a = abs(r);
        let p = psi(a, HUBER_C as int);
        assert(0 <= p <= a);
        assert(0 <= p * WEIGHT_ONE / a <= WEIGHT_ONE) by (nonlinear_arith)
            requires 0 <= p <= a, a > 0, WEIGHT_ONE > 0;
    }
}

/// Weight of one result, with the bounds the sums rely on.
fn weight_of(v: i64, x: i128, s: i128) -> (w: i128)
    requires
        valid_value(v as int),
        valid_value(x as int),
        1 <= s,
    ensures
        w == weight(v as int, x as int, s as int),
        0 <= w <= WEIGHT_ONE,
{
    proof {
        lemma_weight_bounds(v as int, x as int, s as int);
    }
    let d: i128 = v as i128 - x;
    assert(-200_000_000_000_000_000_000_000 <= d * SCALE <= 200_000_000_000_000_000_000_000)
        by (nonlinear_arith)
        requires -200_000_000_000_000 <= d <= 200_000_000_000_000;
    let r = div_toward_zero(d * (SCALE as i128), s);
    assert(-200_000_000_000_000_000_000_000 <= r <= 200_000_000_000_000_000_000_000) by {
        let n: int = d * SCALE;
        let q: int = s as int;
        if n >= 0 {
            assert(n / q <= n) by (nonlinear_arith)
                requires n >= 0, q >= 1;
        } else {
            assert((-n) / q <= -n) by (nonlinear_arith)
                requires n < 0, q >= 1;
        }
    }
    if r == 0 {
        WEIGHT_ONE
    } else {
        let a: i128 = if r < 0 { -r } else { r };
        let p = huber_psi(a, HUBER_C);
        assert(0 <= p <= HUBER_C);
        p * WEIGHT_ONE / a
    }
}

/// Largest absolute deviation between two valid quantities, squared.
spec fn max_square() -> int {
    40_000_000_000_000_000_000_000_000_000
}

/// Accumulates the three weighted sums of one reweighting pass.
fn weighted_sums(data: &[i64], x: i128, s: i128) -> (r: (i128, i128, i128))
    requires
        all_valid(data@),
        data@.len() <= MAX_LEN,
        valid_value(x as int),
        1 <= s,
    ensures
        r.0 == sum_weights(data@, x as int, s as int),
        r.1 == sum_weighted_values(data@, x as int, s as int),
        r.2 == sum_weighted_squares(data@, x as int, s as int),
        0 <= r.0 <= MAX_LEN * WEIGHT_ONE,
        -MAX_MAGNITUDE * r.0 <= r.1 <= MAX_MAGNITUDE * r.0,
        0 <= r.2 <= max_square() * r.0,
{
    let mut sw: i128 = 0;
    let mut swv: i128 = 0;
    let mut sws: i128 = 0;
    let mut i: usize = 0;
    while i < data.len()
        invariant
            i <= data@.len() <= MAX_LEN,
            all_valid(data@),
            valid_value(x as int),
            1 <= s,
            sw == sum_weights(data@.subrange(0, i as int), x as int, s as int),
            swv == sum_weighted_values(data@.subrange(0, i as int), x as int, s as int),
            sws == sum_weighted_squares(data@.subrange(0, i as int), x as int, s as int),
            0 <= sw <= i * WEIGHT_ONE,
            -MAX_MAGNITUDE * sw <= swv <= MAX_MAGNITUDE * sw,
            0 <= sws <= max_square() * sw,
        decreases data@.len() - i,
    {
        let v = data[i];
        assert(valid_value(data@[i as int] as int));
        let w = weight_of(v, x, s);
        let dv: i128 = v as i128 - x;
        proof {
            let a: int = sw as int;
            let b: int = swv as int;
            let q: int = sws as int;
            let c: int = w as int;
            let e: int = v as int;
            let g: int = dv as int;
            let k: int = MAX_MAGNITUDE as int;
            assert(0 <= g * g <= max_square()) by (nonlinear_arith)
                requires -2 * k <= g <= 2 * k, k == 100_000_000_000_000;
            assert(-100_000_000_000_000_000_000 <= c * e <= 100_000_000_000_000_000_000)
                by (nonlinear_arith)
                requires 0 <= c <= WEIGHT_ONE, -k <= e <= k, k == 100_000_000_000_000;
            assert(-k * (a + c) <= b + c * e <= k * (a + c)) by (nonlinear_arith)
                requires -k * a <= b <= k * a, 0 <= c, -k <= e <= k;
            assert(0 <= q + c * (g * g) <= max_square() * (a + c)) by (nonlinear_arith)
                requires 0 <= q <= max_square() * a, 0 <= c, 0 <= g * g <= max_square();
            assert(k * (a + c) <= 409_600_000_000_000_000_000_000) by (nonlinear_arith)
                requires
                    0 <= a <= i * WEIGHT_ONE,
                    0 <= c <= WEIGHT_ONE,
                    i + 1 <= MAX_LEN,
                    k == 100_000_000_000_000;
            assert(max_square() * (a + c) <= 163_840_000_000_000_000_000_000_000_000_000_000_000)
                by (nonlinear_arith)
                requires 0 <= a <= i * WEIGHT_ONE, 0 <= c <= WEIGHT_ONE, i + 1 <= MAX_LEN;
        }
        let dd: i128 = dv * dv;
        sw = sw + w;
        swv = swv + w * (v as i128);
        sws = sws + w * dd;
        proof {
            let pre = data@.subrange(0, i as int);
            let next = data@.subrange(0, i + 1);
            assert(next.drop_last() == pre);
            assert(next.last() == v);
        }
        i = i + 1;
    }
    assert(data@.subrange(0, data@.len() as int) == data@);
    assert(sw <= MAX_LEN * WEIGHT_ONE) by (nonlinear_arith)
        requires sw <= i * WEIGHT_ONE, i <= MAX_LEN;
    (sw, swv, sws)
}

/// Counts the results whose final weight exceeds the exclusion threshold.
fn count_participants_used(data: &[i64], x: i128, s: i128) -> (r: usize)
    requires
        all_valid(data@),
        valid_value(x as int),
        1 <= s,
    ensures
        r == count_used(data@, x as int, s as int),
        r <= data@.len(),
{
    let mut n: usize = 0;
    let mut i: usize = 0;
    while i < data.len()
        invariant
            i <= data@.len(),
            all_valid(data@),
            valid_value(x as int),
            1 <= s,
            n == count_used(data@.subrange(0, i as int), x as int, s as int),
            n <= i,
        decreases data@.len() - i,
    {
        assert(valid_value(data@[i as int] as int));
        let w = weight_of(data[i], x, s);
        if w > WEIGHT_THRESHOLD {
            n = n + 1;
        }
        proof {
            let next = data@.subrange(0, i + 1);
            assert(next.drop_last() == data@.subrange(0, i as int));
        }
        i = i + 1;
    }
    assert(data@.subrange(0, data@.len() as int) == data@);
    n
}

/// Algorithm A: iteratively reweighted robust estimation of the assigned
/// value `x_pt` and of the robust standard deviation `s_star`.
///
/// Fails with `InsufficientData` below five results, then with
/// `InvalidInput` for a result outside the representable range or a
/// tolerance that is not positive and representable; otherwise the result
/// is what `algorithm_a_outcome` says.
#[verifier::rlimit(50)]
pub fn calculate_algorithm_a(results: &[i64], tolerance: i64, max_iterations: usize) -> (r: Result<
    AlgorithmAResult,
    CalculationError,
>)
    requires
        results@.len() <= MAX_LEN,
    ensures
        results@.len() < MIN_PARTICIPANTS_ALGORITHM_A <==> r matches Err(
            CalculationError::InsufficientData { .. },
        ),
        r matches Err(CalculationError::InsufficientData { required, actual }) ==> required == 5
            && actual == results@.len(),
        r matches Err(CalculationError::InvalidInput { .. }) <==> results@.len()
            >= MIN_PARTICIPANTS_ALGORITHM_A && !algorithm_a_inputs_ok(results@, tolerance as int),
        algorithm_a_inputs_ok(results@, tolerance as int) ==> match algorithm_a_outcome(
            results@,
            tolerance as int,
            max_iterations as int,
        ) {
            AlgorithmAOutcome::Converged { .. } => r matches Ok(res) && is_algorithm_a_result(
                results@,
                tolerance as int,
                max_iterations as int,
                res,
            ),
            AlgorithmAOutcome::Exhausted => r matches Err(
                CalculationError::NonConvergence { max_iterations: m },
            ) && m == max_iterations,
            AlgorithmAOutcome::Degenerate => r matches Err(
                CalculationError::MathematicalError { .. },
            ),
        },
        r matches Ok(res) ==> res.s_star >= MIN_SCALE && res.participants_used <= results@.len()
            && res.iterations < max_iterations && valid_value(res.x_pt as int),
{
    if results.len() < MIN_PARTICIPANTS_ALGORITHM_A {
        return Err(
            CalculationError::InsufficientData {
                required: MIN_PARTICIPANTS_ALGORITHM_A,
                actual: results.len(),
            },
        );
    }
    validate_floats(results, "participant results")?;
    if tolerance <= 0 || !is_valid_float(tolerance) {
        return Err(
            CalculationError::InvalidInput {
                message: "tolerance must be positive and representable".to_string(),
            },
        );
    }
    let ghost d = results@;
    let med = match median(results) {
        Some(m) => m,
        None => {
            return Err(
                CalculationError::InternalError { message: "median of no results".to_string() },
            );
        },
    };
    proof {
        lemma_median_valid(d);
    }
    let spread = match mad(results, med) {
        Ok(m) => m,
        Err(e) => {
            return Err(e);
        },
    };
    proof {
        let devs = abs_deviations(d, med as int);
        assert forall|i: int| 0 <= i < devs.len() implies 0 <= #[trigger] devs[i] <= 2
            * MAX_MAGNITUDE by {
            assert(valid_value(d[i] as int));
        }
        lemma_median_within(devs, 0, 2 * MAX_MAGNITUDE as int);
    }
    let mut s: i128 = spread as i128 * MAD_TO_SIGMA_NUM / MAD_TO_SIGMA_DEN;
    if s < MIN_SCALE {
        s = MIN_SCALE;
    }
    assert(s <= 3 * MAX_MAGNITUDE);
    let mut x: i128 = med as i128;
    let mut iteration: usize = 0;
    assert(iterate(d, tolerance as int, max_iterations as int, x as int, s as int, 0)
        == algorithm_a_outcome(d, tolerance as int, max_iterations as int));
    loop
        invariant
            d == results@,
            algorithm_a_inputs_ok(d, tolerance as int),
            d.len() <= MAX_LEN,
            valid_value(x as int),
            MIN_SCALE <= s <= 3 * MAX_MAGNITUDE,
            iteration <= max_iterations,
            iterate(d, tolerance as int, max_iterations as int, x as int, s as int, iteration as int)
                == algorithm_a_outcome(d, tolerance as int, max_iterations as int),
        decreases max_iterations - iteration,
    {
        if iteration >= max_iterations {
            return Err(CalculationError::NonConvergence { max_iterations });
        }
        let (sw, swv, sws) = weighted_sums(results, x, s);
        if sw <= 0 {
            return Err(
                CalculationError::MathematicalError {
                    message: "sum of weights is zero or negative".to_string(),
                },
            );
        }
        assert(MAX_MAGNITUDE * sw <= MAX_MAGNITUDE * (MAX_LEN * WEIGHT_ONE)) by (nonlinear_arith)
            requires 0 <= sw <= MAX_LEN * WEIGHT_ONE;
        let x_new = div_toward_zero(swv, sw);
        assert(valid_value(x_new as int)) by {
            let m = MAX_MAGNITUDE as int;
            let a: int = swv as int;
            let b: int = sw as int;
            if a >= 0 {
                assert(a / b <= m) by (nonlinear_arith)
                    requires 0 <= a <= m * b, b > 0;
            } else {
                assert((-a) / b <= m) by (nonlinear_arith)
                    requires 0 <= -a <= m * b, b > 0;
            }
        }
        let q: i128 = sws / sw;
        assert(0 <= q <= max_square()) by {
            let a: int = sws as int;
            let b: int = sw as int;
            assert(0 <= a / b <= max_square()) by (nonlinear_arith)
                requires 0 <= a <= max_square() * b, b > 0;
        }
        let root_u = isqrt(q as u128);
        assert(root_u <= 2 * MAX_MAGNITUDE) by (nonlinear_arith)
            requires root_u * root_u <= q, q <= max_square(), root_u >= 0;
        let root = root_u as i128;
        let s_new: i128 = if root < MIN_SCALE {
            MIN_SCALE
        } else {
            root
        };
        let x_change: i128 = if x_new >= x {
            x_new - x
        } else {
            x - x_new
        };
        let s_change: i128 = if s_new >= s {
            s_new - s
        } else {
            s - s_new
        };
        if x_change < tolerance as i128 && s_change < tolerance as i128 {
            let used = count_participants_used(results, x_new, s_new);
            return Ok(
                AlgorithmAResult {
                    x_pt: x_new as i64,
                    s_star: s_new as i64,
                    participants_used: used,
                    iterations: iteration,
                },
            );
        }
        x = x_new;
        s = s_new;
        iteration = iteration + 1;
    }
}

/// Assigned value from a certified reference material's certified value.
pub fn calculate_from_crm(crm_value: i64) -> (r: Result<i64, CalculationError>)
    ensures
        valid_value(crm_value as int) <==> r == Ok::<i64, CalculationError>(crm_value),
        r is Err ==> r matches Err(CalculationError::InvalidInput { .. }),
{
    if !is_valid_float(crm_value) {
        return Err(
            CalculationError::InvalidInput { message: "invalid CRM value".to_string() },
        );
    }
    Ok(crm_value)
}

/// Assigned value from the known formulation of the test item.
pub fn calculate_from_formulation(formulation_value: i64) -> (r: Result<i64, CalculationError>)
    ensures
        valid_value(formulation_value as int) <==> r == Ok::<i64, CalculationError>(
            formulation_value,
        ),
        r is Err ==> r matches Err(CalculationError::InvalidInput { .. }),
{
    if !is_valid_float(formulation_value) {
        return Err(
            CalculationError::InvalidInput { message: "invalid formulation value".to_string() },
        );
    }
    Ok(formulation_value)
}

/// Assigned value from the consensus of expert laboratories.
pub fn calculate_from_expert_consensus(expert_value: i64) -> (r: Result<i64, CalculationError>)
    ensures
        valid_value(expert_value as int) <==> r == Ok::<i64, CalculationError>(expert_value),
        r is Err ==> r matches Err(CalculationError::InvalidInput { .. }),
{
    if !is_valid_float(expert_value) {
        return Err(
            CalculationError::InvalidInput {
                message: "invalid expert consensus value".to_string(),
            },
        );
    }
    Ok(expert_value)
}

} // verus!
