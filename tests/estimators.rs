use pt_cli_rust::fixed::{MAX_MAGNITUDE, SCALE};
use pt_cli_rust::{
    calculate_algorithm_a, calculate_from_crm, calculate_from_expert_consensus,
    calculate_from_formulation, CalculationError,
};

fn fx(v: f64) -> i64 {
    (v * SCALE as f64).round() as i64
}

fn as_units(v: i64) -> f64 {
    v as f64 / SCALE as f64
}

fn fxs(values: &[f64]) -> Vec<i64> {
    values.iter().map(|&v| fx(v)).collect()
}

const TOLERANCE: i64 = 1000;

#[test]
fn test_algorithm_a_simple() {
    let data = fxs(&[1.0, 2.0, 3.0, 4.0, 5.0]);
    let result = calculate_algorithm_a(&data, TOLERANCE, 100).unwrap();
    assert!((as_units(result.x_pt) - 3.0).abs() <= 0.1);
    assert!(result.s_star > 0);
    assert_eq!(result.participants_used, 5);
}

#[test]
fn algorithm_a_symmetric_data_gives_the_mean() {
    let data = fxs(&[1.0, 2.0, 3.0, 4.0, 5.0]);
    let result = calculate_algorithm_a(&data, TOLERANCE, 100).unwrap();
    assert_eq!(result.x_pt, fx(3.0));
    assert_eq!(result.s_star, 1_414_213_562);
    assert_eq!(result.iterations, 1);
}

#[test]
fn test_algorithm_a_with_outliers() {
    let data = fxs(&[1.0, 2.0, 3.0, 4.0, 100.0]);
    let result = calculate_algorithm_a(&data, TOLERANCE, 100).unwrap();
    println!(
        "x_pt: {}, s_star: {}, participants_used: {}",
        as_units(result.x_pt),
        as_units(result.s_star),
        result.participants_used
    );
    assert!(as_units(result.x_pt) < 50.0);
    assert!(result.participants_used <= 5);
}

#[test]
fn algorithm_a_outlier_moves_less_than_the_mean() {
    let clean = calculate_algorithm_a(&fxs(&[1.0, 2.0, 3.0, 4.0, 5.0]), TOLERANCE, 100).unwrap();
    let dirty = calculate_algorithm_a(&fxs(&[1.0, 2.0, 3.0, 4.0, 100.0]), TOLERANCE, 100).unwrap();
    let robust_shift = as_units(dirty.x_pt) - as_units(clean.x_pt);
    let mean_shift = (110.0 - 15.0) / 5.0;
    assert!(robust_shift < mean_shift);
}

#[test]
fn algorithm_a_strong_outlier_is_excluded() {
    let data = fxs(&[1.0, 1.0, 1.0, 1.0, 1000.0]);
    let result = calculate_algorithm_a(&data, TOLERANCE, 100).unwrap();
    assert_eq!(result.x_pt, fx(1.0));
    assert_eq!(result.s_star, 1);
    assert_eq!(result.participants_used, 4);
}

#[test]
fn algorithm_a_identical_values_floor_the_scale() {
    let data = fxs(&[10.0, 10.0, 10.0, 10.0, 10.0]);
    let result = calculate_algorithm_a(&data, TOLERANCE, 100).unwrap();
    assert_eq!(result.x_pt, fx(10.0));
    assert_eq!(result.s_star, 1);
    assert_eq!(result.iterations, 0);
}

#[test]
fn test_algorithm_a_insufficient_data() {
    let data = fxs(&[1.0, 2.0]);
    let result = calculate_algorithm_a(&data, TOLERANCE, 100);
    assert!(result.is_err());
    assert!(matches!(result.unwrap_err(), CalculationError::InsufficientData { .. }));
}

#[test]
fn algorithm_a_four_values_report_required_and_actual() {
    let data = fxs(&[1.0, 2.0, 3.0, 4.0]);
    let result = calculate_algorithm_a(&data, TOLERANCE, 100);
    assert!(matches!(result, Err(CalculationError::InsufficientData { required: 5, actual: 4 })));
    let empty = calculate_algorithm_a(&[], TOLERANCE, 100);
    assert!(matches!(empty, Err(CalculationError::InsufficientData { required: 5, actual: 0 })));
}

#[test]
fn algorithm_a_rejects_unrepresentable_values_and_bad_tolerance() {
    let mut data = fxs(&[1.0, 2.0, 3.0, 4.0, 5.0]);
    assert!(matches!(
        calculate_algorithm_a(&data, 0, 100),
        Err(CalculationError::InvalidInput { .. })
    ));
    assert!(matches!(
        calculate_algorithm_a(&data, -5, 100),
        Err(CalculationError::InvalidInput { .. })
    ));
    data[2] = MAX_MAGNITUDE + 1;
    assert!(matches!(
        calculate_algorithm_a(&data, TOLERANCE, 100),
        Err(CalculationError::InvalidInput { .. })
    ));
}

#[test]
fn algorithm_a_budget_exhausted() {
    let data = fxs(&[1.0, 2.0, 3.0, 4.0, 5.0]);
    let result = calculate_algorithm_a(&data, TOLERANCE, 1);
    assert!(matches!(result, Err(CalculationError::NonConvergence { max_iterations: 1 })));
    let none = calculate_algorithm_a(&data, TOLERANCE, 0);
    assert!(matches!(none, Err(CalculationError::NonConvergence { max_iterations: 0 })));
}

#[test]
fn algorithm_a_is_deterministic() {
    let data = fxs(&[9.7, 10.4, 10.1, 9.9, 10.0, 13.2, 10.2]);
    let a = calculate_algorithm_a(&data, TOLERANCE, 100).unwrap();
    let b = calculate_algorithm_a(&data, TOLERANCE, 100).unwrap();
    assert_eq!(a.x_pt, b.x_pt);
    assert_eq!(a.s_star, b.s_star);
    assert_eq!(a.participants_used, b.participants_used);
    assert_eq!(a.iterations, b.iterations);
}

#[test]
fn test_crm_calculation() {
    let result = calculate_from_crm(fx(10.5)).unwrap();
    assert_eq!(result, fx(10.5));
    let invalid_result = calculate_from_crm(i64::MAX);
    assert!(invalid_result.is_err());
}

#[test]
fn test_formulation_calculation() {
    let result = calculate_from_formulation(fx(7.25)).unwrap();
    assert_eq!(result, fx(7.25));
    let invalid_result = calculate_from_formulation(i64::MAX);
    assert!(invalid_result.is_err());
}

#[test]
fn test_expert_consensus_calculation() {
    let result = calculate_from_expert_consensus(fx(15.8)).unwrap();
    assert_eq!(result, fx(15.8));
    let invalid_result = calculate_from_expert_consensus(i64::MIN);
    assert!(invalid_result.is_err());
}

#[test]
fn algorithm_a_ignores_the_order_of_results() {
    let a = fxs(&[9.7, 10.4, 10.1, 9.9, 10.0, 13.2, 10.2]);
    let b = fxs(&[13.2, 10.0, 9.7, 10.2, 10.4, 9.9, 10.1]);
    let ra = calculate_algorithm_a(&a, TOLERANCE, 100).unwrap();
    let rb = calculate_algorithm_a(&b, TOLERANCE, 100).unwrap();
    assert_eq!((ra.x_pt, ra.s_star, ra.participants_used, ra.iterations),
        (rb.x_pt, rb.s_star, rb.participants_used, rb.iterations));
}
