use pt_cli_rust::fixed::SCALE;
use pt_cli_rust::{
    calculate_uncertainty_consensus, calculate_uncertainty_crm, calculate_uncertainty_expert,
    calculate_uncertainty_expert_from_results, calculate_uncertainty_formulation,
    CalculationError,
};

fn fx(v: f64) -> i64 {
    (v * SCALE as f64).round() as i64
}

fn as_units(v: i64) -> f64 {
    v as f64 / SCALE as f64
}

#[test]
fn test_uncertainty_consensus() {
    let result = calculate_uncertainty_consensus(fx(1.0), 25).unwrap();
    assert!((as_units(result) - 0.25).abs() <= 1e-10);
}

#[test]
fn uncertainty_consensus_exact_and_rounded_down() {
    assert_eq!(calculate_uncertainty_consensus(fx(1.0), 25).unwrap(), fx(0.25));
    assert_eq!(calculate_uncertainty_consensus(fx(1.0), 2).unwrap(), 883_883_476);
    assert_eq!(calculate_uncertainty_consensus(0, 7).unwrap(), 0);
}

#[test]
fn test_uncertainty_consensus_invalid_inputs() {
    assert!(calculate_uncertainty_consensus(i64::MAX, 10).is_err());
    assert!(calculate_uncertainty_consensus(fx(-1.0), 10).is_err());
    assert!(calculate_uncertainty_consensus(fx(1.0), 0).is_err());
}

#[test]
fn uncertainty_consensus_error_kinds() {
    assert!(matches!(
        calculate_uncertainty_consensus(fx(-1.0), 10),
        Err(CalculationError::InvalidInput { .. })
    ));
    assert!(matches!(
        calculate_uncertainty_consensus(fx(1.0), 0),
        Err(CalculationError::InsufficientData { required: 1, actual: 0 })
    ));
}

#[test]
fn test_uncertainty_crm() {
    let result = calculate_uncertainty_crm(fx(0.15)).unwrap();
    assert_eq!(result, fx(0.15));
    assert!(calculate_uncertainty_crm(i64::MAX).is_err());
    assert!(calculate_uncertainty_crm(fx(-0.1)).is_err());
}

#[test]
fn test_uncertainty_formulation() {
    let result = calculate_uncertainty_formulation(fx(0.08)).unwrap();
    assert_eq!(result, fx(0.08));
    assert!(calculate_uncertainty_formulation(i64::MAX).is_err());
    assert!(calculate_uncertainty_formulation(fx(-0.05)).is_err());
}

#[test]
fn test_uncertainty_expert() {
    let result = calculate_uncertainty_expert(fx(0.12)).unwrap();
    assert_eq!(result, fx(0.12));
    assert!(calculate_uncertainty_expert(i64::MIN).is_err());
    assert!(calculate_uncertainty_expert(fx(-0.01)).is_err());
}

#[test]
fn test_uncertainty_expert_from_results() {
    let expert_results: Vec<i64> = [10.0, 10.2, 9.8, 10.1, 9.9].iter().map(|&v| fx(v)).collect();
    let result = calculate_uncertainty_expert_from_results(&expert_results).unwrap();
    assert!(result > 0);
    assert!(as_units(result) < 1.0);
}

#[test]
fn uncertainty_expert_from_results_exact() {
    let expert_results: Vec<i64> = [10.0, 10.2, 9.8, 10.1, 9.9].iter().map(|&v| fx(v)).collect();
    assert_eq!(calculate_uncertainty_expert_from_results(&expert_results).unwrap(), 70_710_678);
    assert_eq!(calculate_uncertainty_expert_from_results(&[fx(1.0), fx(3.0)]).unwrap(), fx(1.0));
}

#[test]
fn test_uncertainty_expert_from_results_single() {
    let result = calculate_uncertainty_expert_from_results(&[fx(10.0)]).unwrap();
    assert_eq!(result, 0);
}

#[test]
fn test_uncertainty_expert_from_results_empty() {
    let result = calculate_uncertainty_expert_from_results(&[]);
    assert!(result.is_err());
    assert!(matches!(result.unwrap_err(), CalculationError::InsufficientData { .. }));
}

#[test]
fn test_uncertainty_expert_from_results_invalid() {
    let expert_results = vec![fx(10.0), i64::MAX, fx(9.8)];
    let result = calculate_uncertainty_expert_from_results(&expert_results);
    assert!(result.is_err());
    assert!(matches!(result.unwrap_err(), CalculationError::InvalidInput { .. }));
}
