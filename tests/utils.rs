use pt_cli_rust::fixed::validate_floats;
use pt_cli_rust::fixed::{isqrt, SCALE};
use pt_cli_rust::robust::sorted_copy;
use pt_cli_rust::{huber_psi, mad, median, validate_array_dimensions, CalculationError};

fn fx(v: f64) -> i64 {
    (v * SCALE as f64).round() as i64
}

#[test]
fn test_median_odd_length() {
    let data = vec![fx(1.0), fx(3.0), fx(2.0)];
    assert_eq!(median(&data), Some(fx(2.0)));
}

#[test]
fn test_median_even_length() {
    let data = vec![fx(1.0), fx(2.0), fx(3.0), fx(4.0)];
    assert_eq!(median(&data), Some(fx(2.5)));
}

#[test]
fn test_median_empty() {
    let data: Vec<i64> = vec![];
    assert_eq!(median(&data), None);
}

#[test]
fn median_leaves_input_unchanged() {
    let data = vec![5, -3, 9, 0];
    assert_eq!(median(&data), Some(2));
    assert_eq!(data, vec![5, -3, 9, 0]);
}

#[test]
fn median_even_length_rounds_down() {
    assert_eq!(median(&[1, 2]), Some(1));
    assert_eq!(median(&[-2, -1]), Some(-2));
}

#[test]
fn sorted_copy_orders_with_duplicates() {
    assert_eq!(sorted_copy(&[3, 1, 2, 1]), vec![1, 1, 2, 3]);
}

#[test]
fn test_mad_calculation() {
    let data = vec![fx(1.0), fx(2.0), fx(3.0), fx(4.0), fx(5.0)];
    let median_val = fx(3.0);
    let mad_val = mad(&data, median_val).unwrap();
    assert_eq!(mad_val, fx(1.0));
}

#[test]
fn mad_of_nothing_is_insufficient_data() {
    let r = mad(&[], 0);
    assert!(matches!(r, Err(CalculationError::InsufficientData { required: 1, actual: 0 })));
}

#[test]
fn test_huber_psi() {
    let c = fx(1.5) as i128;
    assert_eq!(huber_psi(fx(1.0) as i128, c), fx(1.0) as i128);
    assert_eq!(huber_psi(fx(-1.0) as i128, c), fx(-1.0) as i128);
    assert_eq!(huber_psi(fx(2.0) as i128, c), fx(1.5) as i128);
    assert_eq!(huber_psi(fx(-2.0) as i128, c), fx(-1.5) as i128);
}

#[test]
fn huber_psi_at_the_tuning_constant() {
    let c = fx(1.5) as i128;
    assert_eq!(huber_psi(c, c), c);
    assert_eq!(huber_psi(-c, c), -c);
}

#[test]
fn test_validate_floats() {
    assert!(validate_floats(&[fx(1.0), fx(2.0), fx(3.0)], "test").is_ok());
    assert!(validate_floats(&[fx(1.0), i64::MAX, fx(3.0)], "test").is_err());
    assert!(validate_floats(&[fx(1.0), i64::MIN, fx(3.0)], "test").is_err());
}

#[test]
fn test_array_dimension_validation() {
    assert!(validate_array_dimensions(3, 3, "arr1", "arr2").is_ok());
    assert!(validate_array_dimensions(3, 4, "arr1", "arr2").is_err());
}

#[test]
fn dimension_mismatch_reports_both_lengths() {
    let r = validate_array_dimensions(3, 4, "arr1", "arr2");
    assert!(matches!(r, Err(CalculationError::DimensionMismatch { expected: 3, actual: 4 })));
}

#[test]
fn isqrt_rounds_down() {
    assert_eq!(isqrt(0), 0);
    assert_eq!(isqrt(15), 3);
    assert_eq!(isqrt(16), 4);
    assert_eq!(isqrt(u128::MAX), u64::MAX as u128);
}
