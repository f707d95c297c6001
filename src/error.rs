//! Failures reported by the calculations.
use vstd::prelude::*;

verus! {

/// Why a calculation could not produce a result.
#[derive(Debug)]
pub enum CalculationError {
    /// Algorithm A did not converge within its iteration budget.
    NonConvergence { max_iterations: usize },
    /// A value is outside the representable range or violates a domain constraint.
    InvalidInput { message: String },
    /// A denominator that must be positive is not.
    DivisionByZero,
    /// Not enough data points for the requested method.
    InsufficientData { required: usize, actual: usize },
    /// Two sequences that must correspond element for element differ in length.
    DimensionMismatch { expected: usize, actual: usize },
    /// An internal numerical invariant, such as a positive total weight, was violated.
    MathematicalError { message: String },
    /// A precondition that the other checks should guarantee was violated.
    InternalError { message: String },
}

/// Fails with `DimensionMismatch` unless the two lengths agree.
pub fn validate_array_dimensions(arr1_len: usize, arr2_len: usize, name1: &str, name2: &str) -> (r:
    Result<(), CalculationError>)
    ensures
        arr1_len == arr2_len <==> r is Ok,
        r matches Err(CalculationError::DimensionMismatch { expected, actual }) ==> expected
            == arr1_len && actual == arr2_len,
        r is Err ==> r matches Err(CalculationError::DimensionMismatch { .. }),
{
    if arr1_len != arr2_len {
        return Err(CalculationError::DimensionMismatch { expected: arr1_len, actual: arr2_len });
    }
    Ok(())
}

} // verus!
