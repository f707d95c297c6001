//! Robust statistics for interlaboratory proficiency testing: Algorithm A,
//! the assigned value and its uncertainty, and z / zeta performance scores.
//!
//! Quantities are exact fixed-point integers; see [`fixed`].
pub mod error;
pub mod estimators;
pub mod fixed;
pub mod robust;
pub mod scoring;
pub mod uncertainty;

pub use error::{validate_array_dimensions, CalculationError};
pub use estimators::{
    calculate_algorithm_a, calculate_from_crm, calculate_from_expert_consensus,
    calculate_from_formulation, AlgorithmAResult,
};
pub use fixed::{is_valid_float, validate_floats, MAX_LEN, MAX_MAGNITUDE, SCALE};
pub use robust::{huber_psi, mad, median};
pub use scoring::{
    calculate_z_prime_scores, calculate_z_prime_scores_no_participant_uncertainties,
    calculate_z_scores, interpret_z_prime_score, interpret_z_score, Performance,
};
pub use uncertainty::{
    calculate_uncertainty_consensus, calculate_uncertainty_crm, calculate_uncertainty_expert,
    calculate_uncertainty_expert_from_results, calculate_uncertainty_formulation,
};
