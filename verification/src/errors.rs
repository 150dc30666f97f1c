//! Structured error types for the numeric core.
//!
//! Every recoverable condition is returned to the immediate caller as a
//! specific, inspectable variant; nothing is logged or swallowed internally
//! and no retry happens anywhere in this crate. Each error type offers a
//! `message` method with an exact contract in place of a `Display`
//! implementation.

use vstd::prelude::*;
use vstd::string::StringExecFns;

verus! {

/// Errors raised by interpolator construction and queries.
///
/// Construction problems (mismatched lengths, too few points, non-monotonic
/// data) are detected eagerly when an interpolator is built, never at query
/// time; the only query-time failure is an out-of-bounds abscissa, which
/// carries the query and the valid domain.
#[derive(Debug, Clone, PartialEq, Eq)]
pub enum InterpolationError<T> {
    /// Invalid input data, with a description of the problem.
    InvalidInput(String),
    /// Fewer data points than the interpolator needs.
    InsufficientData { got: usize, need: usize },
    /// The ordinate sequence changes direction at the carried index.
    NonMonotonicData { index: usize },
    /// A query outside the valid domain, carrying the query and the bounds.
    OutOfBounds { x: T, min: T, max: T },
}

/// Categorised pricing errors.
#[derive(Debug, Clone, PartialEq, Eq)]
pub enum PricingError {
    /// Invalid input data or parameters.
    InvalidInput(String),
    /// Numerical instability during computation.
    NumericalInstability(String),
    /// Model failed to produce a valid result.
    ModelFailure(String),
    /// Instrument type not supported.
    UnsupportedInstrument(String),
}

/// The descriptive text of a [`PricingError`]: a fixed prefix naming the
/// category, followed by the carried detail.
pub open spec fn spec_pricing_message(e: PricingError) -> Seq<char> {
    match e {
        PricingError::InvalidInput(m) => "Invalid input: "@ + m@,
        PricingError::NumericalInstability(m) => "Numerical instability: "@ + m@,
        PricingError::ModelFailure(m) => "Model failure: "@ + m@,
        PricingError::UnsupportedInstrument(m) => "Unsupported instrument: "@ + m@,
    }
}

impl PricingError {
    /// Render the error as human-readable text.
    pub fn message(&self) -> (r: String)
        ensures
            r@ == spec_pricing_message(*self),
    {
        match self {
            PricingError::InvalidInput(m) => String::from_str("Invalid input: ").concat(
                m.as_str(),
            ),
            PricingError::NumericalInstability(m) => String::from_str(
                "Numerical instability: ",
            ).concat(m.as_str()),
            PricingError::ModelFailure(m) => String::from_str("Model failure: ").concat(
                m.as_str(),
            ),
            PricingError::UnsupportedInstrument(m) => String::from_str(
                "Unsupported instrument: ",
            ).concat(m.as_str()),
        }
    }
}

/// Errors raised by the optimisation, bootstrapping and calibration
/// components.
#[derive(Debug, Clone, PartialEq, Eq)]
pub enum OptimiserError<T> {
    /// The iteration budget ran out; carries the iteration count and the
    /// final objective or residual value.
    ConvergenceFailure { iterations: usize, residual: T },
    /// A pivot fell below the singularity threshold in the linear solver.
    SingularMatrix,
    /// Invalid parameter bounds or dimension mismatch.
    InvalidBounds(String),
    /// Numerical instability.
    NumericalInstability(String),
    /// Invalid market data.
    InvalidMarketData(String),
    /// Fewer data points than the algorithm needs.
    InsufficientData { required: usize, provided: usize },
}

} // verus!
