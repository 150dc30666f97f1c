//! Traits for priceable and differentiable instruments.
//!
//! These abstractions are designed for static dispatch: pricing code
//! implements them on enum-based instrument types so that the whole call
//! graph stays visible to compiler-level automatic differentiation.

use vstd::prelude::*;

use crate::errors::PricingError;
use crate::scalar::Scalar;

verus! {

/// A financial instrument that can be priced.
///
/// Market data and model parameters are carried by the implementing
/// type's fields; the method is expected to be pure and deterministic.
pub trait Priceable<T: Scalar> {
    /// Calculate the fair value of the instrument, or a categorised
    /// pricing error.
    fn price(&self) -> Result<T, PricingError>;
}

/// Marker for types whose computations are smooth end to end: no
/// conditional branch on a differentiable quantity, with the smoothing
/// surrogates of this crate in place of hard discontinuities.
pub trait Differentiable {

}

} // verus!
