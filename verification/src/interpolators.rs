//! Interpolation methods for curve fitting.
//!
//! The framework is a capability contract ([`traits::Interpolator`]), a
//! monotonicity-preserving Hermite interpolator
//! ([`monotonic::MonotonicInterpolator`]) for discount and survival curves,
//! and a branch-free sigmoid-blended linear interpolator
//! ([`smooth_interp::smooth_interp`]) for automatic-differentiation
//! compatibility.

pub mod monotonic;
pub mod smooth_interp;
pub mod traits;
