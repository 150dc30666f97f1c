//! A differentiable numerical-methods core for quantitative finance.
//!
//! The crate provides smooth, branch-free surrogates for discontinuous
//! primitives (max, min, abs, step), monotonicity-preserving and branch-free
//! curve interpolation, a dense linear solver, quasi-Newton (BFGS) and damped
//! Gauss-Newton (Levenberg-Marquardt) solvers, a curve bootstrapper and a
//! calibration engine, together with the market-data, calendar and
//! configuration value types that surround them.
//!
//! Every numeric algorithm is generic over [`scalar::Scalar`], an
//! ordered-field abstraction with transcendental functions, so that a plain
//! floating-point type or a dual/AD-enabled type can be substituted without
//! any change to control flow.

pub mod bootstrapping;
pub mod calibration;
pub mod config;
pub mod errors;
pub mod interpolators;
pub mod master;
pub mod priceable;
pub mod quotes;
pub mod runtime_config;
pub mod scalar;
pub mod smoothing;
pub mod solvers;
pub mod time;
