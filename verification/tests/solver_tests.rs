//! Tests for the linear solver, the iterative optimisers, the
//! bootstrapper and the calibration engine.

use pricer_core::bootstrapping::CurveBootstrapper;
use pricer_core::calibration::CalibrationEngine;
use pricer_core::errors::OptimiserError;
use pricer_core::scalar::Scalar;
use pricer_core::solvers::bfgs::{Bfgs, BfgsConfig};
use pricer_core::solvers::levenberg_marquardt::LevenbergMarquardt;
use pricer_core::solvers::linear::solve_linear_system;

/// A plain `f64` scalar for exercising the generic numerics.
#[derive(Clone, Copy, PartialEq, Debug)]
struct F64(f64);

impl Scalar for F64 {
    fn zero() -> Self {
        F64(0.0)
    }
    fn one() -> Self {
        F64(1.0)
    }
    fn add(self, rhs: Self) -> Self {
        F64(self.0 + rhs.0)
    }
    fn sub(self, rhs: Self) -> Self {
        F64(self.0 - rhs.0)
    }
    fn mul(self, rhs: Self) -> Self {
        F64(self.0 * rhs.0)
    }
    fn div(self, rhs: Self) -> Self {
        F64(self.0 / rhs.0)
    }
    fn neg(self) -> Self {
        F64(-self.0)
    }
    fn le(self, rhs: Self) -> bool {
        self.0 <= rhs.0
    }
    fn exp(self) -> Self {
        F64(self.0.exp())
    }
    fn ln(self) -> Self {
        F64(self.0.ln())
    }
    fn sqrt(self) -> Self {
        F64(self.0.sqrt())
    }
    fn eps() -> Self {
        F64(f64::EPSILON)
    }
    fn ratio(num: i64, den: u64) -> Self {
        F64(num as f64 / den as f64)
    }

    // The remaining trait members are the specification half of `Scalar`:
    // they exist only for the verifier, are erased from every execution,
    // and can never be reached at runtime.
    fn sp_zero() -> Self {
        unreachable!()
    }
    fn sp_one() -> Self {
        unreachable!()
    }
    fn sp_add(self, _rhs: Self) -> Self {
        unreachable!()
    }
    fn sp_mul(self, _rhs: Self) -> Self {
        unreachable!()
    }
    fn sp_div(self, _rhs: Self) -> Self {
        unreachable!()
    }
    fn sp_neg(self) -> Self {
        unreachable!()
    }
    fn sp_le(self, _rhs: Self) -> bool {
        unreachable!()
    }
    fn sp_exp(self) -> Self {
        unreachable!()
    }
    fn sp_ln(self) -> Self {
        unreachable!()
    }
    fn sp_sqrt(self) -> Self {
        unreachable!()
    }
    fn sp_eps() -> Self {
        unreachable!()
    }
    fn sp_ratio(_num: i64, _den: u64) -> Self {
        unreachable!()
    }
    fn law_le_refl(_x: Self) {}
    fn law_le_trans(_x: Self, _y: Self, _z: Self) {}
    fn law_le_antisym(_x: Self, _y: Self) {}
    fn law_le_total(_x: Self, _y: Self) {}
    fn law_add_comm(_x: Self, _y: Self) {}
    fn law_add_assoc(_x: Self, _y: Self, _z: Self) {}
    fn law_add_zero(_x: Self) {}
    fn law_add_neg(_x: Self) {}
    fn law_mul_comm(_x: Self, _y: Self) {}
    fn law_mul_assoc(_x: Self, _y: Self, _z: Self) {}
    fn law_mul_one(_x: Self) {}
    fn law_distrib(_x: Self, _y: Self, _z: Self) {}
    fn law_div_mul(_x: Self, _y: Self) {}
    fn law_mul_div(_x: Self, _y: Self) {}
    fn law_add_le(_x: Self, _y: Self, _z: Self) {}
    fn law_mul_le(_x: Self, _y: Self, _z: Self) {}
    fn law_zero_lt_one() {}
    fn law_exp_pos(_x: Self) {}
    fn law_exp_zero() {}
    fn law_exp_le(_x: Self, _y: Self) {}
    fn law_ln_le(_x: Self, _y: Self) {}
    fn law_ln_one() {}
    fn law_sqrt_sq(_x: Self) {}
    fn law_eps_pos() {}
    fn law_ratio_pos(_num: i64, _den: u64) {}
    fn law_ratio_le(_n1: i64, _d1: u64, _n2: i64, _d2: u64) {}
    fn law_ratio_one() {}
}

fn wrap(values: &[f64]) -> Vec<F64> {
    values.iter().map(|v| F64(*v)).collect()
}

#[test]
fn test_linear_system() {
    // Solve 2x + y = 5, x + 3y = 5 => x = 2, y = 1
    let a = vec![wrap(&[2.0, 1.0]), wrap(&[1.0, 3.0])];
    let b = wrap(&[5.0, 5.0]);
    let x = solve_linear_system(&a, &b).unwrap();
    assert!((x[0].0 - 2.0).abs() < 1e-10);
    assert!((x[1].0 - 1.0).abs() < 1e-10);
}

#[test]
fn test_linear_system_one_dimensional() {
    // in dimension one the contract pins the answer exactly: b / a
    let x = solve_linear_system(&[wrap(&[2.0])], &wrap(&[6.0])).unwrap();
    assert_eq!(x[0].0, 3.0);

    // and a lone coefficient below the threshold is singular
    match solve_linear_system(&[wrap(&[1e-13])], &wrap(&[1.0])) {
        Err(OptimiserError::SingularMatrix) => {}
        _ => panic!("Expected SingularMatrix error"),
    }
}

#[test]
fn test_linear_system_dimension_mismatch() {
    let a = vec![wrap(&[2.0, 1.0])];
    let b = wrap(&[5.0, 5.0]);
    match solve_linear_system(&a, &b) {
        Err(OptimiserError::InvalidBounds(_)) => {}
        _ => panic!("Expected InvalidBounds error"),
    }
}

#[test]
fn test_linear_system_singular() {
    let a = vec![wrap(&[1.0, 2.0]), wrap(&[2.0, 4.0])];
    let b = wrap(&[1.0, 2.0]);
    match solve_linear_system(&a, &b) {
        Err(OptimiserError::SingularMatrix) => {}
        _ => panic!("Expected SingularMatrix error"),
    }
}

#[test]
fn test_linear_system_random_round_trip() {
    // a reproducible congruential generator feeds a well-conditioned
    // (diagonally dominant) system; the solution must satisfy it to
    // within 1e-8
    let mut state: u64 = 0x2545F4914F6CDD1D;
    let mut next_unit = move || {
        state = state.wrapping_mul(6364136223846793005).wrapping_add(1442695040888963407);
        ((state >> 11) as f64) / ((1u64 << 53) as f64)
    };
    let n = 6;
    let mut a: Vec<Vec<F64>> = Vec::new();
    for i in 0..n {
        let mut row = Vec::new();
        for j in 0..n {
            let base = next_unit() - 0.5;
            let entry = if i == j { base + (n as f64) } else { base };
            row.push(F64(entry));
        }
        a.push(row);
    }
    let b: Vec<F64> = (0..n).map(|_| F64(next_unit() * 2.0 - 1.0)).collect();

    let x = solve_linear_system(&a, &b).unwrap();
    let mut err2 = 0.0_f64;
    for i in 0..n {
        let mut acc = 0.0_f64;
        for j in 0..n {
            acc += a[i][j].0 * x[j].0;
        }
        let diff = acc - b[i].0;
        err2 += diff * diff;
    }
    assert!(err2.sqrt() < 1e-8, "residual norm {}", err2.sqrt());
}

#[test]
fn test_quadratic() {
    let bfgs: Bfgs<F64> = Bfgs::new();

    // Minimise (x-2)^2 + (y-3)^2 starting from (0, 0)
    let objective =
        |p: &Vec<F64>| F64((p[0].0 - 2.0).powi(2) + (p[1].0 - 3.0).powi(2));

    let result = bfgs.minimise(&wrap(&[0.0, 0.0]), objective);
    assert!(result.is_ok());

    let result = result.unwrap();
    assert!((result.parameters[0].0 - 2.0).abs() < 0.01);
    assert!((result.parameters[1].0 - 3.0).abs() < 0.01);
}

#[test]
fn test_bfgs_exhaustion_reports_budget() {
    let config = BfgsConfig {
        max_iterations: 3,
        gradient_tolerance: F64(0.0),
        objective_tolerance: F64(0.0),
        fd_step: F64(1e-6),
        c1: F64(1e-4),
        max_line_search: 20,
    };
    let bfgs = Bfgs::with_config(config);
    let objective = |p: &Vec<F64>| F64((p[0].0 - 2.0).powi(2) + 1.0);

    match bfgs.minimise(&wrap(&[0.0]), objective) {
        Err(OptimiserError::ConvergenceFailure { iterations, residual }) => {
            assert_eq!(iterations, 3);
            assert!(residual.0.is_finite());
        }
        _ => panic!("Expected ConvergenceFailure"),
    }
}

#[test]
fn test_rosenbrock() {
    let lm: LevenbergMarquardt<F64> = LevenbergMarquardt::new();

    // Minimise (1-x)^2 + 100(y-x^2)^2 starting from (-1, 1); optimal at (1, 1)
    let residuals = |p: &Vec<F64>| {
        vec![
            F64(1.0 - p[0].0),
            F64(10.0 * (p[1].0 - p[0].0 * p[0].0)),
        ]
    };

    let result = lm.solve(&wrap(&[-1.0, 1.0]), residuals);
    assert!(result.is_ok());

    let result = result.unwrap();
    assert!((result.parameters[0].0 - 1.0).abs() < 0.1);
    assert!((result.parameters[1].0 - 1.0).abs() < 0.1);
}

#[test]
fn test_simple_bootstrap() {
    let bootstrapper: CurveBootstrapper<F64> = CurveBootstrapper::new();
    let pillars = wrap(&[0.5, 1.0, 2.0]);
    let swap_rates = wrap(&[0.02, 0.025, 0.03]);

    let result = bootstrapper.bootstrap(&pillars, &swap_rates);
    assert!(result.is_ok());

    let result = result.unwrap();
    assert_eq!(result.discount_factors.len(), 3);
    // Discount factors should be decreasing
    assert!(result.discount_factors[0].0 > result.discount_factors[1].0);
    assert!(result.discount_factors[1].0 > result.discount_factors[2].0);
}

#[test]
fn test_bootstrap_first_factor_exact() {
    let bootstrapper: CurveBootstrapper<F64> = CurveBootstrapper::new();
    let result = bootstrapper
        .bootstrap(&wrap(&[0.5, 1.0]), &wrap(&[0.02, 0.025]))
        .unwrap();
    // df_1 = 1 / (1 + 0.02 * 0.5) exactly
    let expected = 1.0 / (1.0 + 0.02 * 0.5);
    assert!((result.discount_factors[0].0 - expected).abs() < 1e-15);
}

#[test]
fn test_bootstrap_length_mismatch() {
    let bootstrapper: CurveBootstrapper<F64> = CurveBootstrapper::new();
    match bootstrapper.bootstrap(&wrap(&[0.5, 1.0]), &wrap(&[0.02])) {
        Err(OptimiserError::InvalidMarketData(_)) => {}
        _ => panic!("Expected InvalidMarketData error"),
    }
}

#[test]
fn test_bootstrap_empty_input() {
    let bootstrapper: CurveBootstrapper<F64> = CurveBootstrapper::new();
    match bootstrapper.bootstrap(&wrap(&[]), &wrap(&[])) {
        Err(OptimiserError::InsufficientData { required, provided }) => {
            assert_eq!(required, 1);
            assert_eq!(provided, 0);
        }
        _ => panic!("Expected InsufficientData error"),
    }
}

#[test]
fn test_simple_calibration() {
    let engine: CalibrationEngine<F64> = CalibrationEngine::new();

    // Simple test: calibrate a = 2 such that a * x = y
    let market_prices = wrap(&[2.0, 4.0, 6.0]); // y = 2x for x = 1, 2, 3
    let initial = wrap(&[1.0]); // Start with a = 1

    let pricer = |params: &Vec<F64>| {
        let a = params[0].0;
        vec![F64(a * 1.0), F64(a * 2.0), F64(a * 3.0)]
    };

    let result = engine.calibrate(&initial, &market_prices, pricer);
    assert!(result.is_ok());

    let result = result.unwrap();
    assert!((result.parameters[0].0 - 2.0).abs() < 0.1);
}

#[test]
fn test_calibration_empty_market_data() {
    let engine: CalibrationEngine<F64> = CalibrationEngine::new();
    let pricer = |_params: &Vec<F64>| Vec::<F64>::new();
    match engine.calibrate(&wrap(&[1.0]), &wrap(&[]), pricer) {
        Err(OptimiserError::InsufficientData { required, provided }) => {
            assert_eq!(required, 1);
            assert_eq!(provided, 0);
        }
        _ => panic!("Expected InsufficientData error"),
    }
}
