//! Tests for the monotonic and branch-free interpolators.

use pricer_core::errors::InterpolationError;
use pricer_core::interpolators::monotonic::MonotonicInterpolator;
use pricer_core::interpolators::smooth_interp::smooth_interp;
use pricer_core::interpolators::traits::Interpolator;
use pricer_core::scalar::Scalar;

/// A plain `f64` scalar for exercising the generic numerics.
#[derive(Clone, Copy, PartialEq, Debug)]
struct F64(f64);

impl Scalar for F64 {
    fn zero() -> Self {
        F64(0.0)
    }
    fn one() -> Self {
        F64(1.0)
    }
    fn add(self, rhs: Self) -> Self {
        F64(self.0 + rhs.0)
    }
    fn sub(self, rhs: Self) -> Self {
        F64(self.0 - rhs.0)
    }
    fn mul(self, rhs: Self) -> Self {
        F64(self.0 * rhs.0)
    }
    fn div(self, rhs: Self) -> Self {
        F64(self.0 / rhs.0)
    }
    fn neg(self) -> Self {
        F64(-self.0)
    }
    fn le(self, rhs: Self) -> bool {
        self.0 <= rhs.0
    }
    fn exp(self) -> Self {
        F64(self.0.exp())
    }
    fn ln(self) -> Self {
        F64(self.0.ln())
    }
    fn sqrt(self) -> Self {
        F64(self.0.sqrt())
    }
    fn eps() -> Self {
        F64(f64::EPSILON)
    }
    fn ratio(num: i64, den: u64) -> Self {
        F64(num as f64 / den as f64)
    }

    // The remaining trait members are the specification half of `Scalar`:
    // they exist only for the verifier, are erased from every execution,
    // and can never be reached at runtime.
    fn sp_zero() -> Self {
        unreachable!()
    }
    fn sp_one() -> Self {
        unreachable!()
    }
    fn sp_add(self, _rhs: Self) -> Self {
        unreachable!()
    }
    fn sp_mul(self, _rhs: Self) -> Self {
        unreachable!()
    }
    fn sp_div(self, _rhs: Self) -> Self {
        unreachable!()
    }
    fn sp_neg(self) -> Self {
        unreachable!()
    }
    fn sp_le(self, _rhs: Self) -> bool {
        unreachable!()
    }
    fn sp_exp(self) -> Self {
        unreachable!()
    }
    fn sp_ln(self) -> Self {
        unreachable!()
    }
    fn sp_sqrt(self) -> Self {
        unreachable!()
    }
    fn sp_eps() -> Self {
        unreachable!()
    }
    fn sp_ratio(_num: i64, _den: u64) -> Self {
        unreachable!()
    }
    fn law_le_refl(_x: Self) {}
    fn law_le_trans(_x: Self, _y: Self, _z: Self) {}
    fn law_le_antisym(_x: Self, _y: Self) {}
    fn law_le_total(_x: Self, _y: Self) {}
    fn law_add_comm(_x: Self, _y: Self) {}
    fn law_add_assoc(_x: Self, _y: Self, _z: Self) {}
    fn law_add_zero(_x: Self) {}
    fn law_add_neg(_x: Self) {}
    fn law_mul_comm(_x: Self, _y: Self) {}
    fn law_mul_assoc(_x: Self, _y: Self, _z: Self) {}
    fn law_mul_one(_x: Self) {}
    fn law_distrib(_x: Self, _y: Self, _z: Self) {}
    fn law_div_mul(_x: Self, _y: Self) {}
    fn law_mul_div(_x: Self, _y: Self) {}
    fn law_add_le(_x: Self, _y: Self, _z: Self) {}
    fn law_mul_le(_x: Self, _y: Self, _z: Self) {}
    fn law_zero_lt_one() {}
    fn law_exp_pos(_x: Self) {}
    fn law_exp_zero() {}
    fn law_exp_le(_x: Self, _y: Self) {}
    fn law_ln_le(_x: Self, _y: Self) {}
    fn law_ln_one() {}
    fn law_sqrt_sq(_x: Self) {}
    fn law_eps_pos() {}
    fn law_ratio_pos(_num: i64, _den: u64) {}
    fn law_ratio_le(_n1: i64, _d1: u64, _n2: i64, _d2: u64) {}
    fn law_ratio_one() {}
}

/// A plain `f32` scalar for checking that a narrower float works too.
#[derive(Clone, Copy, PartialEq, Debug)]
struct F32(f32);

impl Scalar for F32 {
    fn zero() -> Self {
        F32(0.0)
    }
    fn one() -> Self {
        F32(1.0)
    }
    fn add(self, rhs: Self) -> Self {
        F32(self.0 + rhs.0)
    }
    fn sub(self, rhs: Self) -> Self {
        F32(self.0 - rhs.0)
    }
    fn mul(self, rhs: Self) -> Self {
        F32(self.0 * rhs.0)
    }
    fn div(self, rhs: Self) -> Self {
        F32(self.0 / rhs.0)
    }
    fn neg(self) -> Self {
        F32(-self.0)
    }
    fn le(self, rhs: Self) -> bool {
        self.0 <= rhs.0
    }
    fn exp(self) -> Self {
        F32(self.0.exp())
    }
    fn ln(self) -> Self {
        F32(self.0.ln())
    }
    fn sqrt(self) -> Self {
        F32(self.0.sqrt())
    }
    fn eps() -> Self {
        F32(f32::EPSILON)
    }
    fn ratio(num: i64, den: u64) -> Self {
        F32(num as f32 / den as f32)
    }

    // The remaining trait members are the specification half of `Scalar`:
    // they exist only for the verifier, are erased from every execution,
    // and can never be reached at runtime.
    fn sp_zero() -> Self {
        unreachable!()
    }
    fn sp_one() -> Self {
        unreachable!()
    }
    fn sp_add(self, _rhs: Self) -> Self {
        unreachable!()
    }
    fn sp_mul(self, _rhs: Self) -> Self {
        unreachable!()
    }
    fn sp_div(self, _rhs: Self) -> Self {
        unreachable!()
    }
    fn sp_neg(self) -> Self {
        unreachable!()
    }
    fn sp_le(self, _rhs: Self) -> bool {
        unreachable!()
    }
    fn sp_exp(self) -> Self {
        unreachable!()
    }
    fn sp_ln(self) -> Self {
        unreachable!()
    }
    fn sp_sqrt(self) -> Self {
        unreachable!()
    }
    fn sp_eps() -> Self {
        unreachable!()
    }
    fn sp_ratio(_num: i64, _den: u64) -> Self {
        unreachable!()
    }
    fn law_le_refl(_x: Self) {}
    fn law_le_trans(_x: Self, _y: Self, _z: Self) {}
    fn law_le_antisym(_x: Self, _y: Self) {}
    fn law_le_total(_x: Self, _y: Self) {}
    fn law_add_comm(_x: Self, _y: Self) {}
    fn law_add_assoc(_x: Self, _y: Self, _z: Self) {}
    fn law_add_zero(_x: Self) {}
    fn law_add_neg(_x: Self) {}
    fn law_mul_comm(_x: Self, _y: Self) {}
    fn law_mul_assoc(_x: Self, _y: Self, _z: Self) {}
    fn law_mul_one(_x: Self) {}
    fn law_distrib(_x: Self, _y: Self, _z: Self) {}
    fn law_div_mul(_x: Self, _y: Self) {}
    fn law_mul_div(_x: Self, _y: Self) {}
    fn law_add_le(_x: Self, _y: Self, _z: Self) {}
    fn law_mul_le(_x: Self, _y: Self, _z: Self) {}
    fn law_zero_lt_one() {}
    fn law_exp_pos(_x: Self) {}
    fn law_exp_zero() {}
    fn law_exp_le(_x: Self, _y: Self) {}
    fn law_ln_le(_x: Self, _y: Self) {}
    fn law_ln_one() {}
    fn law_sqrt_sq(_x: Self) {}
    fn law_eps_pos() {}
    fn law_ratio_pos(_num: i64, _den: u64) {}
    fn law_ratio_le(_n1: i64, _d1: u64, _n2: i64, _d2: u64) {}
    fn law_ratio_one() {}
}

fn wrap(values: &[f64]) -> Vec<F64> {
    values.iter().map(|v| F64(*v)).collect()
}

#[test]
fn test_new_with_minimum_points() {
    let xs = wrap(&[0.0, 1.0]);
    let ys = wrap(&[0.0, 1.0]);
    let result = MonotonicInterpolator::new(&xs, &ys);
    assert!(result.is_ok());

    let interp = result.unwrap();
    assert_eq!(interp.len(), 2);
}

#[test]
fn test_new_with_multiple_points() {
    let xs = wrap(&[0.0, 1.0, 2.0, 3.0, 4.0]);
    let ys = wrap(&[0.0, 1.0, 2.0, 3.0, 4.0]);
    let result = MonotonicInterpolator::new(&xs, &ys);
    assert!(result.is_ok());

    let interp = result.unwrap();
    assert_eq!(interp.len(), 5);
}

#[test]
fn test_new_insufficient_data_one_point() {
    let xs = wrap(&[1.0]);
    let ys = wrap(&[2.0]);
    let result = MonotonicInterpolator::new(&xs, &ys);
    assert!(result.is_err());

    match result.unwrap_err() {
        InterpolationError::InsufficientData { got, need } => {
            assert_eq!(got, 1);
            assert_eq!(need, 2);
        }
        _ => panic!("Expected InsufficientData error"),
    }
}

#[test]
fn test_new_mismatched_lengths() {
    let xs = wrap(&[0.0, 1.0, 2.0]);
    let ys = wrap(&[0.0, 1.0]);
    let result = MonotonicInterpolator::new(&xs, &ys);
    assert!(result.is_err());

    match result.unwrap_err() {
        InterpolationError::InvalidInput(msg) => {
            assert!(msg.contains("same length"));
        }
        _ => panic!("Expected InvalidInput error"),
    }
}

#[test]
fn test_new_non_monotonic_data() {
    let xs = wrap(&[0.0, 1.0, 2.0, 3.0]);
    let ys = wrap(&[0.0, 2.0, 1.0, 3.0]);
    let result = MonotonicInterpolator::new(&xs, &ys);
    assert!(result.is_err());

    match result.unwrap_err() {
        InterpolationError::NonMonotonicData { index } => {
            assert_eq!(index, 2);
        }
        _ => panic!("Expected NonMonotonicData error"),
    }
}

#[test]
fn test_new_decreasing_data() {
    let xs = wrap(&[0.0, 1.0, 2.0, 3.0]);
    let ys = wrap(&[4.0, 3.0, 2.0, 1.0]);
    let result = MonotonicInterpolator::new(&xs, &ys);
    assert!(result.is_ok());
}

#[test]
fn test_new_auto_sorts_unsorted_data() {
    let xs = wrap(&[3.0, 1.0, 2.0, 0.0]);
    let ys = wrap(&[3.0, 1.0, 2.0, 0.0]);
    let result = MonotonicInterpolator::new(&xs, &ys);
    assert!(result.is_ok());

    let interp = result.unwrap();
    assert_eq!(interp.xs(), wrap(&[0.0, 1.0, 2.0, 3.0]).as_slice());
    assert_eq!(interp.ys(), wrap(&[0.0, 1.0, 2.0, 3.0]).as_slice());
}

#[test]
fn test_new_constant_data() {
    let xs = wrap(&[0.0, 1.0, 2.0]);
    let ys = wrap(&[5.0, 5.0, 5.0]);
    let result = MonotonicInterpolator::new(&xs, &ys);
    assert!(result.is_ok());
}

#[test]
fn test_domain() {
    let interp = MonotonicInterpolator::new(
        &wrap(&[1.0, 2.0, 3.0, 4.0]),
        &wrap(&[1.0, 2.0, 3.0, 4.0]),
    )
    .unwrap();
    let (x_min, x_max) = interp.domain();
    assert_eq!(x_min.0, 1.0);
    assert_eq!(x_max.0, 4.0);
}

#[test]
fn test_interpolate_at_knot_points() {
    let xs = [0.0, 1.0, 2.0, 3.0];
    let ys = [0.0, 1.0, 3.0, 6.0];
    let interp = MonotonicInterpolator::new(&wrap(&xs), &wrap(&ys)).unwrap();

    for (x, y) in xs.iter().zip(ys.iter()) {
        let result = interp.interpolate(F64(*x)).unwrap();
        assert!(
            (result.0 - *y).abs() < 1e-10,
            "At x={}, expected y={}, got {}",
            x,
            y,
            result.0
        );
    }
}

#[test]
fn test_interpolate_out_of_bounds_low() {
    let interp =
        MonotonicInterpolator::new(&wrap(&[0.0, 1.0, 2.0]), &wrap(&[0.0, 1.0, 2.0])).unwrap();
    let result = interp.interpolate(F64(-0.1));

    assert!(result.is_err());
    match result.unwrap_err() {
        InterpolationError::OutOfBounds { x, min, max } => {
            assert_eq!(x.0, -0.1);
            assert_eq!(min.0, 0.0);
            assert_eq!(max.0, 2.0);
        }
        _ => panic!("Expected OutOfBounds error"),
    }
}

#[test]
fn test_interpolate_out_of_bounds_high() {
    let interp =
        MonotonicInterpolator::new(&wrap(&[0.0, 1.0, 2.0]), &wrap(&[0.0, 1.0, 2.0])).unwrap();
    let result = interp.interpolate(F64(2.1));

    assert!(result.is_err());
    match result.unwrap_err() {
        InterpolationError::OutOfBounds { x, min, max } => {
            assert_eq!(x.0, 2.1);
            assert_eq!(min.0, 0.0);
            assert_eq!(max.0, 2.0);
        }
        _ => panic!("Expected OutOfBounds error"),
    }
}

#[test]
fn test_increasing_data_produces_increasing_output() {
    let xs = wrap(&[0.0, 1.0, 2.0, 3.0, 4.0]);
    let ys = wrap(&[0.0, 1.0, 3.0, 6.0, 10.0]);
    let interp = MonotonicInterpolator::new(&xs, &ys).unwrap();

    let mut prev_y = f64::NEG_INFINITY;
    for i in 0..100 {
        let x = (i as f64) * 4.0 / 99.0;
        let y = interp.interpolate(F64(x)).unwrap().0;
        assert!(
            y >= prev_y - 1e-10,
            "Monotonicity violated at x={}: prev={}, current={}",
            x,
            prev_y,
            y
        );
        prev_y = y;
    }
}

#[test]
fn test_decreasing_data_produces_decreasing_output() {
    let xs = wrap(&[0.0, 1.0, 2.0, 3.0, 4.0]);
    let ys = wrap(&[10.0, 6.0, 3.0, 1.0, 0.0]);
    let interp = MonotonicInterpolator::new(&xs, &ys).unwrap();

    let mut prev_y = f64::INFINITY;
    for i in 0..100 {
        let x = (i as f64) * 4.0 / 99.0;
        let y = interp.interpolate(F64(x)).unwrap().0;
        assert!(
            y <= prev_y + 1e-10,
            "Monotonicity violated at x={}: prev={}, current={}",
            x,
            prev_y,
            y
        );
        prev_y = y;
    }
}

#[test]
fn test_interpolated_values_within_y_range() {
    let xs = wrap(&[0.0, 1.0, 2.0, 3.0]);
    let ys = wrap(&[0.0, 2.0, 5.0, 9.0]);
    let interp = MonotonicInterpolator::new(&xs, &ys).unwrap();

    let y_mid1 = interp.interpolate(F64(0.5)).unwrap().0;
    assert!((0.0..=2.0).contains(&y_mid1));

    let y_mid2 = interp.interpolate(F64(1.5)).unwrap().0;
    assert!((2.0..=5.0).contains(&y_mid2));

    let y_mid3 = interp.interpolate(F64(2.5)).unwrap().0;
    assert!((5.0..=9.0).contains(&y_mid3));
}

#[test]
fn test_clone() {
    let xs = wrap(&[0.0, 1.0, 2.0]);
    let ys = wrap(&[0.0, 1.0, 2.0]);
    let interp = MonotonicInterpolator::new(&xs, &ys).unwrap();

    let cloned = interp.clone();
    assert_eq!(interp.xs(), cloned.xs());
    assert_eq!(interp.ys(), cloned.ys());
}

#[test]
fn monotonic_test_with_f32() {
    let xs = [F32(0.0), F32(1.0), F32(2.0)];
    let ys = [F32(0.0), F32(1.0), F32(2.0)];
    let result = MonotonicInterpolator::new(&xs, &ys);
    assert!(result.is_ok());

    let interp = result.unwrap();
    let y = interp.interpolate(F32(0.5)).unwrap();
    assert!(y.0.is_finite());
}

#[test]
fn test_cubic_data_knots_and_segment_bound() {
    // the cubic data: every knot reproduced exactly, and the value at
    // x = 1.5 stays between its neighbouring knots
    let xs = [0.0, 1.0, 2.0, 3.0];
    let ys = [0.0, 1.0, 3.0, 6.0];
    let interp = MonotonicInterpolator::new(&wrap(&xs), &wrap(&ys)).unwrap();

    for (x, y) in xs.iter().zip(ys.iter()) {
        let value = interp.interpolate(F64(*x)).unwrap().0;
        assert!((value - *y).abs() < 1e-10);
    }
    let mid = interp.interpolate(F64(1.5)).unwrap().0;
    assert!((1.0..=3.0).contains(&mid));
}

#[test]
fn test_fritsch_carlson_slope_condition() {
    // every non-flat segment keeps its normalised slope pair inside the
    // disc of radius three, and a flat run zeroes its endpoint slopes
    let xs = [0.0, 1.0, 2.0, 3.0, 4.0];
    let ys = [0.0, 1.0, 1.0, 5.0, 6.0];
    let interp = MonotonicInterpolator::new(&wrap(&xs), &wrap(&ys)).unwrap();
    let sx = interp.xs();
    let sy = interp.ys();
    let sm = interp.slopes();
    for i in 0..xs.len() - 1 {
        let d = (sy[i + 1].0 - sy[i].0) / (sx[i + 1].0 - sx[i].0);
        if d.abs() < f64::EPSILON {
            assert_eq!(sm[i].0, 0.0);
            assert_eq!(sm[i + 1].0, 0.0);
        } else {
            let alpha = sm[i].0 / d;
            let beta = sm[i + 1].0 / d;
            assert!(
                alpha * alpha + beta * beta <= 9.0 + 1e-12,
                "condition violated on segment {}",
                i
            );
        }
    }
}

#[test]
fn test_duplicate_abscissae_accepted() {
    // equal keys sort adjacently and survive construction
    let xs = wrap(&[0.0, 1.0, 1.0, 2.0]);
    let ys = wrap(&[0.0, 1.0, 1.0, 2.0]);
    let result = MonotonicInterpolator::new(&xs, &ys);
    assert!(result.is_ok());
}

#[test]
fn test_insufficient_data_one_point() {
    let xs = wrap(&[1.0]);
    let ys = wrap(&[2.0]);
    let result = smooth_interp(&xs, &ys, F64(1.0), F64(1e-6));
    assert!(result.is_err());

    match result.unwrap_err() {
        InterpolationError::InsufficientData { got, need } => {
            assert_eq!(got, 1);
            assert_eq!(need, 2);
        }
        _ => panic!("Expected InsufficientData error"),
    }
}

#[test]
fn test_mismatched_lengths() {
    let xs = wrap(&[0.0, 1.0, 2.0]);
    let ys = wrap(&[0.0, 1.0]);
    let result = smooth_interp(&xs, &ys, F64(1.0), F64(1e-6));
    assert!(result.is_err());

    match result.unwrap_err() {
        InterpolationError::InvalidInput(msg) => {
            assert!(msg.contains("same length"));
        }
        _ => panic!("Expected InvalidInput error"),
    }
}

#[test]
fn test_convergence_to_linear_at_midpoint() {
    let xs = wrap(&[0.0, 1.0, 2.0, 3.0]);
    let ys = wrap(&[0.0, 1.0, 4.0, 9.0]);

    let expected = 2.5;

    let eps_values = [1e-2, 1e-4, 1e-6];
    let tolerances = [0.5, 0.1, 0.01];

    for (eps, tol) in eps_values.iter().zip(tolerances.iter()) {
        let result = smooth_interp(&xs, &ys, F64(1.5), F64(*eps)).unwrap().0;
        assert!(
            (result - expected).abs() < *tol,
            "At eps={}, expected ~{}, got {}",
            eps,
            expected,
            result
        );
    }
}

#[test]
fn test_convergence_to_linear_at_knot() {
    let xs = wrap(&[0.0, 1.0, 2.0]);
    let ys = wrap(&[0.0, 2.0, 4.0]);

    let result = smooth_interp(&xs, &ys, F64(1.0), F64(1e-6)).unwrap().0;
    assert!(
        (result - 2.0).abs() < 0.1,
        "At knot x=1.0, expected ~2.0, got {}",
        result
    );
}

#[test]
fn test_linear_data() {
    let xs = wrap(&[0.0, 1.0, 2.0, 3.0]);
    let ys = wrap(&[0.0, 1.0, 2.0, 3.0]);

    for x in [0.25, 0.5, 1.0, 1.5, 2.0, 2.5] {
        let result = smooth_interp(&xs, &ys, F64(x), F64(1e-6)).unwrap().0;
        assert!(
            (result - x).abs() < 0.1,
            "At x={}, expected ~{}, got {}",
            x,
            x,
            result
        );
    }
}

#[test]
fn test_different_epsilon_values() {
    let xs = wrap(&[0.0, 1.0, 2.0]);
    let ys = wrap(&[0.0, 1.0, 4.0]);

    for eps in [1e-3, 1e-4, 1e-5, 1e-6] {
        let result = smooth_interp(&xs, &ys, F64(0.5), F64(eps)).unwrap().0;
        assert!(result.is_finite(), "Result should be finite for eps={}", eps);
    }
}

#[test]
fn test_boundary_behaviour() {
    let xs = wrap(&[0.0, 1.0, 2.0]);
    let ys = wrap(&[0.0, 2.0, 4.0]);

    let y_start = smooth_interp(&xs, &ys, F64(0.0), F64(1e-6)).unwrap().0;
    let y_end = smooth_interp(&xs, &ys, F64(2.0), F64(1e-6)).unwrap().0;

    assert!(y_start.is_finite());
    assert!(y_end.is_finite());
    assert!((y_start - 0.0).abs() < 0.5);
    assert!((y_end - 4.0).abs() < 0.5);
}

#[test]
fn test_two_points() {
    let xs = wrap(&[0.0, 1.0]);
    let ys = wrap(&[0.0, 2.0]);

    let result = smooth_interp(&xs, &ys, F64(0.5), F64(1e-6)).unwrap().0;
    assert!(
        (result - 1.0).abs() < 0.2,
        "At x=0.5, expected ~1.0, got {}",
        result
    );
}

#[test]
fn smooth_interp_test_with_f32() {
    let xs = [F32(0.0), F32(1.0), F32(2.0)];
    let ys = [F32(0.0), F32(1.0), F32(2.0)];

    let result = smooth_interp(&xs, &ys, F32(0.5), F32(1e-4));
    assert!(result.is_ok());
    assert!(result.unwrap().0.is_finite());
}
