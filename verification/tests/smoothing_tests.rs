//! Tests for the smoothing primitives over a plain floating-point scalar.

use pricer_core::scalar::Scalar;
use pricer_core::smoothing::{smooth_abs, smooth_indicator, smooth_max, smooth_min};

/// A plain `f64` scalar for exercising the generic numerics.
#[derive(Clone, Copy, PartialEq, Debug)]
struct F64(f64);

impl Scalar for F64 {
    fn zero() -> Self {
        F64(0.0)
    }
    fn one() -> Self {
        F64(1.0)
    }
    fn add(self, rhs: Self) -> Self {
        F64(self.0 + rhs.0)
    }
    fn sub(self, rhs: Self) -> Self {
        F64(self.0 - rhs.0)
    }
    fn mul(self, rhs: Self) -> Self {
        F64(self.0 * rhs.0)
    }
    fn div(self, rhs: Self) -> Self {
        F64(self.0 / rhs.0)
    }
    fn neg(self) -> Self {
        F64(-self.0)
    }
    fn le(self, rhs: Self) -> bool {
        self.0 <= rhs.0
    }
    fn exp(self) -> Self {
        F64(self.0.exp())
    }
    fn ln(self) -> Self {
        F64(self.0.ln())
    }
    fn sqrt(self) -> Self {
        F64(self.0.sqrt())
    }
    fn eps() -> Self {
        F64(f64::EPSILON)
    }
    fn ratio(num: i64, den: u64) -> Self {
        F64(num as f64 / den as f64)
    }

    // The remaining trait members are the specification half of `Scalar`:
    // they exist only for the verifier, are erased from every execution,
    // and can never be reached at runtime.
    fn sp_zero() -> Self {
        unreachable!()
    }
    fn sp_one() -> Self {
        unreachable!()
    }
    fn sp_add(self, _rhs: Self) -> Self {
        unreachable!()
    }
    fn sp_mul(self, _rhs: Self) -> Self {
        unreachable!()
    }
    fn sp_div(self, _rhs: Self) -> Self {
        unreachable!()
    }
    fn sp_neg(self) -> Self {
        unreachable!()
    }
    fn sp_le(self, _rhs: Self) -> bool {
        unreachable!()
    }
    fn sp_exp(self) -> Self {
        unreachable!()
    }
    fn sp_ln(self) -> Self {
        unreachable!()
    }
    fn sp_sqrt(self) -> Self {
        unreachable!()
    }
    fn sp_eps() -> Self {
        unreachable!()
    }
    fn sp_ratio(_num: i64, _den: u64) -> Self {
        unreachable!()
    }
    fn law_le_refl(_x: Self) {}
    fn law_le_trans(_x: Self, _y: Self, _z: Self) {}
    fn law_le_antisym(_x: Self, _y: Self) {}
    fn law_le_total(_x: Self, _y: Self) {}
    fn law_add_comm(_x: Self, _y: Self) {}
    fn law_add_assoc(_x: Self, _y: Self, _z: Self) {}
    fn law_add_zero(_x: Self) {}
    fn law_add_neg(_x: Self) {}
    fn law_mul_comm(_x: Self, _y: Self) {}
    fn law_mul_assoc(_x: Self, _y: Self, _z: Self) {}
    fn law_mul_one(_x: Self) {}
    fn law_distrib(_x: Self, _y: Self, _z: Self) {}
    fn law_div_mul(_x: Self, _y: Self) {}
    fn law_mul_div(_x: Self, _y: Self) {}
    fn law_add_le(_x: Self, _y: Self, _z: Self) {}
    fn law_mul_le(_x: Self, _y: Self, _z: Self) {}
    fn law_zero_lt_one() {}
    fn law_exp_pos(_x: Self) {}
    fn law_exp_zero() {}
    fn law_exp_le(_x: Self, _y: Self) {}
    fn law_ln_le(_x: Self, _y: Self) {}
    fn law_ln_one() {}
    fn law_sqrt_sq(_x: Self) {}
    fn law_eps_pos() {}
    fn law_ratio_pos(_num: i64, _den: u64) {}
    fn law_ratio_le(_n1: i64, _d1: u64, _n2: i64, _d2: u64) {}
    fn law_ratio_one() {}
}

#[test]
fn test_smooth_max_convergence() {
    let a = 3.0_f64;
    let b = 5.0_f64;
    let true_max = a.max(b);

    let eps_values = [1e-2, 1e-4, 1e-6];
    let tolerances = [1e-1, 1e-2, 1e-3];

    for (eps, tol) in eps_values.iter().zip(tolerances.iter()) {
        let result = smooth_max(F64(a), F64(b), F64(*eps)).0;
        assert!(
            (result - true_max).abs() <= *tol * true_max.abs(),
            "smooth_max at eps={} gave {}",
            eps,
            result
        );
    }
}

#[test]
fn test_smooth_max_commutativity() {
    let a = F64(3.0);
    let b = F64(5.0);
    let epsilon = F64(1e-6);

    let result1 = smooth_max(a, b, epsilon).0;
    let result2 = smooth_max(b, a, epsilon).0;

    assert!((result1 - result2).abs() <= 1e-10 * result1.abs().max(1.0));
}

#[test]
fn test_smooth_min_duality() {
    let a = F64(3.0);
    let b = F64(5.0);
    let epsilon = F64(1e-6);

    let result_min = smooth_min(a, b, epsilon).0;
    let result_dual = -smooth_max(F64(-3.0), F64(-5.0), epsilon).0;

    assert!((result_min - result_dual).abs() <= 1e-10 * result_min.abs().max(1.0));
}

#[test]
fn test_smooth_min_convergence() {
    let a = 3.0_f64;
    let b = 5.0_f64;
    let true_min = a.min(b);

    let eps_values = [1e-2, 1e-4, 1e-6];
    let tolerances = [1e-1, 1e-2, 1e-3];

    for (eps, tol) in eps_values.iter().zip(tolerances.iter()) {
        let result = smooth_min(F64(a), F64(b), F64(*eps)).0;
        assert!(
            (result - true_min).abs() <= *tol * true_min.abs(),
            "smooth_min at eps={} gave {}",
            eps,
            result
        );
    }
}

#[test]
fn test_smooth_indicator_boundary() {
    let epsilon = F64(1e-6);
    let result = smooth_indicator(F64(0.0), epsilon).0;
    assert!((result - 0.5).abs() < 1e-3);
}

#[test]
fn test_smooth_indicator_convergence() {
    let epsilon = F64(1e-6);

    let result_neg = smooth_indicator(F64(-10.0), epsilon).0;
    assert!(result_neg < 0.01);

    let result_pos = smooth_indicator(F64(10.0), epsilon).0;
    assert!(result_pos > 0.99);
}

#[test]
fn test_smooth_abs_even_function() {
    let x = 3.5_f64;
    let epsilon = F64(1e-6);

    let result_pos = smooth_abs(F64(x), epsilon).0;
    let result_neg = smooth_abs(F64(-x), epsilon).0;

    assert!((result_pos - result_neg).abs() <= 1e-10 * result_pos.abs().max(1.0));
}

#[test]
fn test_smooth_abs_convergence() {
    let x = 3.5_f64;
    let true_abs = x.abs();

    let eps_values = [1e-2, 1e-4, 1e-6];
    let tolerances = [1e-1, 1e-2, 1e-3];

    for (eps, tol) in eps_values.iter().zip(tolerances.iter()) {
        let result = smooth_abs(F64(x), F64(*eps)).0;
        assert!(
            (result - true_abs).abs() <= *tol * true_abs,
            "smooth_abs at eps={} gave {}",
            eps,
            result
        );
    }
}

#[test]
fn test_smooth_max_exact_at_tie() {
    // at a == b == 0 the log-sum-exp collapses to epsilon * ln(2) exactly
    let result = smooth_max(F64(0.0), F64(0.0), F64(1.0)).0;
    assert!((result - std::f64::consts::LN_2).abs() < 1e-15);
}

#[test]
fn test_smooth_max_envelope() {
    // max(a, b) <= smooth_max(a, b, eps) <= max(a, b) + eps * ln(2)
    let samples: [(f64, f64); 5] = [
        (-4.0, 7.5),
        (1.25, 1.25),
        (100.0, -3.0),
        (0.0, 1e-9),
        (-2.5, -2.5000001),
    ];
    for eps in [1e-2, 1e-4, 1e-6] {
        for (a, b) in samples {
            let m: f64 = a.max(b);
            let s = smooth_max(F64(a), F64(b), F64(eps)).0;
            assert!(s >= m - 1e-12, "lower envelope failed at ({}, {})", a, b);
            assert!(
                s <= m + eps * std::f64::consts::LN_2 + 1e-12,
                "upper envelope failed at ({}, {})",
                a,
                b
            );
        }
    }
}

#[test]
fn test_smooth_min_envelope() {
    // min(a, b) - eps * ln(2) <= smooth_min(a, b, eps) <= min(a, b)
    let samples: [(f64, f64); 3] = [(-4.0, 7.5), (1.25, 1.25), (100.0, -3.0)];
    for eps in [1e-2, 1e-4, 1e-6] {
        for (a, b) in samples {
            let m: f64 = a.min(b);
            let s = smooth_min(F64(a), F64(b), F64(eps)).0;
            assert!(s <= m + 1e-12, "upper envelope failed at ({}, {})", a, b);
            assert!(
                s >= m - eps * std::f64::consts::LN_2 - 1e-12,
                "lower envelope failed at ({}, {})",
                a,
                b
            );
        }
    }
}

#[test]
fn test_smooth_indicator_bounds_and_monotonicity() {
    let eps = 1e-3;
    let mut prev = -1.0_f64;
    for i in 0..2001 {
        let x = -1.0 + (i as f64) * 0.001;
        let v = smooth_indicator(F64(x), F64(eps)).0;
        assert!((0.0..=1.0).contains(&v), "indicator out of range at {}", x);
        assert!(v >= prev, "indicator decreased at {}", x);
        prev = v;
    }
}

#[test]
fn test_smooth_abs_nonnegative_samples() {
    for eps in [1e-2, 1e-4, 1e-6] {
        for x in [-10.0, -0.5, 0.0, 1e-9, 3.25, 42.0] {
            let v = smooth_abs(F64(x), F64(eps)).0;
            assert!(v >= 0.0, "smooth_abs negative at {}", x);
        }
    }
}
