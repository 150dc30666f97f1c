//! Tests for the pricing traits, error types, configuration defaults,
//! date arithmetic and calendars.

use pricer_core::config::Settings;
use pricer_core::errors::{InterpolationError, PricingError};
use pricer_core::interpolators::traits::Interpolator;
use pricer_core::master::{Calendar, CalendarId};
use pricer_core::priceable::{Differentiable, Priceable};
use pricer_core::quotes::{CsvRecord, QuoteType};
use pricer_core::scalar::Scalar;
use pricer_core::smoothing::{smooth_abs, smooth_indicator, smooth_max, smooth_min};
use pricer_core::config;
use pricer_core::master::DayCountConvention as MasterDcc;
use pricer_core::runtime_config;
use pricer_core::time::{time_to_maturity_parts, Date, DayCountConvention};

/// A plain `f64` scalar for exercising the generic numerics.
#[derive(Clone, Copy, PartialEq, Debug)]
struct F64(f64);

impl Scalar for F64 {
    fn zero() -> Self {
        F64(0.0)
    }
    fn one() -> Self {
        F64(1.0)
    }
    fn add(self, rhs: Self) -> Self {
        F64(self.0 + rhs.0)
    }
    fn sub(self, rhs: Self) -> Self {
        F64(self.0 - rhs.0)
    }
    fn mul(self, rhs: Self) -> Self {
        F64(self.0 * rhs.0)
    }
    fn div(self, rhs: Self) -> Self {
        F64(self.0 / rhs.0)
    }
    fn neg(self) -> Self {
        F64(-self.0)
    }
    fn le(self, rhs: Self) -> bool {
        self.0 <= rhs.0
    }
    fn exp(self) -> Self {
        F64(self.0.exp())
    }
    fn ln(self) -> Self {
        F64(self.0.ln())
    }
    fn sqrt(self) -> Self {
        F64(self.0.sqrt())
    }
    fn eps() -> Self {
        F64(f64::EPSILON)
    }
    fn ratio(num: i64, den: u64) -> Self {
        F64(num as f64 / den as f64)
    }

    // The remaining trait members are the specification half of `Scalar`:
    // they exist only for the verifier, are erased from every execution,
    // and can never be reached at runtime.
    fn sp_zero() -> Self {
        unreachable!()
    }
    fn sp_one() -> Self {
        unreachable!()
    }
    fn sp_add(self, _rhs: Self) -> Self {
        unreachable!()
    }
    fn sp_mul(self, _rhs: Self) -> Self {
        unreachable!()
    }
    fn sp_div(self, _rhs: Self) -> Self {
        unreachable!()
    }
    fn sp_neg(self) -> Self {
        unreachable!()
    }
    fn sp_le(self, _rhs: Self) -> bool {
        unreachable!()
    }
    fn sp_exp(self) -> Self {
        unreachable!()
    }
    fn sp_ln(self) -> Self {
        unreachable!()
    }
    fn sp_sqrt(self) -> Self {
        unreachable!()
    }
    fn sp_eps() -> Self {
        unreachable!()
    }
    fn sp_ratio(_num: i64, _den: u64) -> Self {
        unreachable!()
    }
    fn law_le_refl(_x: Self) {}
    fn law_le_trans(_x: Self, _y: Self, _z: Self) {}
    fn law_le_antisym(_x: Self, _y: Self) {}
    fn law_le_total(_x: Self, _y: Self) {}
    fn law_add_comm(_x: Self, _y: Self) {}
    fn law_add_assoc(_x: Self, _y: Self, _z: Self) {}
    fn law_add_zero(_x: Self) {}
    fn law_add_neg(_x: Self) {}
    fn law_mul_comm(_x: Self, _y: Self) {}
    fn law_mul_assoc(_x: Self, _y: Self, _z: Self) {}
    fn law_mul_one(_x: Self) {}
    fn law_distrib(_x: Self, _y: Self, _z: Self) {}
    fn law_div_mul(_x: Self, _y: Self) {}
    fn law_mul_div(_x: Self, _y: Self) {}
    fn law_add_le(_x: Self, _y: Self, _z: Self) {}
    fn law_mul_le(_x: Self, _y: Self, _z: Self) {}
    fn law_zero_lt_one() {}
    fn law_exp_pos(_x: Self) {}
    fn law_exp_zero() {}
    fn law_exp_le(_x: Self, _y: Self) {}
    fn law_ln_le(_x: Self, _y: Self) {}
    fn law_ln_one() {}
    fn law_sqrt_sq(_x: Self) {}
    fn law_eps_pos() {}
    fn law_ratio_pos(_num: i64, _den: u64) {}
    fn law_ratio_le(_n1: i64, _d1: u64, _n2: i64, _d2: u64) {}
    fn law_ratio_one() {}
}

/// A plain `f32` scalar.
#[derive(Clone, Copy, PartialEq, Debug)]
struct F32(f32);

impl Scalar for F32 {
    fn zero() -> Self {
        F32(0.0)
    }
    fn one() -> Self {
        F32(1.0)
    }
    fn add(self, rhs: Self) -> Self {
        F32(self.0 + rhs.0)
    }
    fn sub(self, rhs: Self) -> Self {
        F32(self.0 - rhs.0)
    }
    fn mul(self, rhs: Self) -> Self {
        F32(self.0 * rhs.0)
    }
    fn div(self, rhs: Self) -> Self {
        F32(self.0 / rhs.0)
    }
    fn neg(self) -> Self {
        F32(-self.0)
    }
    fn le(self, rhs: Self) -> bool {
        self.0 <= rhs.0
    }
    fn exp(self) -> Self {
        F32(self.0.exp())
    }
    fn ln(self) -> Self {
        F32(self.0.ln())
    }
    fn sqrt(self) -> Self {
        F32(self.0.sqrt())
    }
    fn eps() -> Self {
        F32(f32::EPSILON)
    }
    fn ratio(num: i64, den: u64) -> Self {
        F32(num as f32 / den as f32)
    }

    // The remaining trait members are the specification half of `Scalar`:
    // they exist only for the verifier, are erased from every execution,
    // and can never be reached at runtime.
    fn sp_zero() -> Self {
        unreachable!()
    }
    fn sp_one() -> Self {
        unreachable!()
    }
    fn sp_add(self, _rhs: Self) -> Self {
        unreachable!()
    }
    fn sp_mul(self, _rhs: Self) -> Self {
        unreachable!()
    }
    fn sp_div(self, _rhs: Self) -> Self {
        unreachable!()
    }
    fn sp_neg(self) -> Self {
        unreachable!()
    }
    fn sp_le(self, _rhs: Self) -> bool {
        unreachable!()
    }
    fn sp_exp(self) -> Self {
        unreachable!()
    }
    fn sp_ln(self) -> Self {
        unreachable!()
    }
    fn sp_sqrt(self) -> Self {
        unreachable!()
    }
    fn sp_eps() -> Self {
        unreachable!()
    }
    fn sp_ratio(_num: i64, _den: u64) -> Self {
        unreachable!()
    }
    fn law_le_refl(_x: Self) {}
    fn law_le_trans(_x: Self, _y: Self, _z: Self) {}
    fn law_le_antisym(_x: Self, _y: Self) {}
    fn law_le_total(_x: Self, _y: Self) {}
    fn law_add_comm(_x: Self, _y: Self) {}
    fn law_add_assoc(_x: Self, _y: Self, _z: Self) {}
    fn law_add_zero(_x: Self) {}
    fn law_add_neg(_x: Self) {}
    fn law_mul_comm(_x: Self, _y: Self) {}
    fn law_mul_assoc(_x: Self, _y: Self, _z: Self) {}
    fn law_mul_one(_x: Self) {}
    fn law_distrib(_x: Self, _y: Self, _z: Self) {}
    fn law_div_mul(_x: Self, _y: Self) {}
    fn law_mul_div(_x: Self, _y: Self) {}
    fn law_add_le(_x: Self, _y: Self, _z: Self) {}
    fn law_mul_le(_x: Self, _y: Self, _z: Self) {}
    fn law_zero_lt_one() {}
    fn law_exp_pos(_x: Self) {}
    fn law_exp_zero() {}
    fn law_exp_le(_x: Self, _y: Self) {}
    fn law_ln_le(_x: Self, _y: Self) {}
    fn law_ln_one() {}
    fn law_sqrt_sq(_x: Self) {}
    fn law_eps_pos() {}
    fn law_ratio_pos(_num: i64, _den: u64) {}
    fn law_ratio_le(_n1: i64, _d1: u64, _n2: i64, _d2: u64) {}
    fn law_ratio_one() {}
}

fn ymd(year: i32, month: u32, day: u32) -> Date {
    Date::from_ymd_opt(year, month, day).unwrap()
}

fn year_fraction(c: DayCountConvention, start: Date, end: Date) -> f64 {
    let (num, den) = c.year_fraction_parts(start, end);
    num as f64 / den as f64
}

// ---- pricing traits ----

#[test]
fn test_priceable_with_f64() {
    enum SimpleInstrument {
        FixedValue(F64),
    }

    impl Priceable<F64> for SimpleInstrument {
        fn price(&self) -> Result<F64, PricingError> {
            match self {
                SimpleInstrument::FixedValue(val) => {
                    if val.0 < 0.0 {
                        return Err(PricingError::InvalidInput(
                            "Price cannot be negative".to_string(),
                        ));
                    }
                    Ok(*val)
                }
            }
        }
    }

    let instrument = SimpleInstrument::FixedValue(F64(100.0));
    assert_eq!(instrument.price().unwrap().0, 100.0);

    let invalid = SimpleInstrument::FixedValue(F64(-50.0));
    assert!(invalid.price().is_err());
}

#[test]
fn test_priceable_with_f32() {
    enum SimpleInstrument {
        FixedValue(F32),
    }

    impl Priceable<F32> for SimpleInstrument {
        fn price(&self) -> Result<F32, PricingError> {
            match self {
                SimpleInstrument::FixedValue(val) => Ok(*val),
            }
        }
    }

    let instrument = SimpleInstrument::FixedValue(F32(100.0_f32));
    assert_eq!(instrument.price().unwrap().0, 100.0_f32);
}

#[test]
fn test_differentiable_marker_trait() {
    struct SmoothCallPayoff {
        smoothing_epsilon: f64,
    }

    impl Differentiable for SmoothCallPayoff {}

    let payoff = SmoothCallPayoff {
        smoothing_epsilon: 1e-6,
    };
    assert!(payoff.smoothing_epsilon > 0.0);

    let _: &dyn Differentiable = &payoff;
}

#[test]
fn test_trait_method_has_no_side_effects() {
    enum SimpleInstrument {
        FixedValue(F64),
    }

    impl Priceable<F64> for SimpleInstrument {
        fn price(&self) -> Result<F64, PricingError> {
            match self {
                SimpleInstrument::FixedValue(val) => Ok(*val),
            }
        }
    }

    let instrument = SimpleInstrument::FixedValue(F64(100.0));
    let price1 = instrument.price().unwrap();
    let price2 = instrument.price().unwrap();
    assert_eq!(price1.0, price2.0);
}

#[test]
fn test_priceable_error_handling() {
    struct VolatileInstrument {
        volatility: F64,
    }

    impl Priceable<F64> for VolatileInstrument {
        fn price(&self) -> Result<F64, PricingError> {
            if self.volatility.0 < 0.0 {
                return Err(PricingError::InvalidInput(
                    "Volatility must be non-negative".to_string(),
                ));
            }
            if self.volatility.0 > 10.0 {
                return Err(PricingError::NumericalInstability(
                    "Volatility too high for numerical stability".to_string(),
                ));
            }
            Ok(F64(100.0 * self.volatility.0))
        }
    }

    let valid = VolatileInstrument { volatility: F64(0.2) };
    assert_eq!(valid.price().unwrap().0, 20.0);

    let invalid_negative = VolatileInstrument { volatility: F64(-0.1) };
    match invalid_negative.price() {
        Err(PricingError::InvalidInput(_)) => (),
        _ => panic!("Expected InvalidInput error"),
    }

    let invalid_high = VolatileInstrument { volatility: F64(15.0) };
    match invalid_high.price() {
        Err(PricingError::NumericalInstability(_)) => (),
        _ => panic!("Expected NumericalInstability error"),
    }
}

// ---- pricing errors ----

#[test]
fn test_invalid_input_display() {
    let err = PricingError::InvalidInput("Test error".to_string());
    assert_eq!(err.message(), "Invalid input: Test error");
}

#[test]
fn test_numerical_instability_display() {
    let err = PricingError::NumericalInstability("Failed to converge".to_string());
    assert_eq!(err.message(), "Numerical instability: Failed to converge");
}

#[test]
fn test_model_failure_display() {
    let err = PricingError::ModelFailure("Volatility out of range".to_string());
    assert_eq!(err.message(), "Model failure: Volatility out of range");
}

#[test]
fn test_unsupported_instrument_display() {
    let err = PricingError::UnsupportedInstrument("Asian option".to_string());
    assert_eq!(err.message(), "Unsupported instrument: Asian option");
}

#[test]
fn test_clone_and_equality() {
    let err1 = PricingError::InvalidInput("Test".to_string());
    let err2 = err1.clone();
    assert_eq!(err1, err2);
}

// ---- interpolation contract via a mock ----

struct MockInterpolator {
    x_min: f64,
    x_max: f64,
}

impl Interpolator<F64> for MockInterpolator {
    // ghost members of the verified trait, erased from every execution
    fn inv(&self) -> bool {
        unreachable!()
    }
    fn spec_domain(&self) -> (F64, F64) {
        unreachable!()
    }
    fn spec_value(&self, _x: F64) -> F64 {
        unreachable!()
    }

    fn interpolate(&self, x: F64) -> Result<F64, InterpolationError<F64>> {
        if x.0 < self.x_min || x.0 > self.x_max {
            return Err(InterpolationError::OutOfBounds {
                x,
                min: F64(self.x_min),
                max: F64(self.x_max),
            });
        }
        Ok(F64(x.0 * 2.0))
    }

    fn domain(&self) -> (F64, F64) {
        (F64(self.x_min), F64(self.x_max))
    }
}

#[test]
fn test_trait_is_object_safe() {
    fn _accept_dyn_interpolator(_: &dyn Interpolator<F64>) {}
}

#[test]
fn test_mock_interpolator_domain() {
    let interp = MockInterpolator {
        x_min: 0.0,
        x_max: 10.0,
    };
    let (x_min, x_max) = interp.domain();
    assert_eq!(x_min.0, 0.0);
    assert_eq!(x_max.0, 10.0);
}

#[test]
fn test_mock_interpolator_in_bounds() {
    let interp = MockInterpolator {
        x_min: 0.0,
        x_max: 10.0,
    };
    let result = interp.interpolate(F64(5.0));
    assert!(result.is_ok());
    assert_eq!(result.unwrap().0, 10.0);
}

#[test]
fn test_mock_interpolator_out_of_bounds_low() {
    let interp = MockInterpolator {
        x_min: 0.0,
        x_max: 10.0,
    };
    let result = interp.interpolate(F64(-1.0));
    assert!(result.is_err());
    match result.unwrap_err() {
        InterpolationError::OutOfBounds { x, min, max } => {
            assert_eq!(x.0, -1.0);
            assert_eq!(min.0, 0.0);
            assert_eq!(max.0, 10.0);
        }
        _ => panic!("Expected OutOfBounds error"),
    }
}

#[test]
fn test_mock_interpolator_out_of_bounds_high() {
    let interp = MockInterpolator {
        x_min: 0.0,
        x_max: 10.0,
    };
    let result = interp.interpolate(F64(11.0));
    assert!(result.is_err());
    match result.unwrap_err() {
        InterpolationError::OutOfBounds { x, min, max } => {
            assert_eq!(x.0, 11.0);
            assert_eq!(min.0, 0.0);
            assert_eq!(max.0, 10.0);
        }
        _ => panic!("Expected OutOfBounds error"),
    }
}

#[test]
fn test_mock_interpolator_boundary_values() {
    let interp = MockInterpolator {
        x_min: 0.0,
        x_max: 10.0,
    };
    assert!(interp.interpolate(F64(0.0)).is_ok());
    assert!(interp.interpolate(F64(10.0)).is_ok());
}

// ---- configuration ----

#[test]
fn test_default_settings() {
    let settings = Settings::default();
    assert!(settings.engine.thread_pool_size > 0);
    assert_eq!(settings.engine.memory_limit_mb, 1024);
}

// ---- day counting ----

#[test]
fn test_act_365_known_dates() {
    // 2024-01-01 to 2024-07-01 is 182 days
    let start = ymd(2024, 1, 1);
    let end = ymd(2024, 7, 1);

    let result = year_fraction(DayCountConvention::ActualActual365, start, end);
    let expected = 182.0 / 365.0;
    assert!((result - expected).abs() < 1e-10);
}

#[test]
fn test_act_360_known_dates() {
    let start = ymd(2024, 1, 1);
    let end = ymd(2024, 7, 1);

    let result = year_fraction(DayCountConvention::ActualActual360, start, end);
    let expected = 182.0 / 360.0;
    assert!((result - expected).abs() < 1e-10);
}

#[test]
fn test_thirty_360_known_dates() {
    let start = ymd(2024, 1, 1);
    let end = ymd(2024, 7, 1);

    let result = year_fraction(DayCountConvention::Thirty360, start, end);
    let expected = 180.0 / 360.0;
    assert!((result - expected).abs() < 1e-10);
}

#[test]
fn test_thirty_360_with_31st_days() {
    // 2024-01-31 to 2024-03-31: both month ends clip to 30, two months
    let start = ymd(2024, 1, 31);
    let end = ymd(2024, 3, 31);

    let result = year_fraction(DayCountConvention::Thirty360, start, end);
    let expected = 60.0 / 360.0;
    assert!((result - expected).abs() < 1e-10);
}

#[test]
fn test_time_to_maturity_matches_act_365() {
    let start = ymd(2024, 1, 1);
    let end = ymd(2024, 7, 1);

    let (num, den) = time_to_maturity_parts(start, end);
    let ttm = num as f64 / den as f64;
    let act_365 = year_fraction(DayCountConvention::ActualActual365, start, end);

    assert!((ttm - act_365).abs() < 1e-10);
}

#[test]
fn test_same_date_returns_zero() {
    let date = ymd(2024, 6, 15);

    assert_eq!(year_fraction(DayCountConvention::ActualActual365, date, date), 0.0);
    assert_eq!(year_fraction(DayCountConvention::ActualActual360, date, date), 0.0);
    assert_eq!(year_fraction(DayCountConvention::Thirty360, date, date), 0.0);
}

#[test]
fn test_one_year_period() {
    let start = ymd(2024, 1, 1);
    let end = ymd(2025, 1, 1);

    // 2024 is a leap year, so 366 days
    let result_365 = year_fraction(DayCountConvention::ActualActual365, start, end);
    assert!((result_365 - 366.0 / 365.0).abs() < 1e-10);

    let result_360 = year_fraction(DayCountConvention::ActualActual360, start, end);
    assert!((result_360 - 366.0 / 360.0).abs() < 1e-10);

    let result_30_360 = year_fraction(DayCountConvention::Thirty360, start, end);
    assert!((result_30_360 - 1.0).abs() < 1e-10);
}

#[test]
fn test_act_365_vs_act_360_ratio() {
    let start = ymd(2024, 1, 1);
    let end = ymd(2024, 12, 31);

    let result_365 = year_fraction(DayCountConvention::ActualActual365, start, end);
    let result_360 = year_fraction(DayCountConvention::ActualActual360, start, end);

    assert!((result_360 * 360.0 / 365.0 - result_365 * 1.0).abs() < 1e-2);
    assert!(result_360 > result_365);
}

#[test]
fn test_master_day_counts() {
    let start = ymd(2026, 1, 1);
    let end = ymd(2026, 4, 1);

    let (num, den) = MasterDcc::Actual360.year_fraction_parts(start, end);
    let yf = num as f64 / den as f64;
    assert!((yf - 0.25).abs() < 0.01);

    let start2 = ymd(2026, 1, 1);
    let end2 = ymd(2027, 1, 1);
    let (num2, den2) = MasterDcc::Actual365Fixed.year_fraction_parts(start2, end2);
    let yf2 = num2 as f64 / den2 as f64;
    assert!((yf2 - 1.0).abs() < 0.01);

    let (num3, den3) = MasterDcc::Actual36525.year_fraction_parts(start2, end2);
    let yf3 = num3 as f64 / den3 as f64;
    assert!((yf3 - 365.0 / 365.25).abs() < 1e-10);
}

// ---- calendars ----

#[test]
fn test_weekend_not_business_day() {
    let calendar = Calendar::get(CalendarId::WeekendOnly);
    // Saturday
    let saturday = ymd(2026, 1, 10);
    assert!(!calendar.is_business_day(saturday));
    // Monday
    let monday = ymd(2026, 1, 5);
    assert!(calendar.is_business_day(monday));
}

#[test]
fn test_add_business_days() {
    let calendar = Calendar::get(CalendarId::WeekendOnly);
    let friday = ymd(2026, 1, 9);
    let monday = calendar.add_business_days(friday, 1);
    assert_eq!(monday, ymd(2026, 1, 12));
}

#[test]
fn test_holiday_calendars() {
    let target = Calendar::get(CalendarId::Target);
    assert!(target.is_holiday(ymd(2026, 12, 26)));
    assert!(!target.is_business_day(ymd(2026, 5, 1)));

    let tokyo = Calendar::get(CalendarId::Tokyo);
    assert!(tokyo.is_holiday(ymd(2026, 1, 2)));

    let ny = Calendar::get(CalendarId::NewYork);
    assert!(ny.is_holiday(ymd(2026, 7, 4)));
    assert!(!ny.is_holiday(ymd(2026, 7, 5)));

    let london = Calendar::get(CalendarId::London);
    assert!(london.is_holiday(ymd(2026, 12, 25)));
}

#[test]
fn test_next_and_prev_business_day() {
    let calendar = Calendar::get(CalendarId::WeekendOnly);
    // Saturday scans forward to Monday and back to Friday
    let saturday = ymd(2026, 1, 10);
    assert_eq!(calendar.next_business_day(saturday), ymd(2026, 1, 12));
    assert_eq!(calendar.prev_business_day(saturday), ymd(2026, 1, 9));
    // a business day maps to itself
    let wednesday = ymd(2026, 1, 7);
    assert_eq!(calendar.next_business_day(wednesday), wednesday);
}

// ---- module exports ----

#[test]
fn test_smoothing_module_exports() {
    let result = smooth_max(F64(3.0), F64(5.0), F64(1e-6)).0;
    assert!((result - 5.0).abs() < 1e-3);

    let result = smooth_min(F64(3.0), F64(5.0), F64(1e-6)).0;
    assert!((result - 3.0).abs() < 1e-3);

    let result = smooth_indicator(F64(0.0), F64(1e-3)).0;
    assert!((result - 0.5).abs() < 0.01);

    let result = smooth_abs(F64(3.5), F64(1e-6)).0;
    assert!((result - 3.5).abs() < 1e-3);
}

#[test]
fn test_traits_module_exports() {
    enum TestInstrument {
        FixedValue(F64),
    }

    impl Priceable<F64> for TestInstrument {
        fn price(&self) -> Result<F64, PricingError> {
            match self {
                TestInstrument::FixedValue(val) => Ok(*val),
            }
        }
    }

    struct TestGradient {
        slope: f64,
    }

    impl Differentiable for TestGradient {}

    let instrument = TestInstrument::FixedValue(F64(100.0));
    assert_eq!(instrument.price().unwrap().0, 100.0);

    let gradient = TestGradient { slope: 2.5 };
    assert!(gradient.slope > 0.0);
}

#[test]
fn test_time_module_exports() {
    let start = ymd(2024, 1, 1);
    let end = ymd(2024, 7, 1);

    let (num, den) = time_to_maturity_parts(start, end);
    let ttm = num as f64 / den as f64;
    assert!((ttm - 182.0 / 365.0).abs() < 1e-10);

    let yf = year_fraction(DayCountConvention::ActualActual365, start, end);
    assert_eq!(yf, ttm);
}

#[test]
fn test_cross_module_integration() {
    let start = ymd(2024, 1, 1);
    let end1 = ymd(2024, 7, 1);
    let end2 = ymd(2024, 12, 31);

    let (n1, d1) = time_to_maturity_parts(start, end1);
    let ttm1 = n1 as f64 / d1 as f64;
    let (n2, d2) = time_to_maturity_parts(start, end2);
    let ttm2 = n2 as f64 / d2 as f64;

    let max_ttm = smooth_max(F64(ttm1), F64(ttm2), F64(1e-6)).0;
    assert!((max_ttm - ttm2).abs() < 1e-3);

    struct TimeDependent {
        ttm: f64,
    }

    impl Priceable<F64> for TimeDependent {
        fn price(&self) -> Result<F64, PricingError> {
            Ok(F64((-0.05 * self.ttm).exp() * 100.0))
        }
    }

    let model = TimeDependent { ttm: ttm1 };
    let price = model.price().unwrap().0;
    assert!(price > 0.0 && price <= 100.0);
}

#[test]
fn test_all_public_modules_accessible() {
    // math module
    let _ = smooth_max(F64(1.0), F64(2.0), F64(1e-6));

    // types module
    let date = ymd(2024, 1, 1);
    let _ = year_fraction(DayCountConvention::ActualActual365, date, date);

    // master data module
    let _ = Calendar::get(CalendarId::Target);
}

#[test]
fn test_default_fns() {
    assert!(config::default_thread_pool_size() >= 1);
    assert_eq!(config::default_memory_limit_mb(), 1024);
    assert_eq!(config::default_mc_paths(), 10_000);
    assert_eq!(config::default_max_connections(), 10);
    assert_eq!(config::default_connection_timeout(), 30);
    assert!(runtime_config::default_true());
    assert_eq!(runtime_config::default_rest_addr(), "0.0.0.0:8080");
    assert_eq!(runtime_config::default_grpc_addr(), "0.0.0.0:50051");
    assert_eq!(runtime_config::default_log_level(), "info");
    assert_eq!(runtime_config::default_output_dir(), "./output");
    assert_eq!(runtime_config::default_num_paths(), 10_000);
    assert_eq!(runtime_config::default_pool_size(), 5);
}

#[test]
fn test_quote_and_record_types() {
    assert_ne!(QuoteType::Bid, QuoteType::Ask);
    assert_eq!(QuoteType::Mid, QuoteType::Mid);

    let record = CsvRecord::new(3, vec!["0.5".to_string(), "0.02".to_string()]);
    assert_eq!(record.row, 3);
    assert_eq!(record.field_count(), 2);
    assert_eq!(record.fields[1], "0.02");
}

#[test]
fn test_date_model() {
    // an invalid triple is rejected, leap day accepted
    assert!(Date::from_ymd_opt(2023, 2, 29).is_none());
    assert!(Date::from_ymd_opt(2024, 2, 29).is_some());
    assert!(Date::from_ymd_opt(2024, 13, 1).is_none());
    assert!(Date::from_ymd_opt(2024, 0, 1).is_none());

    // 2026-01-10 is a Saturday, 2026-01-05 a Monday
    assert!(ymd(2026, 1, 10).is_weekend());
    assert!(!ymd(2026, 1, 5).is_weekend());
    assert_eq!(ymd(2026, 1, 5).weekday(), 0);

    // stepping over a month boundary
    assert_eq!(ymd(2024, 2, 29).succ_opt().unwrap(), ymd(2024, 3, 1));
    assert_eq!(ymd(2024, 3, 1).pred_opt().unwrap(), ymd(2024, 2, 29));
}
