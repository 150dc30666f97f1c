//! Model calibration by iterative gradient stepping.
//!
//! Fits a parameter vector to a target price vector using a
//! caller-supplied pricing function. Each iteration prices the model,
//! measures the sum of squared price errors, and takes a fixed-form step
//! of shrinking size along the accumulated error gradient; this is a
//! simplified procedure independent of the quasi-Newton and least-squares
//! solvers.

use vstd::prelude::*;

use crate::errors::OptimiserError;
use crate::scalar::Scalar;
use crate::scalar::lt_s;
use crate::scalar::slt;
use crate::solvers::copy_scalars;

verus! {

/// Configuration for model calibration.
#[derive(Debug, Clone)]
pub struct CalibrationConfig<T> {
    /// Maximum iterations.
    pub max_iterations: usize,
    /// Convergence tolerance on the sum of squared price errors.
    pub tolerance: T,
    /// Use finite differences for gradients.
    pub use_finite_diff: bool,
    /// Finite difference step size.
    pub fd_step: T,
}

impl<T: Scalar> Default for CalibrationConfig<T> {
    /// The standard configuration: a thousand iterations, a tolerance of
    /// one in a hundred million, and finite-difference gradients with a
    /// step of one millionth.
    fn default() -> (r: Self)
        ensures
            r.max_iterations == 1000,
            r.tolerance == T::sp_ratio(1, 100000000),
            r.use_finite_diff,
            r.fd_step == T::sp_ratio(1, 1000000),
    {
        CalibrationConfig {
            max_iterations: 1000,
            tolerance: T::ratio(1, 100000000),
            use_finite_diff: true,
            fd_step: T::ratio(1, 1000000),
        }
    }
}

/// Result of model calibration.
#[derive(Debug, Clone)]
pub struct CalibrationResult<T> {
    /// Calibrated parameters.
    pub parameters: Vec<T>,
    /// Final residual: the sum of squared price errors.
    pub residual: T,
    /// Number of iterations.
    pub iterations: usize,
    /// Convergence status.
    pub converged: bool,
}

/// Market data for calibration: an immutable snapshot of the prices to
/// match, with optional per-price weights.
#[derive(Debug, Clone)]
pub struct CalibrationMarketData<T> {
    /// Market prices to match.
    pub market_prices: Vec<T>,
    /// Weights for each price; equal weighting when absent.
    pub weights: Option<Vec<T>>,
}

impl<T: Scalar> CalibrationMarketData<T> {
    /// Create new calibration market data with equal weighting.
    pub fn new(market_prices: Vec<T>) -> (r: Self)
        ensures
            r.market_prices == market_prices,
            r.weights is None,
    {
        CalibrationMarketData { market_prices, weights: None }
    }

    /// Set custom weights.
    pub fn with_weights(self, weights: Vec<T>) -> (r: Self)
        ensures
            r.market_prices == self.market_prices,
            r.weights == Some(weights),
    {
        CalibrationMarketData { market_prices: self.market_prices, weights: Some(weights) }
    }
}

/// The sum of squared price errors over the first `k` paired prices.
pub open spec fn spec_sq_price_err<T: Scalar>(market: Seq<T>, model: Seq<T>, k: int) -> T
    decreases k,
{
    if k <= 0 {
        T::sp_zero()
    } else {
        let e = market[k - 1].sp_add(model[k - 1].sp_neg());
        spec_sq_price_err(market, model, k - 1).sp_add(e.sp_mul(e))
    }
}

/// The sum of squared price errors over however many prices both sides
/// offer.
pub open spec fn spec_price_error<T: Scalar>(market: Seq<T>, model: Seq<T>) -> T {
    if market.len() <= model.len() {
        spec_sq_price_err(market, model, market.len() as int)
    } else {
        spec_sq_price_err(market, model, model.len() as int)
    }
}

/// The residual is the squared price error against a model price vector
/// that the pricing function itself returned at exactly the carried
/// parameters.
pub open spec fn spec_residual_from_pricer<T: Scalar, F: Fn(&Vec<T>) -> Vec<T>>(
    pricer: F,
    market: Seq<T>,
    params: Vec<T>,
    residual: T,
) -> bool {
    exists|mp: Vec<T>|
        #[trigger] call_ensures(pricer, (&params,), mp) && residual == spec_price_error(
            market,
            mp@,
        )
}

/// The carried value is the squared price error of a pricing at some
/// parameter vector of the given length.
pub open spec fn spec_calibration_witnessed<T: Scalar, F: Fn(&Vec<T>) -> Vec<T>>(
    pricer: F,
    market: Seq<T>,
    len: int,
    value: T,
) -> bool {
    exists|p: &Vec<T>, mp: Vec<T>|
        p@.len() == len && #[trigger] call_ensures(pricer, (p,), mp) && value
            == spec_price_error(market, mp@)
}

/// Calibration engine for stochastic models.
pub struct CalibrationEngine<T> {
    config: CalibrationConfig<T>,
}

impl<T: Scalar> CalibrationEngine<T> {
    /// The engine's configuration.
    pub closed spec fn spec_config(&self) -> CalibrationConfig<T> {
        self.config
    }

    /// Create a new calibration engine with the default configuration.
    pub fn new() -> (r: Self)
        ensures
            r.spec_config().max_iterations == 1000,
    {
        CalibrationEngine { config: CalibrationConfig::default() }
    }

    /// Create a new calibration engine with a custom configuration.
    pub fn with_config(config: CalibrationConfig<T>) -> (r: Self)
        ensures
            r.spec_config() == config,
    {
        CalibrationEngine { config }
    }

    /// Calibrate a model to market prices with a pricing function from
    /// parameters to model prices.
    ///
    /// Empty market data is rejected with the insufficient-data error.
    /// Succeeds with a converged result exactly when the sum of squared
    /// price errors falls below the tolerance; the result's parameters
    /// have the same length as the initial guess and its residual is the
    /// squared price error of a model price vector the pricing function
    /// itself returned at exactly those parameters. Exhausting the
    /// iteration budget fails with a convergence failure carrying that
    /// budget and the last measured residual, and a pricing function that
    /// returns fewer prices than the market snapshot fails with the
    /// market-data error.
    pub fn calibrate<F: Fn(&Vec<T>) -> Vec<T>>(
        &self,
        initial_params: &Vec<T>,
        market_prices: &Vec<T>,
        pricer: F,
    ) -> (r: Result<CalibrationResult<T>, OptimiserError<T>>)
        requires
            self.spec_config().max_iterations <= i64::MAX as usize,
            forall|v: &Vec<T>| #[trigger] pricer.requires((v,)),
        ensures
            (market_prices@.len() == 0) <==> (r is Err && r->Err_0 is InsufficientData),
            r matches Err(OptimiserError::InsufficientData { required, provided }) ==> required
                == 1 && provided == 0,
            r is Err ==> (r->Err_0 is InsufficientData || r->Err_0 is ConvergenceFailure
                || r->Err_0 is InvalidMarketData),
            r is Ok ==> {
                let res = r->Ok_0;
                &&& res.parameters@.len() == initial_params@.len()
                &&& res.converged
                &&& res.iterations < self.spec_config().max_iterations
                &&& slt(res.residual, self.spec_config().tolerance)
            },
            r is Ok ==> spec_residual_from_pricer(
                pricer,
                market_prices@,
                r->Ok_0.parameters,
                r->Ok_0.residual,
            ),
            r matches Err(OptimiserError::ConvergenceFailure { iterations, residual }) ==>
                iterations == self.spec_config().max_iterations,
            self.spec_config().max_iterations > 0 ==> (r matches Err(
                OptimiserError::ConvergenceFailure { iterations, residual },
            ) ==> spec_calibration_witnessed(
                pricer,
                market_prices@,
                initial_params@.len() as int,
                residual,
            )),
    {
        let mut params = copy_scalars(initial_params);
        let n_params = params.len();
        let n_prices = market_prices.len();

        if n_prices == 0 {
            return Err(OptimiserError::InsufficientData { required: 1, provided: 0 });
        }
        let mut iteration: usize = 0;
        let mut residual = T::zero();

        while iteration < self.config.max_iterations
            invariant
                iteration <= self.config.max_iterations,
                self.config == self.spec_config(),
                self.config.max_iterations <= i64::MAX as usize,
                params@.len() == n_params,
                n_params == initial_params@.len(),
                n_prices == market_prices@.len(),
                n_prices > 0,
                forall|v: &Vec<T>| #[trigger] pricer.requires((v,)),
                iteration > 0 ==> spec_calibration_witnessed(
                    pricer,
                    market_prices@,
                    n_params as int,
                    residual,
                ),
            decreases self.config.max_iterations - iteration,
        {
            let model_prices = pricer(&params);
            let ghost evaluated = params;

            // sum of squared price errors over the paired prices
            let paired = if model_prices.len() < n_prices {
                model_prices.len()
            } else {
                n_prices
            };
            let mut new_residual = T::zero();
            let mut i: usize = 0;
            while i < paired
                invariant
                    i <= paired,
                    paired <= n_prices,
                    paired <= model_prices@.len(),
                    n_prices == market_prices@.len(),
                    new_residual == spec_sq_price_err(market_prices@, model_prices@, i as int),
                decreases paired - i,
            {
                let err = market_prices[i].sub(model_prices[i]);
                new_residual = new_residual.add(err.mul(err));
                i = i + 1;
            }
            proof {
                assert(new_residual == spec_price_error(market_prices@, model_prices@));
            }
            if lt_s(new_residual, self.config.tolerance) {
                let outcome = CalibrationResult {
                    parameters: params,
                    residual: new_residual,
                    iterations: iteration,
                    converged: true,
                };
                proof {
                    assert(call_ensures(pricer, (&outcome.parameters,), model_prices));
                    assert(spec_residual_from_pricer(
                        pricer,
                        market_prices@,
                        outcome.parameters,
                        outcome.residual,
                    ));
                }
                return Ok(outcome);
            }
            if model_prices.len() < n_prices {
                return Err(
                    OptimiserError::InvalidMarketData(
                        String::from_str("pricing function returned too few prices"),
                    ),
                );
            }
            // finite-difference Jacobian columns, one bumped pricing per
            // parameter
            let mut cols: Vec<Vec<T>> = Vec::new();
            let mut j: usize = 0;
            let mut consistent = true;
            while j < n_params && consistent
                invariant
                    j <= n_params,
                    params@.len() == n_params,
                    n_prices == market_prices@.len(),
                    model_prices@.len() >= n_prices,
                    consistent ==> cols@.len() == j,
                    consistent ==> forall|c: int|
                        0 <= c < j ==> (#[trigger] cols@[c])@.len() == n_prices,
                    forall|v: &Vec<T>| #[trigger] pricer.requires((v,)),
                decreases n_params - j + (if consistent {
                    1int
                } else {
                    0int
                }),
            {
                let mut params_plus = copy_scalars(&params);
                let pj = params_plus[j];
                params_plus.set(j, pj.add(self.config.fd_step));
                let prices_plus = pricer(&params_plus);
                if prices_plus.len() < n_prices {
                    consistent = false;
                } else {
                    let mut col: Vec<T> = Vec::new();
                    let mut i: usize = 0;
                    while i < n_prices
                        invariant
                            i <= n_prices,
                            col@.len() == i,
                            n_prices <= model_prices@.len(),
                            n_prices <= prices_plus@.len(),
                        decreases n_prices - i,
                    {
                        col.push(
                            prices_plus[i].sub(model_prices[i]).div(self.config.fd_step),
                        );
                        i = i + 1;
                    }
                    cols.push(col);
                    j = j + 1;
                }
            }
            if !consistent {
                return Err(
                    OptimiserError::InvalidMarketData(
                        String::from_str("pricing function returned too few prices"),
                    ),
                );
            }
            // accumulate the error gradient proxy J' * error
            let mut gradient: Vec<T> = Vec::new();
            let mut j: usize = 0;
            while j < n_params
                invariant
                    j <= n_params,
                    gradient@.len() == j,
                    cols@.len() == n_params,
                    forall|c: int| 0 <= c < n_params ==> (#[trigger] cols@[c])@.len() == n_prices,
                    n_prices == market_prices@.len(),
                    model_prices@.len() >= n_prices,
                decreases n_params - j,
            {
                let mut acc = T::zero();
                let mut i: usize = 0;
                while i < n_prices
                    invariant
                        i <= n_prices,
                        j < n_params,
                        cols@.len() == n_params,
                        forall|c: int|
                            0 <= c < n_params ==> (#[trigger] cols@[c])@.len() == n_prices,
                        n_prices == market_prices@.len(),
                        model_prices@.len() >= n_prices,
                    decreases n_prices - i,
                {
                    let err = market_prices[i].sub(model_prices[i]);
                    acc = acc.add(cols[j][i].mul(err));
                    i = i + 1;
                }
                gradient.push(acc);
                j = j + 1;
            }
            // fixed-form step of shrinking size along the gradient
            let step_size = T::ratio(1, 10).div(T::one().add(T::ratio(iteration as i64, 1)));
            let mut j: usize = 0;
            while j < n_params
                invariant
                    j <= n_params,
                    params@.len() == n_params,
                    gradient@.len() == n_params,
                decreases n_params - j,
            {
                let pj = params[j];
                params.set(j, pj.add(step_size.mul(gradient[j])));
                j = j + 1;
            }
            residual = new_residual;
            proof {
                assert(call_ensures(pricer, (&evaluated,), model_prices));
                assert(evaluated@.len() == n_params);
                assert(spec_calibration_witnessed(
                    pricer,
                    market_prices@,
                    n_params as int,
                    residual,
                ));
            }
            iteration = iteration + 1;
        }
        let failure = OptimiserError::ConvergenceFailure {
            iterations: self.config.max_iterations,
            residual,
        };
        proof {
            if self.config.max_iterations > 0 {
                assert(failure->ConvergenceFailure_residual == residual);
                assert(spec_calibration_witnessed(
                    pricer,
                    market_prices@,
                    initial_params@.len() as int,
                    failure->ConvergenceFailure_residual,
                ));
            }
        }
        Err(failure)
    }
}

impl<T: Scalar> Default for CalibrationEngine<T> {
    /// An engine with the default configuration.
    fn default() -> (r: Self)
        ensures
            r.spec_config().max_iterations == 1000,
    {
        CalibrationEngine::new()
    }
}

} // verus!
