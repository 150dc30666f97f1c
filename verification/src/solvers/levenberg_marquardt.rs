//! Levenberg-Marquardt algorithm for nonlinear least squares.

use vstd::prelude::*;

use crate::errors::OptimiserError;
use crate::scalar::Scalar;
use crate::scalar::lt_s;
use crate::solvers::OptimisationResult;
use crate::solvers::copy_scalars;
use crate::solvers::dot;
use crate::solvers::spec_dot;
use crate::solvers::linear::solve_linear_system;
use crate::solvers::linear::square_system;

verus! {

/// Configuration for the Levenberg-Marquardt solver.
#[derive(Debug, Clone)]
pub struct LevenbergMarquardtConfig<T> {
    /// Maximum iterations.
    pub max_iterations: usize,
    /// Convergence tolerance for the gradient norm.
    pub gradient_tolerance: T,
    /// Convergence tolerance for the parameter change.
    pub parameter_tolerance: T,
    /// Convergence tolerance for the residual sum of squares.
    pub residual_tolerance: T,
    /// Initial damping parameter.
    pub initial_lambda: T,
    /// Damping increase factor applied on a rejected step.
    pub lambda_increase: T,
    /// Damping decrease factor applied on an accepted step.
    pub lambda_decrease: T,
    /// Finite difference step size.
    pub fd_step: T,
}

impl<T: Scalar> Default for LevenbergMarquardtConfig<T> {
    /// The standard configuration: a thousand iterations, tolerances of
    /// one in a hundred million, a starting damping of one thousandth
    /// that grows tenfold on rejection and shrinks tenfold on acceptance,
    /// and a finite-difference step of one millionth.
    fn default() -> (r: Self)
        ensures
            r.max_iterations == 1000,
            r.gradient_tolerance == T::sp_ratio(1, 100000000),
            r.parameter_tolerance == T::sp_ratio(1, 100000000),
            r.residual_tolerance == T::sp_ratio(1, 100000000),
            r.initial_lambda == T::sp_ratio(1, 1000),
            r.lambda_increase == T::sp_ratio(10, 1),
            r.lambda_decrease == T::sp_ratio(1, 10),
            r.fd_step == T::sp_ratio(1, 1000000),
    {
        LevenbergMarquardtConfig {
            max_iterations: 1000,
            gradient_tolerance: T::ratio(1, 100000000),
            parameter_tolerance: T::ratio(1, 100000000),
            residual_tolerance: T::ratio(1, 100000000),
            initial_lambda: T::ratio(1, 1000),
            lambda_increase: T::ratio(10, 1),
            lambda_decrease: T::ratio(1, 10),
            fd_step: T::ratio(1, 1000000),
        }
    }
}

/// The objective value is the sum of squares of a residual vector that
/// the residual function itself returned at exactly the carried
/// parameters.
pub open spec fn spec_objective_from_residuals<T: Scalar, F: Fn(&Vec<T>) -> Vec<T>>(
    residuals: F,
    params: Vec<T>,
    objective: T,
) -> bool {
    exists|rv: Vec<T>|
        #[trigger] call_ensures(residuals, (&params,), rv) && objective == spec_dot(rv@, rv@)
}

/// The carried value is the sum of squares of a residual evaluation at
/// some parameter vector of the given length.
pub open spec fn spec_residual_witnessed<T: Scalar, F: Fn(&Vec<T>) -> Vec<T>>(
    residuals: F,
    len: int,
    value: T,
) -> bool {
    exists|p: &Vec<T>, rv: Vec<T>|
        p@.len() == len && #[trigger] call_ensures(residuals, (p,), rv) && value == spec_dot(
            rv@,
            rv@,
        )
}

/// Levenberg-Marquardt solver for nonlinear least squares: it minimises
/// the sum of squared residuals by blending Gauss-Newton normal-equation
/// steps with gradient-descent-like damping.
pub struct LevenbergMarquardt<T> {
    config: LevenbergMarquardtConfig<T>,
}

impl<T: Scalar> LevenbergMarquardt<T> {
    /// The solver's configuration.
    pub closed spec fn spec_config(&self) -> LevenbergMarquardtConfig<T> {
        self.config
    }

    /// Create a new solver with the default configuration.
    pub fn new() -> (r: Self)
        ensures
            r.spec_config().max_iterations == 1000,
    {
        LevenbergMarquardt { config: LevenbergMarquardtConfig::default() }
    }

    /// Create a new solver with a custom configuration.
    pub fn with_config(config: LevenbergMarquardtConfig<T>) -> (r: Self)
        ensures
            r.spec_config() == config,
    {
        LevenbergMarquardt { config }
    }

    /// Solve a nonlinear least squares problem from an initial parameter
    /// guess and a residual-vector function.
    ///
    /// Each iteration damps the Gauss-Newton normal equations with the
    /// current `lambda`, solves them through the dense linear solver, and
    /// accepts the trial point only when it reduces the sum of squares,
    /// shrinking `lambda` on acceptance and growing it on rejection
    /// without advancing. Succeeds with a converged result when the sum of
    /// squared residuals or the step norm falls below its tolerance; the
    /// result's parameters have the same length as the initial guess and
    /// its objective field is the sum of squares of a residual vector the
    /// function itself returned at exactly those parameters. Exhausting
    /// the iteration budget fails with a convergence failure carrying
    /// that budget and the final sum of squares; a singular
    /// damped system fails with the singular-matrix error, and a residual
    /// vector that changes length between evaluations fails with a
    /// dimension-mismatch error.
    pub fn solve<F: Fn(&Vec<T>) -> Vec<T>>(&self, initial: &Vec<T>, residuals: F) -> (r: Result<
        OptimisationResult<T>,
        OptimiserError<T>,
    >)
        requires
            initial@.len() < usize::MAX,
            forall|v: &Vec<T>| #[trigger] residuals.requires((v,)),
        ensures
            r is Ok ==> {
                let res = r->Ok_0;
                &&& res.parameters@.len() == initial@.len()
                &&& res.converged
                &&& res.iterations < self.spec_config().max_iterations
            },
            r is Ok ==> spec_objective_from_residuals(
                residuals,
                r->Ok_0.parameters,
                r->Ok_0.objective,
            ),
            r is Err ==> (r->Err_0 is ConvergenceFailure || r->Err_0 is SingularMatrix
                || r->Err_0 is InvalidBounds),
            r matches Err(OptimiserError::ConvergenceFailure { iterations, residual }) ==>
                iterations == self.spec_config().max_iterations,
            r matches Err(OptimiserError::ConvergenceFailure { iterations, residual }) ==>
                spec_residual_witnessed(residuals, initial@.len() as int, residual),
    {
        let n = initial.len();
        let mut x = copy_scalars(initial);
        let mut lambda = self.config.initial_lambda;
        let mut func_evals: usize = 0;

        let mut iteration: usize = 0;
        while iteration < self.config.max_iterations
            invariant
                iteration <= self.config.max_iterations,
                self.config == self.spec_config(),
                x@.len() == n,
                n == initial@.len(),
                n < usize::MAX,
                forall|v: &Vec<T>| #[trigger] residuals.requires((v,)),
            decreases self.config.max_iterations - iteration,
        {
            let r_vec = residuals(&x);
            func_evals = func_evals.saturating_add(1);
            let m = r_vec.len();

            let ssr = dot(&r_vec, &r_vec);
            if lt_s(ssr, self.config.residual_tolerance) {
                let outcome = OptimisationResult {
                    parameters: x,
                    objective: ssr,
                    iterations: iteration,
                    function_evaluations: func_evals,
                    converged: true,
                };
                proof {
                    assert(call_ensures(residuals, (&outcome.parameters,), r_vec));
                    assert(spec_objective_from_residuals(
                        residuals,
                        outcome.parameters,
                        outcome.objective,
                    ));
                }
                return Ok(outcome);
            }
            // Jacobian columns by forward finite differences: one extra
            // residual evaluation per parameter
            let mut cols: Vec<Vec<T>> = Vec::new();
            let mut k: usize = 0;
            let mut consistent = true;
            while k < n && consistent
                invariant
                    k <= n,
                    n == x@.len(),
                    r_vec@.len() == m,
                    consistent ==> cols@.len() == k,
                    consistent ==> forall|c: int|
                        0 <= c < k ==> (#[trigger] cols@[c])@.len() == m,
                    forall|v: &Vec<T>| #[trigger] residuals.requires((v,)),
                decreases n - k + (if consistent {
                    1int
                } else {
                    0int
                }),
            {
                let mut x_plus = copy_scalars(&x);
                let xk = x_plus[k];
                x_plus.set(k, xk.add(self.config.fd_step));
                let r_plus = residuals(&x_plus);
                func_evals = func_evals.saturating_add(1);
                if r_plus.len() != m {
                    consistent = false;
                } else {
                    let mut col: Vec<T> = Vec::new();
                    let mut i: usize = 0;
                    while i < m
                        invariant
                            i <= m,
                            col@.len() == i,
                            r_vec@.len() == m,
                            r_plus@.len() == m,
                        decreases m - i,
                    {
                        col.push(r_plus[i].sub(r_vec[i]).div(self.config.fd_step));
                        i = i + 1;
                    }
                    cols.push(col);
                    k = k + 1;
                }
            }
            if !consistent {
                return Err(
                    OptimiserError::InvalidBounds(
                        String::from_str(
                            "residual vector length changed between evaluations",
                        ),
                    ),
                );
            }
            // damped normal equations (J'J + lambda I) step = -J'r
            let mut jtj: Vec<Vec<T>> = Vec::new();
            let mut i: usize = 0;
            while i < n
                invariant
                    i <= n,
                    jtj@.len() == i,
                    forall|c: int| 0 <= c < i ==> (#[trigger] jtj@[c])@.len() == n,
                    cols@.len() == n,
                    forall|c: int| 0 <= c < n ==> (#[trigger] cols@[c])@.len() == m,
                decreases n - i,
            {
                let mut row: Vec<T> = Vec::new();
                let mut k2: usize = 0;
                while k2 < n
                    invariant
                        k2 <= n,
                        i < n,
                        row@.len() == k2,
                        cols@.len() == n,
                        forall|c: int| 0 <= c < n ==> (#[trigger] cols@[c])@.len() == m,
                    decreases n - k2,
                {
                    let entry = dot(&cols[i], &cols[k2]);
                    if k2 == i {
                        row.push(entry.add(lambda));
                    } else {
                        row.push(entry);
                    }
                    k2 = k2 + 1;
                }
                jtj.push(row);
                i = i + 1;
            }
            let mut rhs: Vec<T> = Vec::new();
            let mut i: usize = 0;
            while i < n
                invariant
                    i <= n,
                    rhs@.len() == i,
                    r_vec@.len() == m,
                    cols@.len() == n,
                    forall|c: int| 0 <= c < n ==> (#[trigger] cols@[c])@.len() == m,
                decreases n - i,
            {
                rhs.push(dot(&cols[i], &r_vec).neg());
                i = i + 1;
            }
            let step = match solve_linear_system(jtj.as_slice(), rhs.as_slice()) {
                Ok(step) => step,
                Err(e) => {
                    proof {
                        assert(square_system(jtj@, rhs@.len() as int));
                    }
                    return Err(e);
                },
            };
            let step_norm = dot(&step, &step).sqrt();
            if lt_s(step_norm, self.config.parameter_tolerance) {
                let outcome = OptimisationResult {
                    parameters: x,
                    objective: ssr,
                    iterations: iteration,
                    function_evaluations: func_evals,
                    converged: true,
                };
                proof {
                    assert(call_ensures(residuals, (&outcome.parameters,), r_vec));
                    assert(spec_objective_from_residuals(
                        residuals,
                        outcome.parameters,
                        outcome.objective,
                    ));
                }
                return Ok(outcome);
            }
            // trial step
            let mut x_new: Vec<T> = Vec::new();
            let mut i: usize = 0;
            while i < n
                invariant
                    i <= n,
                    x_new@.len() == i,
                    x@.len() == n,
                    step@.len() == n,
                decreases n - i,
            {
                x_new.push(x[i].add(step[i]));
                i = i + 1;
            }
            let r_new = residuals(&x_new);
            func_evals = func_evals.saturating_add(1);
            let ssr_new = dot(&r_new, &r_new);

            if lt_s(ssr_new, ssr) {
                x = x_new;
                lambda = lambda.mul(self.config.lambda_decrease);
            } else {
                lambda = lambda.mul(self.config.lambda_increase);
            }
            iteration = iteration + 1;
        }
        let r_fin = residuals(&x);
        let failure = OptimiserError::ConvergenceFailure {
            iterations: self.config.max_iterations,
            residual: dot(&r_fin, &r_fin),
        };
        proof {
            assert(call_ensures(residuals, (&x,), r_fin));
            assert(failure->ConvergenceFailure_residual == spec_dot(r_fin@, r_fin@));
            assert(spec_residual_witnessed(
                residuals,
                initial@.len() as int,
                failure->ConvergenceFailure_residual,
            ));
        }
        Err(failure)
    }
}

impl<T: Scalar> Default for LevenbergMarquardt<T> {
    /// A solver with the default configuration.
    fn default() -> (r: Self)
        ensures
            r.spec_config().max_iterations == 1000,
    {
        LevenbergMarquardt::new()
    }
}

} // verus!
