//! BFGS algorithm for unconstrained optimisation.

use vstd::prelude::*;

use crate::errors::OptimiserError;
use crate::scalar::Scalar;
use crate::scalar::lt_s;
use crate::solvers::OptimisationResult;
use crate::solvers::copy_scalars;
use crate::solvers::dot;
use crate::solvers::spec_dot;

verus! {

/// Configuration for the BFGS solver.
#[derive(Debug, Clone)]
pub struct BfgsConfig<T> {
    /// Maximum iterations.
    pub max_iterations: usize,
    /// Convergence tolerance for the gradient norm.
    pub gradient_tolerance: T,
    /// Convergence tolerance for the objective change.
    pub objective_tolerance: T,
    /// Finite difference step size.
    pub fd_step: T,
    /// Armijo line-search sufficient-decrease coefficient.
    pub c1: T,
    /// Maximum line-search iterations.
    pub max_line_search: usize,
}

impl<T: Scalar> Default for BfgsConfig<T> {
    /// The standard configuration: a thousand iterations, a gradient
    /// tolerance of one millionth, an objective tolerance of one in ten
    /// billion, a finite-difference step of one millionth, an Armijo
    /// coefficient of one in ten thousand, and twenty line-search trials.
    fn default() -> (r: Self)
        ensures
            r.max_iterations == 1000,
            r.gradient_tolerance == T::sp_ratio(1, 1000000),
            r.objective_tolerance == T::sp_ratio(1, 10000000000),
            r.fd_step == T::sp_ratio(1, 1000000),
            r.c1 == T::sp_ratio(1, 10000),
            r.max_line_search == 20,
    {
        BfgsConfig {
            max_iterations: 1000,
            gradient_tolerance: T::ratio(1, 1000000),
            objective_tolerance: T::ratio(1, 10000000000),
            fd_step: T::ratio(1, 1000000),
            c1: T::ratio(1, 10000),
            max_line_search: 20,
        }
    }
}

/// The value `gi` is the forward difference at entry `i`: the objective
/// returned `fp` at `x` with entry `i` bumped by the step, and `gi` is
/// `(fp - f0) / fd`.
pub open spec fn spec_fd_entry<T: Scalar, F: Fn(&Vec<T>) -> T>(
    objective: F,
    x: Vec<T>,
    fd: T,
    f0: T,
    i: int,
    gi: T,
) -> bool {
    exists|xp: Vec<T>, fp: T|
        xp@ == x@.update(i, x@[i].sp_add(fd)) && #[trigger] call_ensures(objective, (&xp,), fp)
            && gi == fp.sp_add(f0.sp_neg()).sp_div(fd)
}

/// Every gradient entry is the forward difference of two values the
/// objective itself returned: one at `x`, one at `x` with the matching
/// entry bumped by the finite-difference step.
pub open spec fn spec_fd_gradient<T: Scalar, F: Fn(&Vec<T>) -> T>(
    objective: F,
    x: Vec<T>,
    fd: T,
    g: Seq<T>,
) -> bool {
    exists|f0: T|
        #[trigger] call_ensures(objective, (&x,), f0) && forall|i: int|
            #![trigger g[i]]
            0 <= i < g.len() ==> spec_fd_entry(objective, x, fd, f0, i, g[i])
}

/// One entry of the BFGS rank-2 inverse-Hessian update
/// `(I - rho s y') H (I - rho y s') + rho s s'`, written with the
/// intermediate products `hy = H y` and `yhy = y' H y` the way the
/// computation forms them.
pub open spec fn spec_bfgs_entry<T: Scalar>(
    h: Seq<Vec<T>>,
    s: Seq<T>,
    y: Seq<T>,
    sy: T,
    i: int,
    j: int,
) -> T {
    let rho = T::sp_one().sp_div(sy);
    let hy = Seq::new(s.len(), |r: int| spec_dot(h[r]@, y));
    let yhy = spec_dot(y, hy);
    let one_plus = T::sp_one().sp_add(rho.sp_mul(yhy));
    let correction = one_plus.sp_mul(s[i]).sp_mul(s[j]).sp_add(
        hy[i].sp_mul(s[j]).sp_neg(),
    ).sp_add(s[i].sp_mul(hy[j]).sp_neg());
    h[i]@[j].sp_add(rho.sp_mul(correction))
}

/// BFGS quasi-Newton solver for unconstrained optimisation.
///
/// Maintains an inverse-Hessian approximation through the
/// Broyden-Fletcher-Goldfarb-Shanno rank-2 update, with forward
/// finite-difference gradients and an Armijo backtracking line search.
pub struct Bfgs<T> {
    config: BfgsConfig<T>,
}

impl<T: Scalar> Bfgs<T> {
    /// The solver's configuration.
    pub closed spec fn spec_config(&self) -> BfgsConfig<T> {
        self.config
    }

    /// Create a new solver with the default configuration.
    pub fn new() -> (r: Self)
        ensures
            r.spec_config().max_iterations == 1000,
    {
        Bfgs { config: BfgsConfig::default() }
    }

    /// Create a new solver with a custom configuration.
    pub fn with_config(config: BfgsConfig<T>) -> (r: Self)
        ensures
            r.spec_config() == config,
    {
        Bfgs { config }
    }

    /// Minimise an objective function from an initial parameter guess.
    ///
    /// Succeeds with a converged result when the gradient norm falls below
    /// the gradient tolerance or the objective change falls below the
    /// objective tolerance; the result's parameters have the same length
    /// as the initial guess and its objective field is a value the
    /// objective function itself returned at exactly those parameters.
    /// Exhausting the iteration budget fails with a convergence-failure
    /// error carrying that budget and the objective's value at the last
    /// accepted point.
    #[verifier::rlimit(60)]
    pub fn minimise<F: Fn(&Vec<T>) -> T>(&self, initial: &Vec<T>, objective: F) -> (r: Result<
        OptimisationResult<T>,
        OptimiserError<T>,
    >)
        requires
            forall|v: &Vec<T>| #[trigger] objective.requires((v,)),
        ensures
            r is Ok ==> {
                let res = r->Ok_0;
                &&& res.parameters@.len() == initial@.len()
                &&& res.converged
                &&& res.iterations < self.spec_config().max_iterations
                &&& call_ensures(objective, (&res.parameters,), res.objective)
            },
            r is Err ==> r->Err_0 is ConvergenceFailure,
            r matches Err(OptimiserError::ConvergenceFailure { iterations, residual }) ==>
                iterations == self.spec_config().max_iterations,
            r matches Err(OptimiserError::ConvergenceFailure { iterations, residual }) ==>
                exists|p: &Vec<T>|
                    p@.len() == initial@.len() && #[trigger] call_ensures(
                        objective,
                        (p,),
                        residual,
                    ),
    {
        let n = initial.len();
        let mut x = copy_scalars(initial);
        let mut func_evals: usize = 0;

        // inverse Hessian approximation, initialised to the identity
        let mut h_inv: Vec<Vec<T>> = Vec::new();
        let mut i: usize = 0;
        while i < n
            invariant
                i <= n,
                h_inv@.len() == i,
                forall|k: int| 0 <= k < i ==> (#[trigger] h_inv@[k])@.len() == n,
            decreases n - i,
        {
            let mut row: Vec<T> = Vec::new();
            let mut j: usize = 0;
            while j < n
                invariant
                    j <= n,
                    i < n,
                    row@.len() == j,
                decreases n - j,
            {
                if j == i {
                    row.push(T::one());
                } else {
                    row.push(T::zero());
                }
                j = j + 1;
            }
            h_inv.push(row);
            i = i + 1;
        }

        let mut f = objective(&x);
        func_evals = func_evals.saturating_add(1);
        let mut g = self.gradient(&x, &objective, &mut func_evals);

        let mut iteration: usize = 0;
        while iteration < self.config.max_iterations
            invariant
                iteration <= self.config.max_iterations,
                self.config == self.spec_config(),
                x@.len() == n,
                n == initial@.len(),
                g@.len() == n,
                h_inv@.len() == n,
                forall|k: int| 0 <= k < n ==> (#[trigger] h_inv@[k])@.len() == n,
                forall|v: &Vec<T>| #[trigger] objective.requires((v,)),
                call_ensures(objective, (&x,), f),
            decreases self.config.max_iterations - iteration,
        {
            // gradient convergence
            let g_norm = dot(&g, &g).sqrt();
            if lt_s(g_norm, self.config.gradient_tolerance) {
                return Ok(
                    OptimisationResult {
                        parameters: x,
                        objective: f,
                        iterations: iteration,
                        function_evaluations: func_evals,
                        converged: true,
                    },
                );
            }
            // search direction p = -(H^-1 g)
            let mut p: Vec<T> = Vec::new();
            let mut i: usize = 0;
            while i < n
                invariant
                    i <= n,
                    p@.len() == i,
                    g@.len() == n,
                    h_inv@.len() == n,
                    forall|k: int| 0 <= k < n ==> (#[trigger] h_inv@[k])@.len() == n,
                decreases n - i,
            {
                let mut acc = T::zero();
                let mut j: usize = 0;
                while j < n
                    invariant
                        j <= n,
                        i < n,
                        g@.len() == n,
                        h_inv@.len() == n,
                        forall|k: int| 0 <= k < n ==> (#[trigger] h_inv@[k])@.len() == n,
                    decreases n - j,
                {
                    acc = acc.sub(h_inv[i][j].mul(g[j]));
                    j = j + 1;
                }
                p.push(acc);
                i = i + 1;
            }
            // backtracking line search with the Armijo condition
            let mut alpha = T::one();
            let f0 = f;
            let slope = dot(&p, &g);
            let half = T::ratio(1, 2);
            let curvature_floor = T::ratio(1, 1000000000000);

            let mut trial: usize = 0;
            let mut accepted = false;
            while trial < self.config.max_line_search && !accepted
                invariant
                    trial <= self.config.max_line_search,
                    self.config == self.spec_config(),
                    x@.len() == n,
                    n == initial@.len(),
                    g@.len() == n,
                    p@.len() == n,
                    h_inv@.len() == n,
                    forall|k: int| 0 <= k < n ==> (#[trigger] h_inv@[k])@.len() == n,
                    forall|v: &Vec<T>| #[trigger] objective.requires((v,)),
                    call_ensures(objective, (&x,), f),
                    iteration < self.config.max_iterations,
                decreases self.config.max_line_search - trial + (if accepted {
                    0int
                } else {
                    1int
                }),
            {
                let mut x_new: Vec<T> = Vec::new();
                let mut i: usize = 0;
                while i < n
                    invariant
                        i <= n,
                        x_new@.len() == i,
                        x@.len() == n,
                        p@.len() == n,
                    decreases n - i,
                {
                    x_new.push(x[i].add(alpha.mul(p[i])));
                    i = i + 1;
                }
                let f_new = objective(&x_new);
                func_evals = func_evals.saturating_add(1);

                if f_new.le(f0.add(self.config.c1.mul(alpha).mul(slope))) {
                    // accept the step
                    let mut s: Vec<T> = Vec::new();
                    let mut i: usize = 0;
                    while i < n
                        invariant
                            i <= n,
                            s@.len() == i,
                            p@.len() == n,
                        decreases n - i,
                    {
                        s.push(alpha.mul(p[i]));
                        i = i + 1;
                    }
                    let g_new = self.gradient(&x_new, &objective, &mut func_evals);
                    let mut y: Vec<T> = Vec::new();
                    let mut i: usize = 0;
                    while i < n
                        invariant
                            i <= n,
                            y@.len() == i,
                            g@.len() == n,
                            g_new@.len() == n,
                        decreases n - i,
                    {
                        y.push(g_new[i].sub(g[i]));
                        i = i + 1;
                    }
                    // objective convergence
                    let df = f.sub(f_new);
                    let df_abs = if lt_s(df, T::zero()) {
                        df.neg()
                    } else {
                        df
                    };
                    if lt_s(df_abs, self.config.objective_tolerance) {
                        return Ok(
                            OptimisationResult {
                                parameters: x_new,
                                objective: f_new,
                                iterations: iteration,
                                function_evaluations: func_evals,
                                converged: true,
                            },
                        );
                    }
                    // rank-2 update, skipped when the curvature condition
                    // fails; the step is still accepted
                    let sy = dot(&s, &y);
                    if lt_s(curvature_floor, sy) {
                        h_inv = Self::bfgs_update(&h_inv, &s, &y, sy);
                    }
                    x = x_new;
                    f = f_new;
                    g = g_new;
                    accepted = true;
                } else {
                    alpha = alpha.mul(half);
                    trial = trial + 1;
                }
            }
            iteration = iteration + 1;
        }
        proof {
            assert(exists|p: &Vec<T>|
                p@.len() == initial@.len() && #[trigger] call_ensures(objective, (p,), f)) by {
                assert(x@.len() == initial@.len() && call_ensures(objective, (&x,), f));
            }
        }
        let failure = OptimiserError::ConvergenceFailure {
            iterations: self.config.max_iterations,
            residual: f,
        };
        proof {
            assert(call_ensures(objective, (&x,), failure->ConvergenceFailure_residual));
            assert(failure matches OptimiserError::ConvergenceFailure { iterations, residual }
                ==> exists|p: &Vec<T>|
                    p@.len() == initial@.len() && #[trigger] call_ensures(
                        objective,
                        (p,),
                        residual,
                    ));
        }
        Err(failure)
    }

    /// Forward finite-difference gradient of the objective at `x`: every
    /// entry pinned to a forward difference of the objective's own
    /// values.
    fn gradient<F: Fn(&Vec<T>) -> T>(&self, x: &Vec<T>, objective: &F, func_evals: &mut usize)
        -> (r: Vec<T>)
        requires
            forall|v: &Vec<T>| #[trigger] (*objective).requires((v,)),
        ensures
            r@.len() == x@.len(),
            spec_fd_gradient(*objective, *x, self.spec_config().fd_step, r@),
    {
        let n = x.len();
        let mut grad: Vec<T> = Vec::new();
        let f0 = objective(x);
        *func_evals = func_evals.saturating_add(1);

        let mut i: usize = 0;
        while i < n
            invariant
                i <= n,
                n == x@.len(),
                grad@.len() == i,
                self.config == self.spec_config(),
                forall|v: &Vec<T>| #[trigger] (*objective).requires((v,)),
                call_ensures(*objective, (x,), f0),
                forall|k: int|
                    #![trigger grad@[k]]
                    0 <= k < i ==> spec_fd_entry(
                        *objective,
                        *x,
                        self.spec_config().fd_step,
                        f0,
                        k,
                        grad@[k],
                    ),
            decreases n - i,
        {
            let mut x_plus = copy_scalars(x);
            let xi = x_plus[i];
            x_plus.set(i, xi.add(self.config.fd_step));
            let f_plus = objective(&x_plus);
            *func_evals = func_evals.saturating_add(1);
            grad.push(f_plus.sub(f0).div(self.config.fd_step));
            proof {
                assert(x_plus@ == x@.update(i as int, x@[i as int].sp_add(
                    self.spec_config().fd_step,
                )));
                assert(call_ensures(*objective, (&x_plus,), f_plus));
                assert(grad@[i as int] == f_plus.sp_add(f0.sp_neg()).sp_div(
                    self.spec_config().fd_step,
                ));
                assert(spec_fd_entry(
                    *objective,
                    *x,
                    self.spec_config().fd_step,
                    f0,
                    i as int,
                    grad@[i as int],
                ));
            }
            i = i + 1;
        }
        proof {
            assert(call_ensures(*objective, (&*x,), f0));
            assert(spec_fd_gradient(*objective, *x, self.spec_config().fd_step, grad@));
        }
        grad
    }

    /// The BFGS inverse-Hessian rank-2 update
    /// `(I - rho s y') H (I - rho y s') + rho s s'`, built as a fresh
    /// matrix whose every entry is pinned to the update formula.
    fn bfgs_update(h_inv: &Vec<Vec<T>>, s: &Vec<T>, y: &Vec<T>, sy: T) -> (r: Vec<Vec<T>>)
        requires
            h_inv@.len() == s@.len(),
            y@.len() == s@.len(),
            forall|k: int| 0 <= k < h_inv@.len() ==> (#[trigger] h_inv@[k])@.len() == s@.len(),
        ensures
            r@.len() == s@.len(),
            forall|k: int| 0 <= k < r@.len() ==> (#[trigger] r@[k])@.len() == s@.len(),
            forall|i: int, j: int|
                0 <= i < s@.len() && 0 <= j < s@.len() ==> #[trigger] r@[i]@[j]
                    == spec_bfgs_entry(h_inv@, s@, y@, sy, i, j),
    {
        let n = s.len();
        let rho = T::one().div(sy);
        let ghost hyspec = Seq::new(s@.len(), |r: int| spec_dot(h_inv@[r]@, y@));

        // hy = H y
        let mut hy: Vec<T> = Vec::new();
        let mut i: usize = 0;
        while i < n
            invariant
                i <= n,
                hy@.len() == i,
                n == s@.len(),
                y@.len() == n,
                h_inv@.len() == n,
                forall|k: int| 0 <= k < n ==> (#[trigger] h_inv@[k])@.len() == n,
                hyspec == Seq::new(s@.len(), |r: int| spec_dot(h_inv@[r]@, y@)),
                forall|k: int| 0 <= k < i ==> #[trigger] hy@[k] == hyspec[k],
            decreases n - i,
        {
            let hrow = &h_inv[i];
            let acc = dot(hrow, y);
            hy.push(acc);
            i = i + 1;
        }
        proof {
            assert(hy@ =~= hyspec);
        }
        let yhy = dot(y, &hy);
        let one_plus = T::one().add(rho.mul(yhy));

        let mut out: Vec<Vec<T>> = Vec::new();
        let mut i: usize = 0;
        while i < n
            invariant
                i <= n,
                out@.len() == i,
                forall|k: int| 0 <= k < i ==> (#[trigger] out@[k])@.len() == n,
                forall|a: int, c: int|
                    0 <= a < i && 0 <= c < n ==> #[trigger] out@[a]@[c] == spec_bfgs_entry(
                        h_inv@,
                        s@,
                        y@,
                        sy,
                        a,
                        c,
                    ),
                n == s@.len(),
                y@.len() == n,
                hy@.len() == n,
                hy@ == hyspec,
                hyspec == Seq::new(s@.len(), |r: int| spec_dot(h_inv@[r]@, y@)),
                rho == T::sp_one().sp_div(sy),
                one_plus == T::sp_one().sp_add(rho.sp_mul(spec_dot(y@, hyspec))),
                h_inv@.len() == n,
                forall|k: int| 0 <= k < n ==> (#[trigger] h_inv@[k])@.len() == n,
            decreases n - i,
        {
            let mut row: Vec<T> = Vec::new();
            let mut j: usize = 0;
            while j < n
                invariant
                    j <= n,
                    i < n,
                    row@.len() == j,
                    forall|c: int|
                        0 <= c < j ==> #[trigger] row@[c] == spec_bfgs_entry(
                            h_inv@,
                            s@,
                            y@,
                            sy,
                            i as int,
                            c,
                        ),
                    n == s@.len(),
                    y@.len() == n,
                    hy@.len() == n,
                    hy@ == hyspec,
                    hyspec == Seq::new(s@.len(), |r: int| spec_dot(h_inv@[r]@, y@)),
                    rho == T::sp_one().sp_div(sy),
                    one_plus == T::sp_one().sp_add(rho.sp_mul(spec_dot(y@, hyspec))),
                    h_inv@.len() == n,
                    forall|k: int| 0 <= k < n ==> (#[trigger] h_inv@[k])@.len() == n,
                decreases n - j,
            {
                let correction = one_plus.mul(s[i]).mul(s[j]).sub(hy[i].mul(s[j])).sub(
                    s[i].mul(hy[j]),
                );
                row.push(h_inv[i][j].add(rho.mul(correction)));
                j = j + 1;
            }
            out.push(row);
            i = i + 1;
        }
        out
    }
}

impl<T: Scalar> Default for Bfgs<T> {
    /// A solver with the default configuration.
    fn default() -> (r: Self)
        ensures
            r.spec_config().max_iterations == 1000,
    {
        Bfgs::new()
    }
}

} // verus!
