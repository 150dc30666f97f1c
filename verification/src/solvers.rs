//! Numerical optimisation solvers.
//!
//! A dense linear solver (Gaussian elimination with partial pivoting), the
//! BFGS quasi-Newton solver for unconstrained minimisation, and the
//! Levenberg-Marquardt solver for nonlinear least squares.

pub mod bfgs;
pub mod levenberg_marquardt;
pub mod linear;

use vstd::prelude::*;

use crate::scalar::Scalar;

verus! {

/// Model of the dot product of two equal-length vectors; zero on a length
/// mismatch.
pub open spec fn spec_dot<T: Scalar>(a: Seq<T>, b: Seq<T>) -> T
    decreases a.len(),
{
    if a.len() == 0 || a.len() != b.len() {
        T::sp_zero()
    } else {
        spec_dot(a.drop_last(), b.drop_last()).sp_add(a.last().sp_mul(b.last()))
    }
}

/// Copy a vector of scalars.
pub(crate) fn copy_scalars<T: Scalar>(v: &Vec<T>) -> (r: Vec<T>)
    ensures
        r@ == v@,
{
    let mut r: Vec<T> = Vec::new();
    let mut i: usize = 0;
    while i < v.len()
        invariant
            i <= v@.len(),
            r@.len() == i,
            forall|k: int| 0 <= k < i ==> #[trigger] r@[k] == v@[k],
        decreases v@.len() - i,
    {
        r.push(v[i]);
        i = i + 1;
    }
    proof {
        assert(r@ =~= v@);
    }
    r
}

/// The dot product of two equal-length vectors.
pub(crate) fn dot<T: Scalar>(a: &Vec<T>, b: &Vec<T>) -> (r: T)
    requires
        a@.len() == b@.len(),
    ensures
        r == spec_dot(a@, b@),
{
    let mut acc = T::zero();
    let mut i: usize = 0;
    while i < a.len()
        invariant
            i <= a@.len(),
            a@.len() == b@.len(),
            acc == spec_dot(a@.take(i as int), b@.take(i as int)),
        decreases a@.len() - i,
    {
        proof {
            let ta = a@.take(i as int + 1);
            let tb = b@.take(i as int + 1);
            assert(ta.drop_last() =~= a@.take(i as int));
            assert(tb.drop_last() =~= b@.take(i as int));
            assert(ta.last() == a@[i as int]);
            assert(tb.last() == b@[i as int]);
        }
        acc = acc.add(a[i].mul(b[i]));
        i = i + 1;
    }
    proof {
        assert(a@.take(a@.len() as int) =~= a@);
        assert(b@.take(b@.len() as int) =~= b@);
    }
    acc
}

/// The outcome of a solve: the parameters at convergence (or best effort),
/// the final objective value, and iteration diagnostics.
#[derive(Debug, Clone)]
pub struct OptimisationResult<T> {
    /// Optimal parameters.
    pub parameters: Vec<T>,
    /// Final objective value.
    pub objective: T,
    /// Number of iterations.
    pub iterations: usize,
    /// Number of function evaluations.
    pub function_evaluations: usize,
    /// Convergence status.
    pub converged: bool,
}

} // verus!
