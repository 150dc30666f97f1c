//! The capability contract for 1D interpolation.

use vstd::prelude::*;

use crate::errors::InterpolationError;
use crate::scalar::Scalar;
use crate::scalar::slt;

verus! {

/// Generic 1D interpolation over a closed domain.
///
/// An implementation answers queries inside `domain()` with its model value
/// and rejects queries outside it with an out-of-bounds error that carries
/// the query and the domain. Both standard floating-point scalars and dual
/// numbers for automatic differentiation can be used through the
/// [`Scalar`] abstraction.
pub trait Interpolator<T: Scalar> {
    /// Well-formedness of the interpolator state; established at
    /// construction and preserved thereafter.
    spec fn inv(&self) -> bool;

    /// Model of the valid domain.
    spec fn spec_domain(&self) -> (T, T);

    /// Model of the value answered inside the domain.
    spec fn spec_value(&self, x: T) -> T;

    /// Interpolate at `x`: the model value inside the domain, an
    /// out-of-bounds error carrying `(x, x_min, x_max)` outside it.
    fn interpolate(&self, x: T) -> (r: Result<T, InterpolationError<T>>)
        requires
            self.inv(),
        ensures
            r is Err <==> slt(x, self.spec_domain().0) || slt(self.spec_domain().1, x),
            r is Err ==> r->Err_0 == (InterpolationError::OutOfBounds {
                x,
                min: self.spec_domain().0,
                max: self.spec_domain().1,
            }),
            r is Ok ==> r->Ok_0 == self.spec_value(x),
    ;

    /// The valid interpolation domain `(x_min, x_max)`, with
    /// `x_min <= x_max`.
    fn domain(&self) -> (r: (T, T))
        requires
            self.inv(),
        ensures
            r == self.spec_domain(),
            r.0.sp_le(r.1),
    ;
}

} // verus!
