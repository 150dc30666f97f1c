//! Branch-free smooth interpolation for automatic-differentiation
//! compatibility.

use vstd::prelude::*;

use crate::errors::InterpolationError;
use crate::scalar::Scalar;
use crate::scalar::slt;
use crate::smoothing::smooth_indicator;
use crate::smoothing::spec_smooth_indicator;

verus! {

/// Model of the sigmoid weight of segment `i`: approximately one when `x`
/// lies inside the segment and approximately zero outside it.
pub open spec fn spec_segment_weight<T: Scalar>(xs: Seq<T>, x: T, epsilon: T, i: int) -> T {
    spec_smooth_indicator(x.sp_add(xs[i].sp_neg()), epsilon).sp_add(
        spec_smooth_indicator(x.sp_add(xs[i + 1].sp_neg()), epsilon).sp_neg(),
    )
}

/// Model of the linear interpolation of segment `i` at `x`.
pub open spec fn spec_segment_linear<T: Scalar>(xs: Seq<T>, ys: Seq<T>, x: T, i: int) -> T {
    let h = xs[i + 1].sp_add(xs[i].sp_neg());
    let t = x.sp_add(xs[i].sp_neg()).sp_div(h);
    ys[i].sp_add(ys[i + 1].sp_add(ys[i].sp_neg()).sp_mul(t))
}

/// Model of the running weighted sum over the first `k` segments.
pub open spec fn spec_weighted_sum<T: Scalar>(xs: Seq<T>, ys: Seq<T>, x: T, epsilon: T, k: int) -> T
    decreases k,
{
    if k <= 0 {
        T::sp_zero()
    } else {
        spec_weighted_sum(xs, ys, x, epsilon, k - 1).sp_add(
            spec_segment_weight(xs, x, epsilon, k - 1).sp_mul(
                spec_segment_linear(xs, ys, x, k - 1),
            ),
        )
    }
}

/// Model of the running total weight over the first `k` segments.
pub open spec fn spec_weight_total<T: Scalar>(xs: Seq<T>, x: T, epsilon: T, k: int) -> T
    decreases k,
{
    if k <= 0 {
        T::sp_zero()
    } else {
        spec_weight_total(xs, x, epsilon, k - 1).sp_add(spec_segment_weight(xs, x, epsilon, k - 1))
    }
}

/// The guard added to the total weight so that the final division is
/// defined even far outside the domain, where every weight vanishes.
pub open spec fn spec_weight_guard<T: Scalar>() -> T {
    T::sp_ratio(1, 1000000000000000).sp_mul(T::sp_ratio(1, 1000000000000000))
}

/// Model of [`smooth_interp`]: every segment's linear value weighted by
/// its sigmoid window, normalised by the guarded total weight.
pub open spec fn spec_smooth_interp<T: Scalar>(xs: Seq<T>, ys: Seq<T>, x: T, epsilon: T) -> T {
    let k = xs.len() - 1;
    spec_weighted_sum(xs, ys, x, epsilon, k).sp_div(
        spec_weight_total(xs, x, epsilon, k).sp_add(spec_weight_guard::<T>()),
    )
}

/// Branch-free smooth linear interpolation.
///
/// Segments are selected by sigmoid-weighted blending instead of
/// conditional branches, so every segment contributes and the inactive
/// contributions vanish smoothly as `epsilon` shrinks; as `epsilon` tends
/// to zero the result converges to ordinary linear interpolation. The
/// abscissae are expected sorted ascending; no bounds check rejects a
/// query outside the domain.
pub fn smooth_interp<T: Scalar>(xs: &[T], ys: &[T], x: T, epsilon: T) -> (r: Result<
    T,
    InterpolationError<T>,
>)
    requires
        xs@.len() == ys@.len() && xs@.len() >= 2 ==> slt(T::sp_zero(), epsilon),
    ensures
        (xs@.len() != ys@.len()) <==> (r is Err && r->Err_0 is InvalidInput),
        (xs@.len() == ys@.len() && xs@.len() < 2) <==> (r is Err
            && r->Err_0 is InsufficientData),
        r matches Err(InterpolationError::InsufficientData { got, need }) ==> got == xs@.len()
            && need == 2,
        r is Ok <==> (xs@.len() == ys@.len() && xs@.len() >= 2),
        r is Ok ==> r->Ok_0 == spec_smooth_interp(xs@, ys@, x, epsilon),
{
    if xs.len() != ys.len() {
        return Err(
            InterpolationError::InvalidInput(String::from_str("xs and ys must have same length")),
        );
    }
    if xs.len() < 2 {
        return Err(InterpolationError::InsufficientData { got: xs.len(), need: 2 });
    }
    let n = xs.len();
    let mut weighted_sum = T::zero();
    let mut weight_sum = T::zero();
    let mut i: usize = 0;
    while i < n - 1
        invariant
            i <= n - 1,
            n == xs@.len(),
            n == ys@.len(),
            n >= 2,
            slt(T::sp_zero(), epsilon),
            weighted_sum == spec_weighted_sum(xs@, ys@, x, epsilon, i as int),
            weight_sum == spec_weight_total(xs@, x, epsilon, i as int),
        decreases n - 1 - i,
    {
        let indicator_left = smooth_indicator(x.sub(xs[i]), epsilon);
        let indicator_right = smooth_indicator(x.sub(xs[i + 1]), epsilon);
        let weight = indicator_left.sub(indicator_right);
        let h = xs[i + 1].sub(xs[i]);
        let t = x.sub(xs[i]).div(h);
        let y_segment = ys[i].add(ys[i + 1].sub(ys[i]).mul(t));
        weighted_sum = weighted_sum.add(weight.mul(y_segment));
        weight_sum = weight_sum.add(weight);
        i = i + 1;
    }
    let tiny = T::ratio(1, 1000000000000000).mul(T::ratio(1, 1000000000000000));
    Ok(weighted_sum.div(weight_sum.add(tiny)))
}

} // verus!
