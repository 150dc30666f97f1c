//! Smooth approximations for discontinuous functions.
//!
//! Differentiable surrogates replace discontinuous operations (max, min,
//! abs, indicator) so that the surrounding pricing code stays differentiable
//! end-to-end: hard `if` branches on differentiable quantities are replaced
//! by log-sum-exp and sigmoid forms with a tunable sharpness `epsilon`.
//!
//! Each function carries an exact functional contract against its model, and
//! the module proves the surrogates' defining properties: the min/max
//! duality, the two-sided `O(epsilon)` envelope of `smooth_max`, the `[0, 1]`
//! range and monotonicity of the sigmoid indicator, and the evenness and
//! non-negativity of the smooth absolute value.

use vstd::prelude::*;

use crate::scalar::Scalar;
use crate::scalar::lemma_div_le;
use crate::scalar::lemma_div_nonpos;
use crate::scalar::lemma_le_slt_trans;
use crate::scalar::lemma_mul_nonneg;
use crate::scalar::lemma_neg_add;
use crate::scalar::lemma_not_slt;
use crate::scalar::lemma_neg_le;
use crate::scalar::lemma_neg_neg;
use crate::scalar::lemma_neg_zero;
use crate::scalar::lemma_recip_of_large;
use crate::scalar::lemma_slt_le_trans;
use crate::scalar::lemma_zero_div;
use crate::scalar::lt_s;
use crate::scalar::slt;

verus! {

/// The larger of two scalars under the model order.
pub open spec fn spec_max<T: Scalar>(a: T, b: T) -> T {
    if slt(b, a) {
        a
    } else {
        b
    }
}

/// The smaller of two scalars under the model order.
pub open spec fn spec_min<T: Scalar>(a: T, b: T) -> T {
    if slt(b, a) {
        b
    } else {
        a
    }
}

/// The scalar two.
pub open spec fn spec_two<T: Scalar>() -> T {
    T::sp_one().sp_add(T::sp_one())
}

/// Model of [`smooth_max`]: the stabilised log-sum-exp
/// `m + epsilon * ln(exp((a - m) / epsilon) + exp((b - m) / epsilon))` with
/// `m = max(a, b)`.
pub open spec fn spec_smooth_max<T: Scalar>(a: T, b: T, epsilon: T) -> T {
    let m = spec_max(a, b);
    let ea = a.sp_add(m.sp_neg()).sp_div(epsilon).sp_exp();
    let eb = b.sp_add(m.sp_neg()).sp_div(epsilon).sp_exp();
    m.sp_add(epsilon.sp_mul(ea.sp_add(eb).sp_ln()))
}

/// Model of [`smooth_min`]: the exact dual `-smooth_max(-a, -b, epsilon)`.
pub open spec fn spec_smooth_min<T: Scalar>(a: T, b: T, epsilon: T) -> T {
    spec_smooth_max(a.sp_neg(), b.sp_neg(), epsilon).sp_neg()
}

/// Model of [`smooth_indicator`]: the logistic sigmoid
/// `1 / (1 + exp(-x / epsilon))`.
pub open spec fn spec_smooth_indicator<T: Scalar>(x: T, epsilon: T) -> T {
    T::sp_one().sp_div(T::sp_one().sp_add(x.sp_neg().sp_div(epsilon).sp_exp()))
}

/// Model of [`smooth_abs`]: the softplus form
/// `epsilon * ln(exp(x / epsilon) + exp(-x / epsilon))`, computed as the
/// smooth maximum of `x` and `-x` so that the exponents stay centred.
pub open spec fn spec_smooth_abs<T: Scalar>(x: T, epsilon: T) -> T {
    spec_smooth_max(x, x.sp_neg(), epsilon)
}

/// Differentiable maximum via numerically centred log-sum-exp.
///
/// The comparison that picks the centring shift `m` selects a constant
/// offset only, never which branch of the result is returned, so the result
/// stays smooth in `a` and `b`. A non-positive `epsilon` is a programming
/// error and is excluded by precondition.
pub fn smooth_max<T: Scalar>(a: T, b: T, epsilon: T) -> (r: T)
    requires
        slt(T::sp_zero(), epsilon),
    ensures
        r == spec_smooth_max(a, b, epsilon),
{
    let m = if lt_s(b, a) {
        a
    } else {
        b
    };
    let exp_a = a.sub(m).div(epsilon).exp();
    let exp_b = b.sub(m).div(epsilon).exp();
    m.add(epsilon.mul(exp_a.add(exp_b).ln()))
}

/// Differentiable minimum, the exact dual of [`smooth_max`].
pub fn smooth_min<T: Scalar>(a: T, b: T, epsilon: T) -> (r: T)
    requires
        slt(T::sp_zero(), epsilon),
    ensures
        r == spec_smooth_min(a, b, epsilon),
        r == spec_smooth_max(a.sp_neg(), b.sp_neg(), epsilon).sp_neg(),
{
    smooth_max(a.neg(), b.neg(), epsilon).neg()
}

/// Differentiable Heaviside step via the logistic sigmoid.
pub fn smooth_indicator<T: Scalar>(x: T, epsilon: T) -> (r: T)
    requires
        slt(T::sp_zero(), epsilon),
    ensures
        r == spec_smooth_indicator(x, epsilon),
{
    let one = T::one();
    one.div(one.add(x.neg().div(epsilon).exp()))
}

/// Differentiable absolute value via a softplus form: the centred
/// log-sum-exp of `x` and `-x`.
pub fn smooth_abs<T: Scalar>(x: T, epsilon: T) -> (r: T)
    requires
        slt(T::sp_zero(), epsilon),
    ensures
        r == spec_smooth_abs(x, epsilon),
{
    smooth_max(x, x.neg(), epsilon)
}

/// Both arguments lie at or below their maximum, and one attains it.
proof fn lemma_max_attained<T: Scalar>(a: T, b: T)
    ensures
        a.sp_le(spec_max(a, b)),
        b.sp_le(spec_max(a, b)),
        a == spec_max(a, b) || b == spec_max(a, b),
{
    T::law_le_refl(a);
    T::law_le_refl(b);
    if !slt(b, a) {
        T::law_le_total(a, b);
    }
}

/// A shifted exponent `exp((c - m) / epsilon)` with `c <= m` is positive and
/// at most one; it equals one when `c == m`.
proof fn lemma_shifted_exp<T: Scalar>(c: T, m: T, epsilon: T)
    requires
        c.sp_le(m),
        slt(T::sp_zero(), epsilon),
    ensures
        slt(T::sp_zero(), c.sp_add(m.sp_neg()).sp_div(epsilon).sp_exp()),
        c.sp_add(m.sp_neg()).sp_div(epsilon).sp_exp().sp_le(T::sp_one()),
        c == m ==> c.sp_add(m.sp_neg()).sp_div(epsilon).sp_exp() == T::sp_one(),
{
    let d = c.sp_add(m.sp_neg());
    let u = d.sp_div(epsilon);
    T::law_add_le(c, m, m.sp_neg());
    T::law_add_neg(m);
    assert(d.sp_le(T::sp_zero()));
    lemma_div_nonpos(d, epsilon);
    T::law_exp_le(u, T::sp_zero());
    T::law_exp_zero();
    T::law_exp_pos(u);
    if c == m {
        lemma_zero_div(epsilon);
        assert(u == T::sp_zero());
    }
}

/// The exact min/max duality: `smooth_min(a, b, epsilon)` is
/// `-smooth_max(-a, -b, epsilon)`, with no error term.
pub proof fn lemma_smooth_min_duality<T: Scalar>(a: T, b: T, epsilon: T)
    ensures
        spec_smooth_min(a, b, epsilon) == spec_smooth_max(
            a.sp_neg(),
            b.sp_neg(),
            epsilon,
        ).sp_neg(),
{
}

/// The two-sided envelope of the smooth maximum: it never under-estimates
/// the true maximum and over-estimates it by at most `epsilon * ln(2)`.
pub proof fn lemma_smooth_max_bounds<T: Scalar>(a: T, b: T, epsilon: T)
    requires
        slt(T::sp_zero(), epsilon),
    ensures
        spec_max(a, b).sp_le(spec_smooth_max(a, b, epsilon)),
        spec_smooth_max(a, b, epsilon).sp_le(
            spec_max(a, b).sp_add(epsilon.sp_mul(spec_two::<T>().sp_ln())),
        ),
{
    let m = spec_max(a, b);
    let one = T::sp_one();
    let zero = T::sp_zero();
    let ea = a.sp_add(m.sp_neg()).sp_div(epsilon).sp_exp();
    let eb = b.sp_add(m.sp_neg()).sp_div(epsilon).sp_exp();
    let s = ea.sp_add(eb);
    let two = spec_two::<T>();
    lemma_max_attained(a, b);
    lemma_shifted_exp(a, m, epsilon);
    lemma_shifted_exp(b, m, epsilon);
    T::law_zero_lt_one();

    // one of the two exponents is exactly one, and both are positive,
    // so the sum is strictly above one
    if a == m {
        T::law_add_le(zero, eb, one);
        T::law_add_comm(zero, one);
        T::law_add_zero(one);
        T::law_add_comm(eb, one);
        assert(one.sp_le(s));
        if s == one {
            T::law_add_zero(one);
            crate::scalar::lemma_add_cancel(eb, zero, one);
        }
    } else {
        T::law_add_le(zero, ea, one);
        T::law_add_comm(zero, one);
        T::law_add_zero(one);
        T::law_add_comm(ea, one);
        T::law_add_comm(ea, eb);
        assert(one.sp_le(s));
        if s == one {
            T::law_add_zero(one);
            crate::scalar::lemma_add_cancel(ea, zero, one);
        }
    }
    assert(slt(one, s));

    // lower bound: ln(s) >= ln(1) = 0, so m + epsilon * ln(s) >= m
    T::law_ln_le(one, s);
    T::law_ln_one();
    assert(zero.sp_le(s.sp_ln()));
    lemma_mul_nonneg(epsilon, s.sp_ln());
    T::law_add_le(zero, epsilon.sp_mul(s.sp_ln()), m);
    T::law_add_comm(zero, m);
    T::law_add_zero(m);
    T::law_add_comm(epsilon.sp_mul(s.sp_ln()), m);
    assert(m.sp_le(spec_smooth_max(a, b, epsilon)));

    // upper bound: s <= 2, so ln(s) <= ln(2)
    T::law_add_le(ea, one, eb);
    T::law_add_comm(one, eb);
    T::law_add_le(eb, one, one);
    T::law_add_comm(eb, one);
    T::law_le_trans(s, one.sp_add(eb), two);
    lemma_slt_le_trans(zero, one, s);
    T::law_ln_le(s, two);
    T::law_mul_le(s.sp_ln(), two.sp_ln(), epsilon);
    T::law_mul_comm(s.sp_ln(), epsilon);
    T::law_mul_comm(two.sp_ln(), epsilon);
    T::law_add_le(epsilon.sp_mul(s.sp_ln()), epsilon.sp_mul(two.sp_ln()), m);
    T::law_add_comm(epsilon.sp_mul(s.sp_ln()), m);
    T::law_add_comm(epsilon.sp_mul(two.sp_ln()), m);
}

/// The dual envelope of the smooth minimum: it never over-estimates the
/// true minimum and under-estimates it by at most `epsilon * ln(2)`.
pub proof fn lemma_smooth_min_bounds<T: Scalar>(a: T, b: T, epsilon: T)
    requires
        slt(T::sp_zero(), epsilon),
    ensures
        spec_smooth_min(a, b, epsilon).sp_le(spec_min(a, b)),
        spec_min(a, b).sp_add(epsilon.sp_mul(spec_two::<T>().sp_ln()).sp_neg()).sp_le(
            spec_smooth_min(a, b, epsilon),
        ),
{
    let m = spec_max(a.sp_neg(), b.sp_neg());
    let mn = spec_min(a, b);
    let sm = spec_smooth_max(a.sp_neg(), b.sp_neg(), epsilon);
    let c = epsilon.sp_mul(spec_two::<T>().sp_ln());
    lemma_smooth_max_bounds(a.sp_neg(), b.sp_neg(), epsilon);

    // the maximum of the negations is the negation of the minimum
    lemma_neg_min_max(a, b);
    assert(m == mn.sp_neg());

    // negate both sides of each bound
    lemma_neg_le(m, sm);
    lemma_neg_neg(mn);
    assert(sm.sp_neg().sp_le(mn));
    lemma_neg_le(sm, m.sp_add(c));
    lemma_neg_add(m, c);
    assert(m.sp_add(c).sp_neg() == mn.sp_add(c.sp_neg()));
}

/// Negating both arguments swaps minimum and maximum.
proof fn lemma_neg_min_max<T: Scalar>(a: T, b: T)
    ensures
        spec_max(a.sp_neg(), b.sp_neg()) == spec_min(a, b).sp_neg(),
{
    if slt(b.sp_neg(), a.sp_neg()) {
        // the maximum picks -a, so the minimum must pick a
        if slt(b, a) {
            lemma_neg_le(b, a);
            T::law_le_antisym(a.sp_neg(), b.sp_neg());
        }
    } else {
        // the maximum picks -b; the minimum picks b, or the two coincide
        if !slt(b, a) {
            if a != b {
                T::law_le_total(a, b);
                if b.sp_le(a) {
                    T::law_le_refl(b);
                }
                assert(a.sp_le(b));
                lemma_neg_le(a, b);
                if b.sp_neg() != a.sp_neg() {
                    assert(slt(b.sp_neg(), a.sp_neg()));
                }
                lemma_neg_neg(a);
                lemma_neg_neg(b);
            }
        }
    }
}

/// The sigmoid indicator lies strictly between zero and one.
pub proof fn lemma_smooth_indicator_bounds<T: Scalar>(x: T, epsilon: T)
    requires
        slt(T::sp_zero(), epsilon),
    ensures
        T::sp_zero().sp_le(spec_smooth_indicator(x, epsilon)),
        spec_smooth_indicator(x, epsilon).sp_le(T::sp_one()),
{
    let one = T::sp_one();
    let t = x.sp_neg().sp_div(epsilon).sp_exp();
    let d = one.sp_add(t);
    T::law_exp_pos(x.sp_neg().sp_div(epsilon));
    T::law_add_le(T::sp_zero(), t, one);
    T::law_add_comm(T::sp_zero(), one);
    T::law_add_zero(one);
    T::law_add_comm(t, one);
    assert(one.sp_le(d));
    if d == one {
        T::law_add_zero(one);
        crate::scalar::lemma_add_cancel(t, T::sp_zero(), one);
    }
    lemma_recip_of_large(d);
}

/// The sigmoid indicator is monotone non-decreasing in its first argument.
pub proof fn lemma_smooth_indicator_monotone<T: Scalar>(x1: T, x2: T, epsilon: T)
    requires
        x1.sp_le(x2),
        slt(T::sp_zero(), epsilon),
    ensures
        spec_smooth_indicator(x1, epsilon).sp_le(spec_smooth_indicator(x2, epsilon)),
{
    let one = T::sp_one();
    let zero = T::sp_zero();
    let t1 = x1.sp_neg().sp_div(epsilon).sp_exp();
    let t2 = x2.sp_neg().sp_div(epsilon).sp_exp();
    let d1 = one.sp_add(t1);
    let d2 = one.sp_add(t2);
    lemma_neg_le(x1, x2);
    lemma_div_le(x2.sp_neg(), x1.sp_neg(), epsilon);
    T::law_exp_le(x2.sp_neg().sp_div(epsilon), x1.sp_neg().sp_div(epsilon));
    assert(t2.sp_le(t1));
    T::law_add_le(t2, t1, one);
    T::law_add_comm(t2, one);
    T::law_add_comm(t1, one);
    assert(d2.sp_le(d1));
    T::law_exp_pos(x2.sp_neg().sp_div(epsilon));
    T::law_zero_lt_one();
    T::law_add_le(zero, t2, one);
    T::law_add_comm(zero, one);
    T::law_add_zero(one);
    T::law_add_comm(t2, one);
    assert(one.sp_le(d2));
    lemma_slt_le_trans(zero, one, d2);
    assert(slt(zero, d2));
    T::law_zero_lt_one();
    crate::scalar::lemma_div_antitone_denom(one, d2, d1);
}

/// The smooth maximum is symmetric in its two arguments.
pub proof fn lemma_smooth_max_comm<T: Scalar>(a: T, b: T, epsilon: T)
    ensures
        spec_smooth_max(a, b, epsilon) == spec_smooth_max(b, a, epsilon),
{
    if slt(b, a) {
        if slt(a, b) {
            T::law_le_antisym(a, b);
        }
        assert(spec_max(a, b) == spec_max(b, a));
    } else {
        if !slt(a, b) {
            lemma_not_slt(b, a);
            lemma_not_slt(a, b);
            T::law_le_antisym(a, b);
        }
        assert(spec_max(a, b) == spec_max(b, a));
    }
    let m = spec_max(a, b);
    let ea = a.sp_add(m.sp_neg()).sp_div(epsilon).sp_exp();
    let eb = b.sp_add(m.sp_neg()).sp_div(epsilon).sp_exp();
    T::law_add_comm(ea, eb);
}

/// The smooth absolute value is an exactly even function.
pub proof fn lemma_smooth_abs_even<T: Scalar>(x: T, epsilon: T)
    requires
        slt(T::sp_zero(), epsilon),
    ensures
        spec_smooth_abs(x.sp_neg(), epsilon) == spec_smooth_abs(x, epsilon),
{
    lemma_neg_neg(x);
    lemma_smooth_max_comm(x.sp_neg(), x, epsilon);
}

/// The smooth absolute value is non-negative; indeed it never falls below
/// the true absolute value, and it overshoots it by at most
/// `epsilon * ln(2)`.
pub proof fn lemma_smooth_abs_nonneg<T: Scalar>(x: T, epsilon: T)
    requires
        slt(T::sp_zero(), epsilon),
    ensures
        T::sp_zero().sp_le(spec_smooth_abs(x, epsilon)),
        spec_max(x, x.sp_neg()).sp_le(spec_smooth_abs(x, epsilon)),
        spec_smooth_abs(x, epsilon).sp_le(
            spec_max(x, x.sp_neg()).sp_add(epsilon.sp_mul(spec_two::<T>().sp_ln())),
        ),
{
    let zero = T::sp_zero();
    let m = spec_max(x, x.sp_neg());
    lemma_smooth_max_bounds(x, x.sp_neg(), epsilon);
    lemma_max_attained(x, x.sp_neg());
    T::law_le_total(zero, x);
    if zero.sp_le(x) {
        T::law_le_trans(zero, x, m);
    } else {
        lemma_not_slt(zero, x);
        assert(x.sp_le(zero));
        lemma_neg_le(x, zero);
        lemma_neg_zero::<T>();
        T::law_le_trans(zero, x.sp_neg(), m);
    }
    T::law_le_trans(zero, m, spec_smooth_abs(x, epsilon));
}

} // verus!
