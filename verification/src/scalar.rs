//! The scalar abstraction every numeric algorithm in this crate is generic
//! over.
//!
//! [`Scalar`] describes an ordered field equipped with `exp`, `ln` and
//! `sqrt`. Each implementation supplies an abstract mathematical model
//! through the `sp_*` specification functions, executable operations that
//! agree with that model, and proofs of the usual ordered-field laws. The
//! algorithms in this crate are verified against those laws alone, so a
//! dual/AD-enabled scalar can stand in for a plain floating-point type
//! without any change to the verified code.
//!
//! A floating-point implementation satisfies the laws only up to rounding;
//! such an implementation lives with the caller (it cannot be verified
//! here), and every result proved through this trait holds of it to the
//! accuracy with which it honours the laws.

use vstd::prelude::*;

verus! {

/// Strict order derived from the total order of a [`Scalar`].
pub open spec fn slt<T: Scalar>(a: T, b: T) -> bool {
    a.sp_le(b) && a != b
}

/// The magnitude of a scalar under the model order.
pub open spec fn spec_abs<T: Scalar>(x: T) -> T {
    if slt(x, T::sp_zero()) {
        x.sp_neg()
    } else {
        x
    }
}

/// An ordered field with `exp`, `ln` and `sqrt`; the scalar type of every
/// algorithm in this crate.
pub trait Scalar: Sized + Copy {
    /// Model of the additive identity.
    spec fn sp_zero() -> Self;

    /// Model of the multiplicative identity.
    spec fn sp_one() -> Self;

    /// Model of addition.
    spec fn sp_add(self, rhs: Self) -> Self;

    /// Model of multiplication.
    spec fn sp_mul(self, rhs: Self) -> Self;

    /// Model of division.
    spec fn sp_div(self, rhs: Self) -> Self;

    /// Model of negation.
    spec fn sp_neg(self) -> Self;

    /// Model of the total order.
    spec fn sp_le(self, rhs: Self) -> bool;

    /// Model of the exponential function.
    spec fn sp_exp(self) -> Self;

    /// Model of the natural logarithm.
    spec fn sp_ln(self) -> Self;

    /// Model of the square root.
    spec fn sp_sqrt(self) -> Self;

    /// Model of the smallest magnitude this scalar type resolves; used as a
    /// flatness threshold by the interpolators.
    spec fn sp_eps() -> Self;

    /// Model of the value `num / den`; how the algorithms obtain their
    /// numeric constants (tolerances, damping factors).
    spec fn sp_ratio(num: i64, den: u64) -> Self;

    fn zero() -> (r: Self)
        ensures
            r == Self::sp_zero(),
    ;

    fn one() -> (r: Self)
        ensures
            r == Self::sp_one(),
    ;

    fn add(self, rhs: Self) -> (r: Self)
        ensures
            r == self.sp_add(rhs),
    ;

    fn sub(self, rhs: Self) -> (r: Self)
        ensures
            r == self.sp_add(rhs.sp_neg()),
    ;

    fn mul(self, rhs: Self) -> (r: Self)
        ensures
            r == self.sp_mul(rhs),
    ;

    fn div(self, rhs: Self) -> (r: Self)
        ensures
            r == self.sp_div(rhs),
    ;

    fn neg(self) -> (r: Self)
        ensures
            r == self.sp_neg(),
    ;

    fn le(self, rhs: Self) -> (r: bool)
        ensures
            r == self.sp_le(rhs),
    ;

    fn exp(self) -> (r: Self)
        ensures
            r == self.sp_exp(),
    ;

    fn ln(self) -> (r: Self)
        ensures
            r == self.sp_ln(),
    ;

    fn sqrt(self) -> (r: Self)
        ensures
            r == self.sp_sqrt(),
    ;

    fn eps() -> (r: Self)
        ensures
            r == Self::sp_eps(),
    ;

    fn ratio(num: i64, den: u64) -> (r: Self)
        requires
            den > 0,
        ensures
            r == Self::sp_ratio(num, den),
    ;

    /// The order is reflexive.
    proof fn law_le_refl(x: Self)
        ensures
            x.sp_le(x),
    ;

    /// The order is transitive.
    proof fn law_le_trans(x: Self, y: Self, z: Self)
        requires
            x.sp_le(y),
            y.sp_le(z),
        ensures
            x.sp_le(z),
    ;

    /// The order is antisymmetric.
    proof fn law_le_antisym(x: Self, y: Self)
        requires
            x.sp_le(y),
            y.sp_le(x),
        ensures
            x == y,
    ;

    /// The order is total.
    proof fn law_le_total(x: Self, y: Self)
        ensures
            x.sp_le(y) || y.sp_le(x),
    ;

    /// Addition is commutative.
    proof fn law_add_comm(x: Self, y: Self)
        ensures
            x.sp_add(y) == y.sp_add(x),
    ;

    /// Addition is associative.
    proof fn law_add_assoc(x: Self, y: Self, z: Self)
        ensures
            x.sp_add(y).sp_add(z) == x.sp_add(y.sp_add(z)),
    ;

    /// Zero is the additive identity.
    proof fn law_add_zero(x: Self)
        ensures
            x.sp_add(Self::sp_zero()) == x,
    ;

    /// Negation is the additive inverse.
    proof fn law_add_neg(x: Self)
        ensures
            x.sp_add(x.sp_neg()) == Self::sp_zero(),
    ;

    /// Multiplication is commutative.
    proof fn law_mul_comm(x: Self, y: Self)
        ensures
            x.sp_mul(y) == y.sp_mul(x),
    ;

    /// Multiplication is associative.
    proof fn law_mul_assoc(x: Self, y: Self, z: Self)
        ensures
            x.sp_mul(y).sp_mul(z) == x.sp_mul(y.sp_mul(z)),
    ;

    /// One is the multiplicative identity.
    proof fn law_mul_one(x: Self)
        ensures
            x.sp_mul(Self::sp_one()) == x,
    ;

    /// Multiplication distributes over addition.
    proof fn law_distrib(x: Self, y: Self, z: Self)
        ensures
            x.sp_mul(y.sp_add(z)) == x.sp_mul(y).sp_add(x.sp_mul(z)),
    ;

    /// Division is the right inverse of multiplication.
    proof fn law_div_mul(x: Self, y: Self)
        requires
            y != Self::sp_zero(),
        ensures
            x.sp_div(y).sp_mul(y) == x,
    ;

    /// Multiplication by a nonzero scalar is undone by division.
    proof fn law_mul_div(x: Self, y: Self)
        requires
            y != Self::sp_zero(),
        ensures
            x.sp_mul(y).sp_div(y) == x,
    ;

    /// The order is translation invariant.
    proof fn law_add_le(x: Self, y: Self, z: Self)
        requires
            x.sp_le(y),
        ensures
            x.sp_add(z).sp_le(y.sp_add(z)),
    ;

    /// The order is preserved by multiplication with a non-negative scalar.
    proof fn law_mul_le(x: Self, y: Self, z: Self)
        requires
            x.sp_le(y),
            Self::sp_zero().sp_le(z),
        ensures
            x.sp_mul(z).sp_le(y.sp_mul(z)),
    ;

    /// Zero is strictly below one.
    proof fn law_zero_lt_one()
        ensures
            Self::sp_zero().sp_le(Self::sp_one()),
            Self::sp_zero() != Self::sp_one(),
    ;

    /// The exponential is strictly positive.
    proof fn law_exp_pos(x: Self)
        ensures
            Self::sp_zero().sp_le(x.sp_exp()),
            Self::sp_zero() != x.sp_exp(),
    ;

    /// The exponential of zero is one.
    proof fn law_exp_zero()
        ensures
            Self::sp_zero().sp_exp() == Self::sp_one(),
    ;

    /// The exponential is monotone.
    proof fn law_exp_le(x: Self, y: Self)
        requires
            x.sp_le(y),
        ensures
            x.sp_exp().sp_le(y.sp_exp()),
    ;

    /// The logarithm is monotone on the positives.
    proof fn law_ln_le(x: Self, y: Self)
        requires
            Self::sp_zero().sp_le(x),
            Self::sp_zero() != x,
            x.sp_le(y),
        ensures
            x.sp_ln().sp_le(y.sp_ln()),
    ;

    /// The logarithm of one is zero.
    proof fn law_ln_one()
        ensures
            Self::sp_one().sp_ln() == Self::sp_zero(),
    ;

    /// The square root of a non-negative scalar is its non-negative root.
    proof fn law_sqrt_sq(x: Self)
        requires
            Self::sp_zero().sp_le(x),
        ensures
            Self::sp_zero().sp_le(x.sp_sqrt()),
            x.sp_sqrt().sp_mul(x.sp_sqrt()) == x,
    ;

    /// The resolution threshold is strictly positive.
    proof fn law_eps_pos()
        ensures
            Self::sp_zero().sp_le(Self::sp_eps()),
            Self::sp_zero() != Self::sp_eps(),
    ;

    /// A ratio of positive integers is positive.
    proof fn law_ratio_pos(num: i64, den: u64)
        requires
            num > 0,
            den > 0,
        ensures
            Self::sp_zero().sp_le(Self::sp_ratio(num, den)),
            Self::sp_zero() != Self::sp_ratio(num, den),
    ;

    /// Ratios order by cross-multiplication of their integer parts.
    proof fn law_ratio_le(n1: i64, d1: u64, n2: i64, d2: u64)
        requires
            d1 > 0,
            d2 > 0,
            n1 as int * d2 as int <= n2 as int * d1 as int,
        ensures
            Self::sp_ratio(n1, d1).sp_le(Self::sp_ratio(n2, d2)),
    ;

    /// The ratio of one to one is one.
    proof fn law_ratio_one()
        ensures
            Self::sp_ratio(1, 1) == Self::sp_one(),
    ;
}

/// Two scalars with equal sums against a common addend are equal.
pub proof fn lemma_add_cancel<T: Scalar>(a: T, b: T, c: T)
    requires
        a.sp_add(c) == b.sp_add(c),
    ensures
        a == b,
{
    T::law_add_assoc(a, c, c.sp_neg());
    T::law_add_assoc(b, c, c.sp_neg());
    T::law_add_neg(c);
    T::law_add_zero(a);
    T::law_add_zero(b);
}

/// Multiplication by zero annihilates.
pub proof fn lemma_mul_zero<T: Scalar>(x: T)
    ensures
        x.sp_mul(T::sp_zero()) == T::sp_zero(),
        T::sp_zero().sp_mul(x) == T::sp_zero(),
{
    let a = x.sp_mul(T::sp_zero());
    T::law_add_zero(T::sp_zero());
    T::law_distrib(x, T::sp_zero(), T::sp_zero());
    assert(a == a.sp_add(a));
    T::law_add_assoc(a, a, a.sp_neg());
    T::law_add_neg(a);
    T::law_add_zero(a);
    assert(a == T::sp_zero());
    T::law_mul_comm(x, T::sp_zero());
}

/// The additive inverse is unique.
pub proof fn lemma_neg_unique<T: Scalar>(a: T, b: T)
    requires
        a.sp_add(b) == T::sp_zero(),
    ensures
        b == a.sp_neg(),
{
    T::law_add_neg(a);
    T::law_add_comm(b, a);
    T::law_add_comm(a.sp_neg(), a);
    lemma_add_cancel(b, a.sp_neg(), a);
}

/// Negation is an involution.
pub proof fn lemma_neg_neg<T: Scalar>(x: T)
    ensures
        x.sp_neg().sp_neg() == x,
{
    T::law_add_neg(x);
    T::law_add_comm(x, x.sp_neg());
    lemma_neg_unique(x.sp_neg(), x);
}

/// Negating zero gives zero.
pub proof fn lemma_neg_zero<T: Scalar>()
    ensures
        T::sp_zero().sp_neg() == T::sp_zero(),
{
    T::law_add_zero(T::sp_zero());
    lemma_neg_unique(T::sp_zero(), T::sp_zero());
}

/// Negation reverses the order.
pub proof fn lemma_neg_le<T: Scalar>(a: T, b: T)
    requires
        a.sp_le(b),
    ensures
        b.sp_neg().sp_le(a.sp_neg()),
{
    let c = a.sp_neg().sp_add(b.sp_neg());
    T::law_add_le(a, b, c);
    T::law_add_assoc(a, a.sp_neg(), b.sp_neg());
    T::law_add_neg(a);
    T::law_add_comm(T::sp_zero(), b.sp_neg());
    T::law_add_zero(b.sp_neg());
    assert(a.sp_add(c) == b.sp_neg());
    T::law_add_comm(a.sp_neg(), b.sp_neg());
    T::law_add_assoc(b, b.sp_neg(), a.sp_neg());
    T::law_add_neg(b);
    T::law_add_comm(T::sp_zero(), a.sp_neg());
    T::law_add_zero(a.sp_neg());
    assert(b.sp_add(c) == a.sp_neg());
}

/// Negation distributes over addition.
pub proof fn lemma_neg_add<T: Scalar>(x: T, y: T)
    ensures
        x.sp_add(y).sp_neg() == x.sp_neg().sp_add(y.sp_neg()),
{
    let s = x.sp_add(y);
    let n = x.sp_neg().sp_add(y.sp_neg());
    T::law_add_assoc(s, x.sp_neg(), y.sp_neg());
    T::law_add_comm(x, y);
    T::law_add_assoc(y, x, x.sp_neg());
    T::law_add_neg(x);
    T::law_add_zero(y);
    assert(s.sp_add(x.sp_neg()) == y);
    T::law_add_neg(y);
    assert(s.sp_add(n) == T::sp_zero());
    lemma_neg_unique(s, n);
}

/// Dividing zero by a nonzero scalar gives zero.
pub proof fn lemma_zero_div<T: Scalar>(y: T)
    requires
        y != T::sp_zero(),
    ensures
        T::sp_zero().sp_div(y) == T::sp_zero(),
{
    T::law_mul_div(T::sp_zero(), y);
    lemma_mul_zero::<T>(y);
}

/// A product of non-negative scalars is non-negative.
pub proof fn lemma_mul_nonneg<T: Scalar>(x: T, y: T)
    requires
        T::sp_zero().sp_le(x),
        T::sp_zero().sp_le(y),
    ensures
        T::sp_zero().sp_le(x.sp_mul(y)),
{
    T::law_mul_le(T::sp_zero(), x, y);
    lemma_mul_zero::<T>(y);
}

/// A product of positive scalars is positive.
pub proof fn lemma_mul_pos<T: Scalar>(x: T, y: T)
    requires
        slt(T::sp_zero(), x),
        slt(T::sp_zero(), y),
    ensures
        slt(T::sp_zero(), x.sp_mul(y)),
{
    lemma_mul_nonneg(x, y);
    if x.sp_mul(y) == T::sp_zero() {
        T::law_mul_div(x, y);
        lemma_zero_div(y);
    }
}

/// A quotient of a non-negative numerator and positive denominator is
/// non-negative.
pub proof fn lemma_div_nonneg<T: Scalar>(x: T, y: T)
    requires
        T::sp_zero().sp_le(x),
        slt(T::sp_zero(), y),
    ensures
        T::sp_zero().sp_le(x.sp_div(y)),
{
    let q = x.sp_div(y);
    T::law_div_mul(x, y);
    if !T::sp_zero().sp_le(q) {
        T::law_le_total(T::sp_zero(), q);
        T::law_mul_le(q, T::sp_zero(), y);
        lemma_mul_zero::<T>(y);
        assert(x.sp_le(T::sp_zero()));
        T::law_le_antisym(T::sp_zero(), x);
        lemma_zero_div(y);
        T::law_le_refl(T::sp_zero());
    }
}

/// A quotient of a non-positive numerator and positive denominator is
/// non-positive.
pub proof fn lemma_div_nonpos<T: Scalar>(x: T, y: T)
    requires
        x.sp_le(T::sp_zero()),
        slt(T::sp_zero(), y),
    ensures
        x.sp_div(y).sp_le(T::sp_zero()),
{
    let q = x.sp_div(y);
    T::law_div_mul(x, y);
    if !q.sp_le(T::sp_zero()) {
        T::law_le_total(q, T::sp_zero());
        T::law_mul_le(T::sp_zero(), q, y);
        lemma_mul_zero::<T>(y);
        assert(T::sp_zero().sp_le(x));
        T::law_le_antisym(T::sp_zero(), x);
        lemma_zero_div(y);
        T::law_le_refl(T::sp_zero());
    }
}

/// A quotient of positive scalars is positive.
pub proof fn lemma_div_pos<T: Scalar>(x: T, y: T)
    requires
        slt(T::sp_zero(), x),
        slt(T::sp_zero(), y),
    ensures
        slt(T::sp_zero(), x.sp_div(y)),
{
    let q = x.sp_div(y);
    lemma_div_nonneg(x, y);
    if q == T::sp_zero() {
        T::law_div_mul(x, y);
        lemma_mul_zero::<T>(y);
    }
}

/// The strict order is translation invariant.
pub proof fn lemma_add_lt<T: Scalar>(a: T, b: T, c: T)
    requires
        slt(a, b),
    ensures
        slt(a.sp_add(c), b.sp_add(c)),
{
    T::law_add_le(a, b, c);
    if a.sp_add(c) == b.sp_add(c) {
        lemma_add_cancel(a, b, c);
    }
}

/// The strict order is preserved by multiplication with a positive scalar.
pub proof fn lemma_mul_lt<T: Scalar>(a: T, b: T, c: T)
    requires
        slt(a, b),
        slt(T::sp_zero(), c),
    ensures
        slt(a.sp_mul(c), b.sp_mul(c)),
{
    T::law_mul_le(a, b, c);
    if a.sp_mul(c) == b.sp_mul(c) {
        T::law_mul_div(a, c);
        T::law_mul_div(b, c);
    }
}

/// Negation reverses the strict order.
pub proof fn lemma_neg_lt<T: Scalar>(a: T, b: T)
    requires
        slt(a, b),
    ensures
        slt(b.sp_neg(), a.sp_neg()),
{
    lemma_neg_le(a, b);
    if b.sp_neg() == a.sp_neg() {
        lemma_neg_neg(a);
        lemma_neg_neg(b);
    }
}

/// A strictly larger scalar leaves a strictly positive difference.
pub proof fn lemma_diff_pos<T: Scalar>(a: T, b: T)
    requires
        slt(a, b),
    ensures
        slt(T::sp_zero(), b.sp_add(a.sp_neg())),
{
    lemma_add_lt(a, b, a.sp_neg());
    T::law_add_neg(a);
}

/// Dividing by one changes nothing.
pub proof fn lemma_div_one<T: Scalar>(a: T)
    ensures
        a.sp_div(T::sp_one()) == a,
{
    T::law_zero_lt_one();
    T::law_mul_div(a, T::sp_one());
    T::law_mul_one(a);
}

/// The strict order propagates through the weak order on either side.
pub proof fn lemma_slt_le_trans<T: Scalar>(a: T, b: T, c: T)
    requires
        slt(a, b),
        b.sp_le(c),
    ensures
        slt(a, c),
{
    T::law_le_trans(a, b, c);
    if a == c {
        T::law_le_antisym(a, b);
    }
}

/// The weak order propagates through the strict order on either side.
pub proof fn lemma_le_slt_trans<T: Scalar>(a: T, b: T, c: T)
    requires
        a.sp_le(b),
        slt(b, c),
    ensures
        slt(a, c),
{
    T::law_le_trans(a, b, c);
    if a == c {
        T::law_le_antisym(b, c);
    }
}

/// In a total order, not being strictly below means being at or above.
pub proof fn lemma_not_slt<T: Scalar>(a: T, b: T)
    ensures
        !slt(a, b) <==> b.sp_le(a),
{
    T::law_le_total(a, b);
    if b.sp_le(a) && slt(a, b) {
        T::law_le_antisym(a, b);
    }
    if !b.sp_le(a) && a == b {
        T::law_le_refl(a);
    }
}

/// One is a left identity of multiplication.
pub proof fn lemma_one_mul<T: Scalar>(x: T)
    ensures
        T::sp_one().sp_mul(x) == x,
{
    T::law_mul_comm(T::sp_one(), x);
    T::law_mul_one(x);
}

/// Distinct scalars have a nonzero difference.
pub proof fn lemma_diff_nonzero<T: Scalar>(a: T, b: T)
    requires
        a != b,
    ensures
        b.sp_add(a.sp_neg()) != T::sp_zero(),
{
    if b.sp_add(a.sp_neg()) == T::sp_zero() {
        T::law_add_neg(a);
        lemma_add_cancel(b, a, a.sp_neg());
    }
}

/// Multiplying a negation negates the product.
pub proof fn lemma_mul_neg<T: Scalar>(x: T, y: T)
    ensures
        x.sp_mul(y.sp_neg()) == x.sp_mul(y).sp_neg(),
{
    T::law_distrib(x, y, y.sp_neg());
    T::law_add_neg(y);
    lemma_mul_zero::<T>(x);
    lemma_neg_unique(x.sp_mul(y), x.sp_mul(y.sp_neg()));
}

/// A square is never negative.
pub proof fn lemma_square_nonneg<T: Scalar>(x: T)
    ensures
        T::sp_zero().sp_le(x.sp_mul(x)),
{
    T::law_le_total(T::sp_zero(), x);
    if T::sp_zero().sp_le(x) {
        lemma_mul_nonneg(x, x);
    } else {
        lemma_not_slt(T::sp_zero(), x);
        lemma_neg_le(x, T::sp_zero());
        lemma_neg_zero::<T>();
        lemma_mul_nonneg(x.sp_neg(), x.sp_neg());
        lemma_mul_neg(x.sp_neg(), x);
        T::law_mul_comm(x.sp_neg(), x);
        lemma_mul_neg(x, x);
        lemma_neg_neg(x.sp_mul(x));
        assert(x.sp_neg().sp_mul(x.sp_neg()) == x.sp_mul(x));
    }
}

/// Multiplication by a constant passes through division.
pub proof fn lemma_mul_div_assoc<T: Scalar>(c: T, a: T, b: T)
    requires
        b != T::sp_zero(),
    ensures
        c.sp_mul(a).sp_div(b) == c.sp_mul(a.sp_div(b)),
{
    let rhs = c.sp_mul(a.sp_div(b));
    T::law_mul_assoc(c, a.sp_div(b), b);
    T::law_div_mul(a, b);
    assert(rhs.sp_mul(b) == c.sp_mul(a));
    T::law_mul_div(rhs, b);
}

/// Division by a positive scalar preserves the order.
pub proof fn lemma_div_le<T: Scalar>(a: T, b: T, c: T)
    requires
        a.sp_le(b),
        slt(T::sp_zero(), c),
    ensures
        a.sp_div(c).sp_le(b.sp_div(c)),
{
    let q1 = a.sp_div(c);
    let q2 = b.sp_div(c);
    T::law_div_mul(a, c);
    T::law_div_mul(b, c);
    if !q1.sp_le(q2) {
        T::law_le_total(q1, q2);
        T::law_mul_le(q2, q1, c);
        assert(b.sp_le(a));
        T::law_le_antisym(a, b);
        T::law_mul_div(q1, c);
        T::law_mul_div(q2, c);
        T::law_le_refl(q1);
    }
}

/// Division by a positive scalar preserves the strict order.
pub proof fn lemma_div_lt<T: Scalar>(a: T, b: T, c: T)
    requires
        slt(a, b),
        slt(T::sp_zero(), c),
    ensures
        slt(a.sp_div(c), b.sp_div(c)),
{
    lemma_div_le(a, b, c);
    if a.sp_div(c) == b.sp_div(c) {
        T::law_div_mul(a, c);
        T::law_div_mul(b, c);
    }
}

/// With a fixed non-negative numerator, growing the denominator shrinks the
/// quotient.
pub proof fn lemma_div_antitone_denom<T: Scalar>(a: T, d2: T, d1: T)
    requires
        T::sp_zero().sp_le(a),
        slt(T::sp_zero(), d2),
        d2.sp_le(d1),
    ensures
        a.sp_div(d1).sp_le(a.sp_div(d2)),
{
    let q1 = a.sp_div(d1);
    let q2 = a.sp_div(d2);
    lemma_slt_le_trans(T::sp_zero(), d2, d1);
    T::law_div_mul(a, d1);
    T::law_div_mul(a, d2);
    lemma_div_nonneg(a, d1);
    if !q1.sp_le(q2) {
        T::law_le_total(q1, q2);
        // q2 * d2 == a == q1 * d1, while q2 * d2 <= q1 * d2 <= q1 * d1
        T::law_mul_le(q2, q1, d2);
        T::law_mul_comm(q1, d2);
        T::law_mul_comm(q1, d1);
        T::law_mul_le(d2, d1, q1);
        assert(q1.sp_mul(d2).sp_le(q1.sp_mul(d1)));
        T::law_le_trans(q2.sp_mul(d2), q1.sp_mul(d2), q1.sp_mul(d1));
        T::law_le_antisym(q2.sp_mul(d2), q1.sp_mul(d2));
        T::law_mul_div(q2, d2);
        T::law_mul_div(q1, d2);
        T::law_le_refl(q1);
    }
}

/// The reciprocal of a scalar above one lies strictly between zero and one.
pub proof fn lemma_recip_of_large<T: Scalar>(d: T)
    requires
        slt(T::sp_one(), d),
    ensures
        slt(T::sp_zero(), T::sp_one().sp_div(d)),
        slt(T::sp_one().sp_div(d), T::sp_one()),
{
    let q = T::sp_one().sp_div(d);
    T::law_zero_lt_one();
    lemma_le_slt_trans(T::sp_zero(), T::sp_one(), d);
    lemma_div_pos(T::sp_one(), d);
    T::law_div_mul(T::sp_one(), d);
    T::law_le_total(q, T::sp_one());
    if T::sp_one().sp_le(q) {
        T::law_mul_le(T::sp_one(), q, d);
        T::law_mul_comm(T::sp_one(), d);
        T::law_mul_one(d);
        assert(d.sp_le(T::sp_one()));
        T::law_le_antisym(T::sp_one(), d);
    }
    if q == T::sp_one() {
        T::law_mul_comm(q, d);
        T::law_mul_one(d);
    }
}

/// Strict comparison, executed through the total order.
pub fn lt_s<T: Scalar>(a: T, b: T) -> (r: bool)
    ensures
        r == slt(a, b),
{
    let back = b.le(a);
    proof {
        if back {
            if slt(a, b) {
                T::law_le_antisym(a, b);
            }
        } else {
            T::law_le_total(a, b);
            if a == b {
                T::law_le_refl(a);
            }
        }
    }
    !back
}

} // verus!
