//! Monotonic interpolation using the Fritsch-Carlson method.

use vstd::prelude::*;
use vstd::seq_lib::to_multiset_update;
use vstd::string::StringExecFns;

use crate::errors::InterpolationError;
use crate::interpolators::traits::Interpolator;
use crate::scalar::Scalar;
use crate::scalar::lemma_not_slt;
use crate::scalar::spec_abs;
use crate::scalar::lemma_slt_le_trans;
use crate::scalar::lt_s;
use crate::scalar::slt;

verus! {

/// Adjacent pairs never decrease: the sequence is sorted (weakly
/// increasing) under the model order.
pub open spec fn sorted_adj<T: Scalar>(s: Seq<T>) -> bool {
    forall|i: int| 0 < i < s.len() ==> s[i - 1].sp_le(#[trigger] s[i])
}

/// Adjacent pairs never increase: the sequence is weakly decreasing under
/// the model order.
pub open spec fn noninc_adj<T: Scalar>(s: Seq<T>) -> bool {
    forall|i: int| 0 < i < s.len() ==> (#[trigger] s[i]).sp_le(s[i - 1])
}

/// The sequence is monotonic in one direction only; exactly-flat steps are
/// allowed in either direction.
pub open spec fn monotone_dir<T: Scalar>(s: Seq<T>) -> bool {
    sorted_adj(s) || noninc_adj(s)
}

/// The abscissae of a sequence of `(x, y)` pairs.
pub open spec fn first_coords<T: Scalar>(s: Seq<(T, T)>) -> Seq<T> {
    s.map_values(|p: (T, T)| p.0)
}

/// The ordinates of a sequence of `(x, y)` pairs.
pub open spec fn second_coords<T: Scalar>(s: Seq<(T, T)>) -> Seq<T> {
    s.map_values(|p: (T, T)| p.1)
}

/// Two equal-length sequences paired up index by index.
pub open spec fn zip_pairs<T: Scalar>(a: Seq<T>, b: Seq<T>) -> Seq<(T, T)>
    recommends
        a.len() == b.len(),
{
    Seq::new(a.len(), |i: int| (a[i], b[i]))
}

/// Ordinates follow the abscissa order: whenever one abscissa is at or
/// below another, the ordinates compare the same way.
pub open spec fn co_nondecreasing<T: Scalar>(a: Seq<T>, b: Seq<T>) -> bool {
    forall|i: int, j: int|
        #![trigger a[i], a[j]]
        0 <= i < a.len() && 0 <= j < a.len() && a[i].sp_le(a[j]) ==> b[i].sp_le(b[j])
}

/// Ordinates oppose the abscissa order: whenever one abscissa is at or
/// below another, the ordinates compare the opposite way.
pub open spec fn co_nonincreasing<T: Scalar>(a: Seq<T>, b: Seq<T>) -> bool {
    forall|i: int, j: int|
        #![trigger a[i], a[j]]
        0 <= i < a.len() && 0 <= j < a.len() && a[i].sp_le(a[j]) ==> b[j].sp_le(b[i])
}

/// An element of a sequence occurs in any sequence with the same multiset
/// of elements.
proof fn lemma_perm_contains<T: Scalar>(s1: Seq<(T, T)>, s2: Seq<(T, T)>, k: int)
    requires
        s1.to_multiset() == s2.to_multiset(),
        0 <= k < s1.len(),
    ensures
        exists|j: int| 0 <= j < s2.len() && s2[j] == s1[k],
{
    broadcast use vstd::seq_lib::group_to_multiset_ensures;

    assert(s1.contains(s1[k]));
    assert(s2.to_multiset().count(s1[k]) > 0);
    assert(s2.contains(s1[k]));
}

/// In a sorted sequence every earlier element is at or below every later
/// one.
pub proof fn lemma_sorted_le<T: Scalar>(s: Seq<T>, i: int, j: int)
    requires
        sorted_adj(s),
        0 <= i <= j < s.len(),
    ensures
        s[i].sp_le(s[j]),
    decreases j - i,
{
    if i == j {
        T::law_le_refl(s[i]);
    } else {
        lemma_sorted_le(s, i, j - 1);
        T::law_le_trans(s[i], s[j - 1], s[j]);
    }
}

/// Swapping two positions of a sequence preserves its multiset of
/// elements.
proof fn lemma_swap_multiset<T: Scalar>(s: Seq<(T, T)>, a: int, b: int)
    requires
        0 <= a < s.len(),
        0 <= b < s.len(),
        a != b,
    ensures
        s.update(a, s[b]).update(b, s[a]).to_multiset() == s.to_multiset(),
{
    broadcast use to_multiset_update;
    broadcast use vstd::multiset::group_multiset_axioms;
    broadcast use vstd::seq_lib::group_to_multiset_ensures;

    let s1 = s.update(a, s[b]);
    assert(s1[b] == s[b]);
    assert(s1.update(b, s[a]).to_multiset() == s1.to_multiset().insert(s[a]).remove(s[b]));
    assert(s1.to_multiset() == s.to_multiset().insert(s[b]).remove(s[a]));
    assert(s.to_multiset().insert(s[b]).remove(s[a]).insert(s[a]).remove(s[b])
        =~= s.to_multiset());
}

/// The secant slope of segment `i`.
pub open spec fn spec_secant<T: Scalar>(xs: Seq<T>, ys: Seq<T>, i: int) -> T {
    ys[i + 1].sp_add(ys[i].sp_neg()).sp_div(xs[i + 1].sp_add(xs[i].sp_neg()))
}

/// The slope seeded at point `i` before the Fritsch-Carlson correction:
/// the one-sided secant at either boundary, zero at a local extremum or
/// flat run, and the mean of the adjacent secants otherwise.
pub open spec fn spec_seed_slope<T: Scalar>(xs: Seq<T>, ys: Seq<T>, i: int) -> T {
    let n = xs.len() as int;
    let two = T::sp_one().sp_add(T::sp_one());
    if i == 0 {
        spec_secant(xs, ys, 0)
    } else if i == n - 1 {
        spec_secant(xs, ys, n - 2)
    } else if spec_secant(xs, ys, i - 1).sp_mul(spec_secant(xs, ys, i)).sp_le(T::sp_zero()) {
        T::sp_zero()
    } else {
        spec_secant(xs, ys, i - 1).sp_add(spec_secant(xs, ys, i)).sp_div(two)
    }
}

/// The Fritsch-Carlson correction applied to the first `k` segments in
/// order: a flat segment zeroes both its endpoint slopes, and a slope
/// pair whose normalised magnitudes leave the disc of radius three is
/// scaled back onto its boundary.
pub open spec fn spec_fc_adjust<T: Scalar>(xs: Seq<T>, ys: Seq<T>, slopes: Seq<T>, k: int) -> Seq<
    T,
>
    decreases k,
{
    if k <= 0 {
        slopes
    } else {
        let s = spec_fc_adjust(xs, ys, slopes, k - 1);
        let i = k - 1;
        let one = T::sp_one();
        let two = one.sp_add(one);
        let three = two.sp_add(one);
        let delta = spec_secant(xs, ys, i);
        if slt(spec_abs(delta), T::sp_eps()) {
            s.update(i, T::sp_zero()).update(i + 1, T::sp_zero())
        } else {
            let alpha = s[i].sp_div(delta);
            let beta = s[i + 1].sp_div(delta);
            let r2 = alpha.sp_mul(alpha).sp_add(beta.sp_mul(beta));
            if slt(three.sp_mul(three), r2) {
                let tau = three.sp_div(r2.sp_sqrt());
                s.update(i, tau.sp_mul(alpha).sp_mul(delta)).update(
                    i + 1,
                    tau.sp_mul(beta).sp_mul(delta),
                )
            } else {
                s
            }
        }
    }
}

/// The Fritsch-Carlson slopes of the data: with two points both ends
/// take the lone secant; otherwise the seeded slopes, corrected segment
/// by segment.
pub open spec fn spec_fc_slopes<T: Scalar>(xs: Seq<T>, ys: Seq<T>) -> Seq<T> {
    let n = xs.len() as int;
    if n == 2 {
        seq![spec_secant(xs, ys, 0), spec_secant(xs, ys, 0)]
    } else {
        spec_fc_adjust(
            xs,
            ys,
            Seq::new(n as nat, |i: int| spec_seed_slope(xs, ys, i)),
            n - 1,
        )
    }
}

/// The Fritsch-Carlson sufficient condition holds at segment `i` of the
/// slope vector: a flat segment carries zero slopes at both ends, and
/// otherwise the slopes normalised by the secant stay inside the disc of
/// radius three, which keeps the Hermite cubic from overshooting between
/// the knots.
pub open spec fn fc_segment_ok<T: Scalar>(xs: Seq<T>, ys: Seq<T>, s: Seq<T>, i: int) -> bool {
    let d = spec_secant(xs, ys, i);
    let one = T::sp_one();
    let three = one.sp_add(one).sp_add(one);
    if slt(spec_abs(d), T::sp_eps()) {
        s[i] == T::sp_zero() && s[i + 1] == T::sp_zero()
    } else {
        let alpha = s[i].sp_div(d);
        let beta = s[i + 1].sp_div(d);
        alpha.sp_mul(alpha).sp_add(beta.sp_mul(beta)).sp_le(three.sp_mul(three))
    }
}

/// The scalar three is strictly positive.
proof fn lemma_three_pos<T: Scalar>()
    ensures
        slt(T::sp_zero(), T::sp_one().sp_add(T::sp_one()).sp_add(T::sp_one())),
{
    let zero = T::sp_zero();
    let one = T::sp_one();
    let two = one.sp_add(one);
    let three = two.sp_add(one);
    T::law_zero_lt_one();
    crate::scalar::lemma_add_lt(zero, one, one);
    T::law_add_comm(zero, one);
    T::law_add_zero(one);
    assert(slt(one, two));
    crate::scalar::lemma_add_lt(one, two, one);
    assert(slt(two, three));
    crate::scalar::lemma_slt_le_trans(zero, one, two);
    crate::scalar::lemma_slt_le_trans(zero, two, three);
}

/// A product squares as the product of the squares.
proof fn lemma_mul_square<T: Scalar>(a: T, b: T)
    ensures
        a.sp_mul(b).sp_mul(a.sp_mul(b)) == a.sp_mul(a).sp_mul(b.sp_mul(b)),
{
    T::law_mul_assoc(a, b, a.sp_mul(b));
    T::law_mul_comm(b, a.sp_mul(b));
    T::law_mul_assoc(a, b, b);
    T::law_mul_comm(a, b.sp_mul(b));
    T::law_mul_assoc(a, a, b.sp_mul(b));
    assert(b.sp_mul(a.sp_mul(b)) == a.sp_mul(b.sp_mul(b))) by {
        T::law_mul_assoc(b, a, b);
        T::law_mul_comm(b, a);
        T::law_mul_assoc(a, b, b);
    }
}

/// The Fritsch-Carlson rescale factor of an out-of-disc slope pair is a
/// strictly positive shrink whose square maps the squared radius back to
/// nine exactly.
proof fn lemma_fc_tau<T: Scalar>(r2: T)
    requires
        ({
            let one = T::sp_one();
            let three = one.sp_add(one).sp_add(one);
            slt(three.sp_mul(three), r2)
        }),
    ensures
        ({
            let one = T::sp_one();
            let three = one.sp_add(one).sp_add(one);
            let tau = three.sp_div(r2.sp_sqrt());
            &&& slt(T::sp_zero(), tau)
            &&& tau.sp_mul(tau).sp_mul(r2) == three.sp_mul(three)
            &&& tau.sp_mul(tau).sp_le(one)
        }),
{
    let zero = T::sp_zero();
    let one = T::sp_one();
    let three = one.sp_add(one).sp_add(one);
    let nine = three.sp_mul(three);
    let root = r2.sp_sqrt();
    let tau = three.sp_div(root);
    lemma_three_pos::<T>();
    crate::scalar::lemma_mul_pos(three, three);
    assert(slt(zero, nine));
    crate::scalar::lemma_slt_le_trans(zero, nine, r2);
    assert(zero.sp_le(r2));
    T::law_sqrt_sq(r2);
    assert(root.sp_mul(root) == r2);
    if root == zero {
        crate::scalar::lemma_mul_zero::<T>(zero);
    }
    assert(root != zero);
    assert(slt(zero, root));
    // three is strictly under the root, else the radius stays within nine
    if root.sp_le(three) {
        T::law_mul_le(root, three, root);
        T::law_mul_comm(root, three);
        T::law_mul_comm(three, root);
        assert(root.sp_mul(root).sp_le(root.sp_mul(three))) by {
            T::law_mul_le(root, three, root);
            T::law_mul_comm(root, three);
        }
        T::law_mul_le(root, three, three);
        T::law_mul_comm(root, three);
        assert(three.sp_mul(root).sp_le(nine));
        T::law_le_trans(r2, three.sp_mul(root), nine);
        crate::scalar::lemma_not_slt(nine, r2);
    }
    crate::scalar::lemma_not_slt(root, three);
    assert(slt(three, root));
    crate::scalar::lemma_div_pos(three, root);
    assert(slt(zero, tau));
    // tau squared times the radius is nine
    T::law_div_mul(three, root);
    lemma_mul_square(three.sp_div(root), root);
    assert(tau.sp_mul(root).sp_mul(tau.sp_mul(root)) == tau.sp_mul(tau).sp_mul(r2)) by {
        lemma_mul_square(tau, root);
    }
    assert(tau.sp_mul(root) == three);
    assert(tau.sp_mul(tau).sp_mul(r2) == nine);
    // tau is below one, so its square shrinks
    crate::scalar::lemma_div_lt(three, root, root);
    T::law_div_mul(root, root);
    assert(root.sp_div(root) == one) by {
        crate::scalar::lemma_one_mul(root);
        T::law_mul_div(one, root);
    }
    assert(slt(tau, one));
    T::law_mul_le(tau, one, tau);
    crate::scalar::lemma_one_mul(tau);
    T::law_mul_comm(one, tau);
    assert(tau.sp_mul(tau).sp_le(tau));
    T::law_le_trans(tau.sp_mul(tau), tau, one);
}

/// A segment that is not flat has a nonzero secant.
proof fn lemma_nonflat_secant_nonzero<T: Scalar>(xs: Seq<T>, ys: Seq<T>, i: int)
    requires
        !slt(spec_abs(spec_secant(xs, ys, i)), T::sp_eps()),
    ensures
        spec_secant(xs, ys, i) != T::sp_zero(),
{
    let d = spec_secant(xs, ys, i);
    crate::scalar::lemma_not_slt(spec_abs(d), T::sp_eps());
    T::law_eps_pos();
    if d == T::sp_zero() {
        assert(spec_abs(d) == T::sp_zero());
        T::law_le_antisym(T::sp_eps(), T::sp_zero());
    }
}

/// The Fritsch-Carlson condition at a segment survives its right-hand
/// slope being zeroed by the next segment's correction.
proof fn lemma_fc_right_zeroed<T: Scalar>(xs: Seq<T>, ys: Seq<T>, sold: Seq<T>, snew: Seq<T>, i: int)
    requires
        fc_segment_ok(xs, ys, sold, i),
        snew[i] == sold[i],
        snew[i + 1] == T::sp_zero(),
    ensures
        fc_segment_ok(xs, ys, snew, i),
{
    let zero = T::sp_zero();
    let d = spec_secant(xs, ys, i);
    if !slt(spec_abs(d), T::sp_eps()) {
        lemma_nonflat_secant_nonzero(xs, ys, i);
        crate::scalar::lemma_zero_div(d);
        let alpha = sold[i].sp_div(d);
        let beta = sold[i + 1].sp_div(d);
        crate::scalar::lemma_mul_zero::<T>(zero);
        T::law_add_zero(alpha.sp_mul(alpha));
        crate::scalar::lemma_square_nonneg(beta);
        T::law_add_le(zero, beta.sp_mul(beta), alpha.sp_mul(alpha));
        T::law_add_comm(zero, alpha.sp_mul(alpha));
        T::law_add_comm(beta.sp_mul(beta), alpha.sp_mul(alpha));
        let one = T::sp_one();
        let three = one.sp_add(one).sp_add(one);
        T::law_le_trans(
            alpha.sp_mul(alpha).sp_add(zero),
            alpha.sp_mul(alpha).sp_add(beta.sp_mul(beta)),
            three.sp_mul(three),
        );
    }
}

/// The Fritsch-Carlson condition at a segment survives its right-hand
/// slope being shrunk by the next segment's rescale.
proof fn lemma_fc_right_scaled<T: Scalar>(
    xs: Seq<T>,
    ys: Seq<T>,
    sold: Seq<T>,
    snew: Seq<T>,
    i: int,
    tau: T,
)
    requires
        fc_segment_ok(xs, ys, sold, i),
        snew[i] == sold[i],
        snew[i + 1] == tau.sp_mul(sold[i + 1]),
        tau.sp_mul(tau).sp_le(T::sp_one()),
    ensures
        fc_segment_ok(xs, ys, snew, i),
{
    let zero = T::sp_zero();
    let one = T::sp_one();
    let three = one.sp_add(one).sp_add(one);
    let d = spec_secant(xs, ys, i);
    if slt(spec_abs(d), T::sp_eps()) {
        crate::scalar::lemma_mul_zero::<T>(tau);
    } else {
        lemma_nonflat_secant_nonzero(xs, ys, i);
        let alpha = sold[i].sp_div(d);
        let beta = sold[i + 1].sp_div(d);
        crate::scalar::lemma_mul_div_assoc(tau, sold[i + 1], d);
        assert(snew[i + 1].sp_div(d) == tau.sp_mul(beta));
        lemma_mul_square(tau, beta);
        crate::scalar::lemma_square_nonneg(beta);
        T::law_mul_le(tau.sp_mul(tau), one, beta.sp_mul(beta));
        T::law_mul_comm(tau.sp_mul(tau), beta.sp_mul(beta));
        T::law_mul_comm(one, beta.sp_mul(beta));
        crate::scalar::lemma_one_mul(beta.sp_mul(beta));
        assert(tau.sp_mul(beta).sp_mul(tau.sp_mul(beta)).sp_le(beta.sp_mul(beta)));
        T::law_add_le(
            tau.sp_mul(beta).sp_mul(tau.sp_mul(beta)),
            beta.sp_mul(beta),
            alpha.sp_mul(alpha),
        );
        T::law_add_comm(tau.sp_mul(beta).sp_mul(tau.sp_mul(beta)), alpha.sp_mul(alpha));
        T::law_add_comm(beta.sp_mul(beta), alpha.sp_mul(alpha));
        T::law_le_trans(
            alpha.sp_mul(alpha).sp_add(tau.sp_mul(beta).sp_mul(tau.sp_mul(beta))),
            alpha.sp_mul(alpha).sp_add(beta.sp_mul(beta)),
            three.sp_mul(three),
        );
    }
}

/// Applying the correction through the first `k` segments establishes
/// the Fritsch-Carlson condition on every one of them: later segments
/// only ever zero or shrink a processed segment's right-hand slope,
/// which keeps the condition standing.
proof fn lemma_fc_adjust_invariant<T: Scalar>(xs: Seq<T>, ys: Seq<T>, seeds: Seq<T>, k: int)
    requires
        xs.len() == ys.len(),
        seeds.len() == xs.len(),
        xs.len() >= 3,
        0 <= k <= xs.len() - 1,
    ensures
        spec_fc_adjust(xs, ys, seeds, k).len() == seeds.len(),
        forall|i: int|
            0 <= i < k ==> fc_segment_ok(xs, ys, spec_fc_adjust(xs, ys, seeds, k), i),
    decreases k,
{
    if k > 0 {
        lemma_fc_adjust_invariant(xs, ys, seeds, k - 1);
        let sold = spec_fc_adjust(xs, ys, seeds, k - 1);
        let snew = spec_fc_adjust(xs, ys, seeds, k);
        let c = k - 1;
        let zero = T::sp_zero();
        let one = T::sp_one();
        let three = one.sp_add(one).sp_add(one);
        let nine = three.sp_mul(three);
        let d = spec_secant(xs, ys, c);
        if slt(spec_abs(d), T::sp_eps()) {
            assert(snew == sold.update(c, zero).update(c + 1, zero));
            assert forall|i: int| 0 <= i < k implies fc_segment_ok(xs, ys, snew, i) by {
                if i == c {
                    assert(snew[c] == zero && snew[c + 1] == zero);
                } else if i == c - 1 {
                    lemma_fc_right_zeroed(xs, ys, sold, snew, i);
                } else {
                    assert(snew[i] == sold[i] && snew[i + 1] == sold[i + 1]);
                    assert(fc_segment_ok(xs, ys, sold, i));
                }
            }
        } else {
            lemma_nonflat_secant_nonzero(xs, ys, c);
            let alpha = sold[c].sp_div(d);
            let beta = sold[c + 1].sp_div(d);
            let r2 = alpha.sp_mul(alpha).sp_add(beta.sp_mul(beta));
            if slt(nine, r2) {
                let tau = three.sp_div(r2.sp_sqrt());
                lemma_fc_tau::<T>(r2);
                assert(snew == sold.update(c, tau.sp_mul(alpha).sp_mul(d)).update(
                    c + 1,
                    tau.sp_mul(beta).sp_mul(d),
                ));
                // each rescaled slope is the shrink factor times the old one
                T::law_mul_assoc(tau, alpha, d);
                T::law_div_mul(sold[c], d);
                assert(snew[c] == tau.sp_mul(sold[c]));
                T::law_mul_assoc(tau, beta, d);
                T::law_div_mul(sold[c + 1], d);
                assert(snew[c + 1] == tau.sp_mul(sold[c + 1]));
                assert forall|i: int| 0 <= i < k implies fc_segment_ok(xs, ys, snew, i) by {
                    if i == c {
                        // the rescaled pair sits exactly on the disc boundary
                        crate::scalar::lemma_mul_div_assoc(tau, sold[c], d);
                        crate::scalar::lemma_mul_div_assoc(tau, sold[c + 1], d);
                        lemma_mul_square(tau, alpha);
                        lemma_mul_square(tau, beta);
                        T::law_distrib(
                            tau.sp_mul(tau),
                            alpha.sp_mul(alpha),
                            beta.sp_mul(beta),
                        );
                        assert(snew[c].sp_div(d).sp_mul(snew[c].sp_div(d)).sp_add(
                            snew[c + 1].sp_div(d).sp_mul(snew[c + 1].sp_div(d)),
                        ) == nine);
                        T::law_le_refl(nine);
                    } else if i == c - 1 {
                        lemma_fc_right_scaled(xs, ys, sold, snew, i, tau);
                    } else {
                        assert(snew[i] == sold[i] && snew[i + 1] == sold[i + 1]);
                        assert(fc_segment_ok(xs, ys, sold, i));
                    }
                }
            } else {
                assert(snew == sold);
                crate::scalar::lemma_not_slt(nine, r2);
                assert forall|i: int| 0 <= i < k implies fc_segment_ok(xs, ys, snew, i) by {
                    if i == c {
                        assert(r2.sp_le(nine));
                    } else {
                        assert(fc_segment_ok(xs, ys, sold, i));
                    }
                }
            }
        }
    }
}

/// With at least three points, every segment of the Fritsch-Carlson
/// slopes satisfies the sufficient no-overshoot condition: a flat
/// segment carries zero slopes and any other keeps its normalised slope
/// pair inside the disc of radius three. (With exactly two points no
/// correction pass runs: both slopes are the lone secant, whose
/// normalised pair is `(1, 1)`.)
pub proof fn lemma_fc_slopes_bounded<T: Scalar>(xs: Seq<T>, ys: Seq<T>, i: int)
    requires
        xs.len() == ys.len(),
        xs.len() >= 3,
        0 <= i < xs.len() - 1,
    ensures
        fc_segment_ok(xs, ys, spec_fc_slopes(xs, ys), i),
{
    lemma_fc_adjust_invariant(
        xs,
        ys,
        Seq::new(xs.len(), |k: int| spec_seed_slope(xs, ys, k)),
        xs.len() - 1,
    );
}

/// Monotonicity-preserving interpolator built on the Fritsch-Carlson
/// method.
///
/// Stores sorted `(x, y)` data points and Hermite slopes limited so that
/// the piecewise cubic cannot overshoot between knots. Ideal for discount
/// factors, survival probabilities and other financial curves where a
/// monotonicity violation would create an arbitrage opportunity.
#[derive(Debug, Clone)]
pub struct MonotonicInterpolator<T: Scalar> {
    /// Sorted x-coordinates.
    xs: Vec<T>,
    /// Corresponding y-values, in the same order as `xs`.
    ys: Vec<T>,
    /// Computed Hermite slopes at each point.
    slopes: Vec<T>,
}

impl<T: Scalar> MonotonicInterpolator<T> {
    /// The stored abscissae.
    pub closed spec fn spec_xs(&self) -> Seq<T> {
        self.xs@
    }

    /// The stored ordinates.
    pub closed spec fn spec_ys(&self) -> Seq<T> {
        self.ys@
    }

    /// The stored Hermite slopes.
    pub closed spec fn spec_slopes(&self) -> Seq<T> {
        self.slopes@
    }

    /// Well-formedness: at least two points, aligned lengths, sorted
    /// abscissae and one-directional ordinates.
    pub open spec fn wf(&self) -> bool {
        &&& self.spec_xs().len() == self.spec_ys().len()
        &&& self.spec_slopes().len() == self.spec_xs().len()
        &&& self.spec_xs().len() >= 2
        &&& sorted_adj(self.spec_xs())
        &&& monotone_dir(self.spec_ys())
    }
}

impl<T: Scalar> MonotonicInterpolator<T> {
    /// Construct a monotonic interpolator from x and y data points.
    ///
    /// The pairs are sorted by x-coordinate; at least two points are
    /// required and the y-values must run in one direction only. The built
    /// interpolator holds exactly the caller's pairs, in x-sorted order,
    /// with exactly the Fritsch-Carlson slopes of the sorted data.
    /// Construction is owed to succeed whenever the lengths agree, at least
    /// two points are given, and the ordinates follow (or oppose) the
    /// abscissa order pair for pair.
    pub fn new(xs: &[T], ys: &[T]) -> (r: Result<Self, InterpolationError<T>>)
        ensures
            (xs@.len() != ys@.len()) <==> (r is Err && r->Err_0 is InvalidInput),
            (xs@.len() == ys@.len() && xs@.len() < 2) <==> (r is Err
                && r->Err_0 is InsufficientData),
            r matches Err(InterpolationError::InsufficientData { got, need }) ==> got == xs@.len()
                && need == 2,
            r matches Err(InterpolationError::NonMonotonicData { index }) ==> {
                &&& xs@.len() == ys@.len()
                &&& xs@.len() >= 2
                &&& exists|s: Seq<(T, T)>|
                    {
                        &&& s.to_multiset() == zip_pairs(xs@, ys@).to_multiset()
                        &&& s.len() == xs@.len()
                        &&& sorted_adj(first_coords(s))
                        &&& 1 <= index < s.len()
                        &&& monotone_dir(second_coords(s).take(index as int))
                        &&& !monotone_dir(second_coords(s).take(index as int + 1))
                    }
            },
            r is Err ==> (r->Err_0 is InvalidInput || r->Err_0 is InsufficientData
                || r->Err_0 is NonMonotonicData),
            r is Ok ==> {
                let it = r->Ok_0;
                &&& it.wf()
                &&& it.spec_xs().len() == xs@.len()
                &&& zip_pairs(it.spec_xs(), it.spec_ys()).to_multiset() == zip_pairs(
                    xs@,
                    ys@,
                ).to_multiset()
                &&& it.spec_slopes() == spec_fc_slopes(it.spec_xs(), it.spec_ys())
            },
            xs@.len() == ys@.len() && xs@.len() >= 2 && (co_nondecreasing(xs@, ys@)
                || co_nonincreasing(xs@, ys@)) ==> r is Ok,
    {
        if xs.len() != ys.len() {
            return Err(
                InterpolationError::InvalidInput(
                    String::from_str("xs and ys must have same length"),
                ),
            );
        }
        if xs.len() < 2 {
            return Err(InterpolationError::InsufficientData { got: xs.len(), need: 2 });
        }
        let n = xs.len();
        let mut pairs: Vec<(T, T)> = Vec::new();
        let mut i: usize = 0;
        while i < n
            invariant
                i <= n,
                n == xs@.len(),
                n == ys@.len(),
                pairs@.len() == i,
                forall|k: int| 0 <= k < i ==> #[trigger] pairs@[k] == (xs@[k], ys@[k]),
            decreases n - i,
        {
            pairs.push((xs[i], ys[i]));
            i = i + 1;
        }
        proof {
            assert(pairs@ =~= zip_pairs(xs@, ys@));
        }
        sort_pairs_by_x(&mut pairs);
        let ghost sorted = pairs@;
        let mut sorted_xs: Vec<T> = Vec::new();
        let mut sorted_ys: Vec<T> = Vec::new();
        let mut i: usize = 0;
        while i < n
            invariant
                i <= n,
                pairs@.len() == n,
                pairs@ == sorted,
                sorted_xs@.len() == i,
                sorted_ys@.len() == i,
                forall|k: int| 0 <= k < i ==> #[trigger] sorted_xs@[k] == pairs@[k].0,
                forall|k: int| 0 <= k < i ==> #[trigger] sorted_ys@[k] == pairs@[k].1,
            decreases n - i,
        {
            let p = pairs[i];
            sorted_xs.push(p.0);
            sorted_ys.push(p.1);
            i = i + 1;
        }
        proof {
            assert(sorted_xs@ =~= first_coords(sorted));
            assert(sorted_ys@ =~= second_coords(sorted));
            assert(zip_pairs(sorted_xs@, sorted_ys@) =~= sorted);
        }
        match Self::check_monotonicity(&sorted_ys) {
            Err(e) => {
                match e {
                    InterpolationError::NonMonotonicData { index } => {
                        proof {
                            lemma_new_nonmonotonic_case(xs@, ys@, sorted, index as int);
                        }
                        return Err(InterpolationError::NonMonotonicData { index });
                    },
                    _ => {
                        proof {
                            assert(false);
                        }
                        return Err(e);
                    },
                }
            },
            Ok(()) => {},
        }
        let slopes = Self::compute_slopes(&sorted_xs, &sorted_ys);
        Ok(MonotonicInterpolator { xs: sorted_xs, ys: sorted_ys, slopes })
    }

    /// Find the segment index for interpolation by binary search for the
    /// first abscissa strictly above `x`.
    fn find_segment(&self, x: T) -> (r: usize)
        requires
            self.wf(),
        ensures
            r == spec_segment(self.spec_xs(), x),
            0 <= r <= self.spec_xs().len() - 2,
    {
        let n = self.xs.len();
        let mut lo: usize = 0;
        let mut hi: usize = n;
        while lo < hi
            invariant
                0 <= lo <= hi <= n,
                n == self.xs@.len(),
                sorted_adj(self.xs@),
                forall|k: int| 0 <= k < lo ==> !slt(x, #[trigger] self.xs@[k]),
                forall|k: int| hi <= k < n ==> slt(x, #[trigger] self.xs@[k]),
            decreases hi - lo,
        {
            let mid = lo + (hi - lo) / 2;
            if self.xs[mid].le(x) {
                proof {
                    assert forall|k: int| 0 <= k < mid + 1 implies !slt(
                        x,
                        #[trigger] self.xs@[k],
                    ) by {
                        lemma_sorted_le(self.xs@, k, mid as int);
                        lemma_not_slt(x, self.xs@[k]);
                        T::law_le_trans(self.xs@[k], self.xs@[mid as int], x);
                    }
                }
                lo = mid + 1;
            } else {
                proof {
                    lemma_not_slt(self.xs@[mid as int], x);
                    lemma_not_slt(x, self.xs@[mid as int]);
                    assert forall|k: int| mid <= k < n implies slt(
                        x,
                        #[trigger] self.xs@[k],
                    ) by {
                        lemma_sorted_le(self.xs@, mid as int, k);
                        lemma_slt_le_trans(x, self.xs@[mid as int], self.xs@[k]);
                    }
                }
                hi = mid;
            }
        }
        proof {
            lemma_first_above_eq(self.xs@, x, lo as int);
        }
        let pos = lo;
        if pos == 0 {
            0
        } else if pos >= n {
            n - 2
        } else {
            pos - 1
        }
    }

    /// Check that the ordinates run in one direction only, reporting the
    /// first index at which the direction reverses.
    fn check_monotonicity(ys: &Vec<T>) -> (r: Result<(), InterpolationError<T>>)
        ensures
            r is Ok <==> monotone_dir(ys@),
            r is Err ==> r->Err_0 is NonMonotonicData,
            r matches Err(InterpolationError::NonMonotonicData { index }) ==> {
                &&& 1 <= index < ys@.len()
                &&& monotone_dir(ys@.take(index as int))
                &&& !monotone_dir(ys@.take(index as int + 1))
            },
    {
        let n = ys.len();
        if n < 2 {
            proof {
                assert(sorted_adj(ys@));
            }
            return Ok(());
        }
        let mut expected: Option<bool> = None;
        let mut i: usize = 1;
        while i < n
            invariant
                1 <= i <= n,
                n == ys@.len(),
                expected is None ==> forall|k: int| 0 < k < i ==> (#[trigger] ys@[k]) == ys@[k
                    - 1],
                expected == Some(true) ==> sorted_adj(ys@.take(i as int)) && (exists|k: int|
                    0 < k < i && slt(ys@[k - 1], #[trigger] ys@[k])),
                expected == Some(false) ==> noninc_adj(ys@.take(i as int)) && (exists|k: int|
                    0 < k < i && slt(#[trigger] ys@[k], ys@[k - 1])),
            decreases n - i,
        {
            let prev = ys[i - 1];
            let cur = ys[i];
            let ghost pre = ys@.take(i as int);
            let ghost ext = ys@.take(i as int + 1);
            proof {
                assert(forall|k: int| 0 <= k < ext.len() ==> ext[k] == ys@[k]);
                assert(forall|k: int| 0 <= k < pre.len() ==> pre[k] == ys@[k]);
            }
            if lt_s(prev, cur) {
                match expected {
                    None => {
                        proof {
                            assert forall|k: int| 0 < k < ext.len() implies ext[k
                                - 1].sp_le(#[trigger] ext[k]) by {
                                if k < i {
                                    T::law_le_refl(ys@[k]);
                                }
                            }
                            assert(sorted_adj(ext));
                        }
                        expected = Some(true);
                    },
                    Some(up) => {
                        if !up {
                            proof {
                                let wit = choose|k: int|
                                    0 < k < i && slt(#[trigger] ys@[k], ys@[k - 1]);
                                assert(!sorted_adj(ext)) by {
                                    lemma_not_slt(ys@[wit], ys@[wit - 1]);
                                    if ext[wit - 1].sp_le(ext[wit]) {
                                        T::law_le_antisym(ys@[wit], ys@[wit - 1]);
                                    }
                                }
                                assert(!noninc_adj(ext)) by {
                                    if ext[i as int].sp_le(ext[i - 1]) {
                                        T::law_le_antisym(prev, cur);
                                    }
                                }
                                assert(!monotone_dir(ys@)) by {
                                    if sorted_adj(ys@) {
                                        assert(ext[wit - 1].sp_le(ext[wit]));
                                    }
                                    if noninc_adj(ys@) {
                                        assert(ext[i as int].sp_le(ext[i - 1]));
                                    }
                                }
                            }
                            return Err(InterpolationError::NonMonotonicData { index: i });
                        }
                        proof {
                            assert(sorted_adj(ext));
                        }
                    },
                }
            } else if lt_s(cur, prev) {
                match expected {
                    None => {
                        proof {
                            assert forall|k: int| 0 < k < ext.len() implies (#[trigger] ext[k]).sp_le(
                                ext[k - 1],
                            ) by {
                                if k < i {
                                    T::law_le_refl(ys@[k]);
                                }
                            }
                            assert(noninc_adj(ext));
                        }
                        expected = Some(false);
                    },
                    Some(up) => {
                        if up {
                            proof {
                                let wit = choose|k: int|
                                    0 < k < i && slt(ys@[k - 1], #[trigger] ys@[k]);
                                assert(!noninc_adj(ext)) by {
                                    lemma_not_slt(ys@[wit - 1], ys@[wit]);
                                    if ext[wit].sp_le(ext[wit - 1]) {
                                        T::law_le_antisym(ys@[wit - 1], ys@[wit]);
                                    }
                                }
                                assert(!sorted_adj(ext)) by {
                                    if ext[i - 1].sp_le(ext[i as int]) {
                                        T::law_le_antisym(cur, prev);
                                    }
                                }
                                assert(!monotone_dir(ys@)) by {
                                    if sorted_adj(ys@) {
                                        assert(ext[i - 1].sp_le(ext[i as int]));
                                    }
                                    if noninc_adj(ys@) {
                                        assert(ext[wit].sp_le(ext[wit - 1]));
                                    }
                                }
                            }
                            return Err(InterpolationError::NonMonotonicData { index: i });
                        }
                        proof {
                            assert(noninc_adj(ext));
                        }
                    },
                }
            } else {
                proof {
                    lemma_not_slt(prev, cur);
                    lemma_not_slt(cur, prev);
                    T::law_le_antisym(prev, cur);
                    assert(cur == prev);
                    if expected == Some::<bool>(true) {
                        assert(sorted_adj(ext));
                    }
                    if expected == Some::<bool>(false) {
                        assert(noninc_adj(ext));
                    }
                }
            }
            i = i + 1;
        }
        proof {
            assert(ys@.take(i as int) =~= ys@);
            match expected {
                None => {
                    assert forall|k: int| 0 < k < ys@.len() implies ys@[k - 1].sp_le(
                        #[trigger] ys@[k],
                    ) by {
                        T::law_le_refl(ys@[k]);
                    }
                    assert(sorted_adj(ys@));
                },
                Some(up) => {
                    if up {
                        assert(sorted_adj(ys@.take(i as int)));
                        assert(sorted_adj(ys@));
                    } else {
                        assert(noninc_adj(ys@.take(i as int)));
                        assert(noninc_adj(ys@));
                    }
                },
            }
        }
        Ok(())
    }

    /// Compute the Fritsch-Carlson monotonicity-preserving slopes: averaged
    /// adjacent secants in the interior, one-sided secants at the two
    /// boundaries, zero at local extrema and flat segments, and the
    /// `alpha^2 + beta^2 <= 9` rescaling that keeps the cubic from
    /// overshooting.
    fn compute_slopes(xs: &Vec<T>, ys: &Vec<T>) -> (r: Vec<T>)
        requires
            xs@.len() == ys@.len(),
            xs@.len() >= 2,
        ensures
            r@.len() == xs@.len(),
            r@ == spec_fc_slopes(xs@, ys@),
    {
        let n = xs.len();
        let one = T::one();
        let two = one.add(one);
        let three = two.add(one);

        if n == 2 {
            let delta = ys[1].sub(ys[0]).div(xs[1].sub(xs[0]));
            let mut s: Vec<T> = Vec::new();
            s.push(delta);
            s.push(delta);
            proof {
                assert(s@ =~= spec_fc_slopes(xs@, ys@));
            }
            return s;
        }
        // secants between consecutive points
        let mut deltas: Vec<T> = Vec::new();
        let mut i: usize = 0;
        while i < n - 1
            invariant
                i <= n - 1,
                n == xs@.len(),
                n == ys@.len(),
                n >= 3,
                deltas@.len() == i,
                forall|k: int| 0 <= k < i ==> #[trigger] deltas@[k] == spec_secant(xs@, ys@, k),
            decreases n - 1 - i,
        {
            deltas.push(ys[i + 1].sub(ys[i]).div(xs[i + 1].sub(xs[i])));
            i = i + 1;
        }
        // initial slopes: one-sided at the ends, secant averages inside,
        // zero where adjacent secants change sign
        let mut slopes: Vec<T> = Vec::new();
        slopes.push(deltas[0]);
        let mut i: usize = 1;
        while i < n - 1
            invariant
                1 <= i <= n - 1,
                n == xs@.len(),
                n == ys@.len(),
                n >= 3,
                two == T::sp_one().sp_add(T::sp_one()),
                deltas@.len() == n - 1,
                forall|k: int| 0 <= k < n - 1 ==> #[trigger] deltas@[k] == spec_secant(
                    xs@,
                    ys@,
                    k,
                ),
                slopes@.len() == i,
                forall|k: int| 0 <= k < i ==> #[trigger] slopes@[k] == spec_seed_slope(
                    xs@,
                    ys@,
                    k,
                ),
            decreases n - 1 - i,
        {
            let prod = deltas[i - 1].mul(deltas[i]);
            if prod.le(T::zero()) {
                slopes.push(T::zero());
            } else {
                slopes.push(deltas[i - 1].add(deltas[i]).div(two));
            }
            i = i + 1;
        }
        slopes.push(deltas[n - 2]);
        let ghost seeds = Seq::new(n as nat, |k: int| spec_seed_slope(xs@, ys@, k));
        proof {
            assert(slopes@ =~= seeds);
        }
        // Fritsch-Carlson correction
        let mut i: usize = 0;
        while i < n - 1
            invariant
                i <= n - 1,
                n == xs@.len(),
                n == ys@.len(),
                n >= 3,
                three == T::sp_one().sp_add(T::sp_one()).sp_add(T::sp_one()),
                deltas@.len() == n - 1,
                forall|k: int| 0 <= k < n - 1 ==> #[trigger] deltas@[k] == spec_secant(
                    xs@,
                    ys@,
                    k,
                ),
                slopes@.len() == n,
                seeds == Seq::new(n as nat, |k: int| spec_seed_slope(xs@, ys@, k)),
                slopes@ == spec_fc_adjust(xs@, ys@, seeds, i as int),
            decreases n - 1 - i,
        {
            let delta = deltas[i];
            let abs_delta = if lt_s(delta, T::zero()) {
                delta.neg()
            } else {
                delta
            };
            proof {
                assert(abs_delta == spec_abs(delta));
            }
            if lt_s(abs_delta, T::eps()) {
                // flat segment: zero slopes
                slopes.set(i, T::zero());
                slopes.set(i + 1, T::zero());
            } else {
                let alpha = slopes[i].div(delta);
                let beta = slopes[i + 1].div(delta);
                let r2 = alpha.mul(alpha).add(beta.mul(beta));
                let nine = three.mul(three);
                if lt_s(nine, r2) {
                    // scale the slope pair back onto the monotone region
                    let tau = three.div(r2.sqrt());
                    slopes.set(i, tau.mul(alpha).mul(delta));
                    slopes.set(i + 1, tau.mul(beta).mul(delta));
                }
            }
            proof {
                assert(slopes@ == spec_fc_adjust(xs@, ys@, seeds, i as int + 1));
            }
            i = i + 1;
        }
        proof {
            assert(slopes@ == spec_fc_slopes(xs@, ys@));
        }
        slopes
    }
}

/// The index of the first abscissa at or after `lo` that lies strictly
/// above `x`; the length when none does.
pub open spec fn first_above<T: Scalar>(xs: Seq<T>, x: T, lo: int) -> int
    decreases xs.len() - lo,
{
    if lo < 0 || lo >= xs.len() {
        xs.len() as int
    } else if slt(x, xs[lo]) {
        lo
    } else {
        first_above(xs, x, lo + 1)
    }
}

/// The segment index used to interpolate at `x`: one below the first
/// abscissa strictly above `x`, clamped to the valid segment range.
pub open spec fn spec_segment<T: Scalar>(xs: Seq<T>, x: T) -> int {
    let p = first_above(xs, x, 0);
    if p <= 0 {
        0
    } else if p >= xs.len() {
        xs.len() - 2
    } else {
        p - 1
    }
}

/// The defining properties of [`first_above`]: nothing before it is above
/// `x`, and the entry at it (when in range) is.
pub proof fn lemma_first_above_props<T: Scalar>(xs: Seq<T>, x: T, lo: int)
    requires
        0 <= lo <= xs.len(),
    ensures
        lo <= first_above(xs, x, lo) <= xs.len(),
        forall|k: int| lo <= k < first_above(xs, x, lo) ==> !slt(x, xs[k]),
        first_above(xs, x, lo) < xs.len() ==> slt(x, xs[first_above(xs, x, lo)]),
    decreases xs.len() - lo,
{
    if lo < xs.len() && !slt(x, xs[lo]) {
        lemma_first_above_props(xs, x, lo + 1);
    }
}

/// Any index with the partition properties is [`first_above`].
pub proof fn lemma_first_above_eq<T: Scalar>(xs: Seq<T>, x: T, q: int)
    requires
        0 <= q <= xs.len(),
        forall|k: int| 0 <= k < q ==> !slt(x, xs[k]),
        q < xs.len() ==> slt(x, xs[q]),
    ensures
        first_above(xs, x, 0) == q,
{
    lemma_first_above_props(xs, x, 0);
    let p = first_above(xs, x, 0);
    if p < q {
        assert(!slt(x, xs[p]));
    }
    if q < p {
        assert(!slt(x, xs[q]));
    }
}

/// Model of one cubic Hermite segment evaluated at `x`: the four basis
/// polynomials over the normalised coordinate `t = (x - x0) / (x1 - x0)`,
/// blended with the endpoint values and scaled slopes.
pub open spec fn spec_hermite<T: Scalar>(x0: T, x1: T, y0: T, y1: T, m0: T, m1: T, x: T) -> T {
    let one = T::sp_one();
    let two = one.sp_add(one);
    let three = two.sp_add(one);
    let h = x1.sp_add(x0.sp_neg());
    let t = x.sp_add(x0.sp_neg()).sp_div(h);
    let t2 = t.sp_mul(t);
    let t3 = t2.sp_mul(t);
    let h00 = two.sp_mul(t3).sp_add(three.sp_mul(t2).sp_neg()).sp_add(one);
    let h10 = t3.sp_add(two.sp_mul(t2).sp_neg()).sp_add(t);
    let h01 = two.sp_neg().sp_mul(t3).sp_add(three.sp_mul(t2));
    let h11 = t3.sp_add(t2.sp_neg());
    h00.sp_mul(y0).sp_add(h10.sp_mul(h).sp_mul(m0)).sp_add(h01.sp_mul(y1)).sp_add(
        h11.sp_mul(h).sp_mul(m1),
    )
}

/// Model of a monotonic interpolator's answer inside its domain: the
/// Hermite cubic of the segment containing `x`.
pub open spec fn spec_interp_value<T: Scalar>(xs: Seq<T>, ys: Seq<T>, ms: Seq<T>, x: T) -> T {
    let i = spec_segment(xs, x);
    spec_hermite(xs[i], xs[i + 1], ys[i], ys[i + 1], ms[i], ms[i + 1], x)
}

/// Adjacent pairs strictly increase: the sequence is sorted without ties.
pub open spec fn strictly_sorted_adj<T: Scalar>(s: Seq<T>) -> bool {
    forall|i: int| 0 < i < s.len() ==> slt(s[i - 1], #[trigger] s[i])
}

/// At the left end of its segment the Hermite cubic returns the left
/// ordinate exactly.
pub proof fn lemma_hermite_zero<T: Scalar>(x0: T, x1: T, y0: T, y1: T, m0: T, m1: T)
    requires
        x1.sp_add(x0.sp_neg()) != T::sp_zero(),
    ensures
        spec_hermite(x0, x1, y0, y1, m0, m1, x0) == y0,
{
    let zero = T::sp_zero();
    let one = T::sp_one();
    let two = one.sp_add(one);
    let three = two.sp_add(one);
    let h = x1.sp_add(x0.sp_neg());
    T::law_add_neg(x0);
    crate::scalar::lemma_zero_div(h);
    let t = x0.sp_add(x0.sp_neg()).sp_div(h);
    assert(t == zero);
    crate::scalar::lemma_mul_zero::<T>(zero);
    let t2 = t.sp_mul(t);
    let t3 = t2.sp_mul(t);
    assert(t2 == zero && t3 == zero);
    crate::scalar::lemma_mul_zero::<T>(two);
    crate::scalar::lemma_mul_zero::<T>(three);
    crate::scalar::lemma_mul_zero::<T>(two.sp_neg());
    crate::scalar::lemma_neg_zero::<T>();
    T::law_add_zero(zero);
    T::law_add_comm(zero, one);
    T::law_add_zero(one);
    let h00 = two.sp_mul(t3).sp_add(three.sp_mul(t2).sp_neg()).sp_add(one);
    assert(h00 == one);
    let h10 = t3.sp_add(two.sp_mul(t2).sp_neg()).sp_add(t);
    assert(h10 == zero);
    let h01 = two.sp_neg().sp_mul(t3).sp_add(three.sp_mul(t2));
    assert(h01 == zero);
    let h11 = t3.sp_add(t2.sp_neg());
    assert(h11 == zero);
    crate::scalar::lemma_one_mul(y0);
    crate::scalar::lemma_mul_zero::<T>(h);
    T::law_mul_comm(zero, h);
    crate::scalar::lemma_mul_zero::<T>(m0);
    T::law_mul_comm(zero, m0);
    crate::scalar::lemma_mul_zero::<T>(m1);
    T::law_mul_comm(zero, m1);
    crate::scalar::lemma_mul_zero::<T>(y1);
    T::law_mul_comm(zero, y1);
    T::law_add_zero(y0);
}

/// At the right end of its segment the Hermite cubic returns the right
/// ordinate exactly.
pub proof fn lemma_hermite_one<T: Scalar>(x0: T, x1: T, y0: T, y1: T, m0: T, m1: T)
    requires
        x1.sp_add(x0.sp_neg()) != T::sp_zero(),
    ensures
        spec_hermite(x0, x1, y0, y1, m0, m1, x1) == y1,
{
    let zero = T::sp_zero();
    let one = T::sp_one();
    let two = one.sp_add(one);
    let three = two.sp_add(one);
    let h = x1.sp_add(x0.sp_neg());
    // t = h / h = 1
    crate::scalar::lemma_one_mul(h);
    T::law_mul_div(one, h);
    let t = x1.sp_add(x0.sp_neg()).sp_div(h);
    assert(t == one);
    T::law_mul_one(one);
    let t2 = t.sp_mul(t);
    let t3 = t2.sp_mul(t);
    assert(t2 == one && t3 == one);
    T::law_mul_one(two);
    T::law_mul_one(three);
    T::law_mul_one(two.sp_neg());
    // h00 = 2 - 3 + 1 = 0
    crate::scalar::lemma_neg_add(two, one);
    T::law_add_assoc(two, two.sp_neg(), one.sp_neg());
    T::law_add_neg(two);
    T::law_add_comm(zero, one.sp_neg());
    T::law_add_zero(one.sp_neg());
    T::law_add_comm(one.sp_neg(), one);
    T::law_add_neg(one);
    let h00 = two.sp_mul(t3).sp_add(three.sp_mul(t2).sp_neg()).sp_add(one);
    assert(h00 == zero);
    // h10 = 1 - 2 + 1 = 0
    crate::scalar::lemma_neg_add(one, one);
    T::law_add_assoc(one, one.sp_neg(), one.sp_neg());
    T::law_add_zero(one.sp_neg());
    let h10 = t3.sp_add(two.sp_mul(t2).sp_neg()).sp_add(t);
    assert(one.sp_add(two.sp_neg()) == one.sp_neg()) by {
        T::law_add_assoc(one, one.sp_neg(), one.sp_neg());
        T::law_add_neg(one);
        T::law_add_comm(zero, one.sp_neg());
        T::law_add_zero(one.sp_neg());
    }
    assert(h10 == zero);
    // h01 = -2 + 3 = 1
    T::law_add_comm(two.sp_neg(), three);
    T::law_add_comm(two, one);
    T::law_add_assoc(one, two, two.sp_neg());
    T::law_add_neg(two);
    T::law_add_zero(one);
    let h01 = two.sp_neg().sp_mul(t3).sp_add(three.sp_mul(t2));
    assert(three.sp_add(two.sp_neg()) == one) by {
        T::law_add_comm(two, one);
        T::law_add_assoc(one, two, two.sp_neg());
        T::law_add_neg(two);
        T::law_add_zero(one);
    }
    assert(h01 == one);
    // h11 = 1 - 1 = 0
    T::law_add_neg(one);
    let h11 = t3.sp_add(t2.sp_neg());
    assert(h11 == zero);
    crate::scalar::lemma_one_mul(y1);
    crate::scalar::lemma_mul_zero::<T>(h);
    T::law_mul_comm(zero, h);
    crate::scalar::lemma_mul_zero::<T>(m0);
    T::law_mul_comm(zero, m0);
    crate::scalar::lemma_mul_zero::<T>(m1);
    T::law_mul_comm(zero, m1);
    crate::scalar::lemma_mul_zero::<T>(y0);
    T::law_mul_comm(zero, y0);
    T::law_add_zero(zero);
    T::law_add_comm(zero, y1);
    T::law_add_zero(y1);
}

/// Interpolating exactly at a knot returns that knot's ordinate: on
/// strictly sorted abscissae, the model value at `xs[i]` is `ys[i]`, for
/// any slopes.
pub proof fn lemma_knot_exact<T: Scalar>(xs: Seq<T>, ys: Seq<T>, ms: Seq<T>, i: int)
    requires
        xs.len() == ys.len(),
        ms.len() == xs.len(),
        xs.len() >= 2,
        strictly_sorted_adj(xs),
        0 <= i < xs.len(),
    ensures
        spec_interp_value(xs, ys, ms, xs[i]) == ys[i],
{
    let n = xs.len() as int;
    let x = xs[i];
    assert forall|k: int| 0 < k < n implies xs[k - 1].sp_le(#[trigger] xs[k]) by {
        assert(slt(xs[k - 1], xs[k]));
    }
    assert(sorted_adj(xs));
    if i < n - 1 {
        assert forall|k: int| 0 <= k < i + 1 implies !slt(x, xs[k]) by {
            lemma_sorted_le(xs, k, i);
            lemma_not_slt(x, xs[k]);
        }
        assert(slt(xs[i], xs[i + 1]));
        lemma_first_above_eq(xs, x, i + 1);
        assert(spec_segment(xs, x) == i);
        crate::scalar::lemma_diff_nonzero(xs[i], xs[i + 1]);
        lemma_hermite_zero(xs[i], xs[i + 1], ys[i], ys[i + 1], ms[i], ms[i + 1]);
    } else {
        assert forall|k: int| 0 <= k < n implies !slt(x, xs[k]) by {
            lemma_sorted_le(xs, k, i);
            lemma_not_slt(x, xs[k]);
        }
        lemma_first_above_eq(xs, x, n);
        assert(spec_segment(xs, x) == n - 2);
        assert(slt(xs[n - 2], xs[n - 1]));
        crate::scalar::lemma_diff_nonzero(xs[n - 2], xs[n - 1]);
        lemma_hermite_one(xs[n - 2], xs[n - 1], ys[n - 2], ys[n - 1], ms[n - 2], ms[n - 1]);
    }
}

/// At the knots the interpolator's answers follow the direction of the
/// stored ordinates: with nondecreasing ordinates on strictly sorted
/// abscissae, the model value at an earlier knot never exceeds the model
/// value at a later one, for any slopes.
pub proof fn lemma_knot_monotone<T: Scalar>(xs: Seq<T>, ys: Seq<T>, ms: Seq<T>, i: int, j: int)
    requires
        xs.len() == ys.len(),
        ms.len() == xs.len(),
        xs.len() >= 2,
        strictly_sorted_adj(xs),
        sorted_adj(ys),
        0 <= i <= j < xs.len(),
    ensures
        spec_interp_value(xs, ys, ms, xs[i]).sp_le(spec_interp_value(xs, ys, ms, xs[j])),
{
    lemma_knot_exact(xs, ys, ms, i);
    lemma_knot_exact(xs, ys, ms, j);
    lemma_sorted_le(ys, i, j);
}

/// When an x-sorted arrangement of the caller's pairs reverses direction
/// in its ordinates, the input pairs can be co-monotone in neither
/// direction.
proof fn lemma_new_nonmonotonic_case<T: Scalar>(a: Seq<T>, b: Seq<T>, sorted: Seq<(T, T)>, idx: int)
    requires
        a.len() == b.len(),
        sorted.to_multiset() == zip_pairs(a, b).to_multiset(),
        sorted.len() == a.len(),
        sorted_adj(first_coords(sorted)),
        1 <= idx < sorted.len(),
        !monotone_dir(second_coords(sorted).take(idx + 1)),
    ensures
        !co_nondecreasing(a, b),
        !co_nonincreasing(a, b),
{
    let z = zip_pairs(a, b);
    let sx = first_coords(sorted);
    let sy = second_coords(sorted);
    let pre = sy.take(idx + 1);
    if co_nondecreasing(a, b) {
        assert forall|k: int| 0 < k < pre.len() implies pre[k - 1].sp_le(#[trigger] pre[k]) by {
            lemma_perm_contains(sorted, z, k - 1);
            lemma_perm_contains(sorted, z, k);
            let j1 = choose|j: int| 0 <= j < z.len() && z[j] == sorted[k - 1];
            let j2 = choose|j: int| 0 <= j < z.len() && z[j] == sorted[k];
            assert(a[j1] == sx[k - 1] && b[j1] == sy[k - 1]);
            assert(a[j2] == sx[k] && b[j2] == sy[k]);
            assert(sx[k - 1].sp_le(sx[k]));
            assert(b[j1].sp_le(b[j2]));
        }
        assert(sorted_adj(pre));
    }
    if co_nonincreasing(a, b) {
        assert forall|k: int| 0 < k < pre.len() implies (#[trigger] pre[k]).sp_le(pre[k - 1]) by {
            lemma_perm_contains(sorted, z, k - 1);
            lemma_perm_contains(sorted, z, k);
            let j1 = choose|j: int| 0 <= j < z.len() && z[j] == sorted[k - 1];
            let j2 = choose|j: int| 0 <= j < z.len() && z[j] == sorted[k];
            assert(a[j1] == sx[k - 1] && b[j1] == sy[k - 1]);
            assert(a[j2] == sx[k] && b[j2] == sy[k]);
            assert(sx[k - 1].sp_le(sx[k]));
            assert(b[j2].sp_le(b[j1]));
        }
        assert(noninc_adj(pre));
    }
}

impl<T: Scalar> MonotonicInterpolator<T> {
    /// The sorted x-coordinates.
    pub fn xs(&self) -> (r: &[T])
        ensures
            r@ == self.spec_xs(),
    {
        self.xs.as_slice()
    }

    /// The y-values, in the same order as the x-coordinates.
    pub fn ys(&self) -> (r: &[T])
        ensures
            r@ == self.spec_ys(),
    {
        self.ys.as_slice()
    }

    /// The computed Hermite slopes.
    pub fn slopes(&self) -> (r: &[T])
        ensures
            r@ == self.spec_slopes(),
    {
        self.slopes.as_slice()
    }

    /// The number of data points.
    pub fn len(&self) -> (r: usize)
        ensures
            r == self.spec_xs().len(),
    {
        self.xs.len()
    }

    /// Whether the interpolator has no data points; never the case for a
    /// well-formed interpolator.
    pub fn is_empty(&self) -> (r: bool)
        ensures
            r == (self.spec_xs().len() == 0),
    {
        self.xs.is_empty()
    }
}

impl<T: Scalar> Interpolator<T> for MonotonicInterpolator<T> {
    open spec fn inv(&self) -> bool {
        self.wf()
    }

    open spec fn spec_domain(&self) -> (T, T) {
        (self.spec_xs()[0], self.spec_xs().last())
    }

    open spec fn spec_value(&self, x: T) -> T {
        spec_interp_value(self.spec_xs(), self.spec_ys(), self.spec_slopes(), x)
    }

    /// Interpolate at `x` with the Hermite cubic of the containing
    /// segment, found by binary search.
    fn interpolate(&self, x: T) -> (r: Result<T, InterpolationError<T>>) {
        let n = self.xs.len();
        let x_min = self.xs[0];
        let x_max = self.xs[n - 1];
        if lt_s(x, x_min) || lt_s(x_max, x) {
            return Err(InterpolationError::OutOfBounds { x, min: x_min, max: x_max });
        }
        let i = self.find_segment(x);
        let x0 = self.xs[i];
        let x1 = self.xs[i + 1];
        let y0 = self.ys[i];
        let y1 = self.ys[i + 1];
        let m0 = self.slopes[i];
        let m1 = self.slopes[i + 1];
        let h = x1.sub(x0);
        let t = x.sub(x0).div(h);
        let t2 = t.mul(t);
        let t3 = t2.mul(t);
        let one = T::one();
        let two = one.add(one);
        let three = two.add(one);
        let h00 = two.mul(t3).sub(three.mul(t2)).add(one);
        let h10 = t3.sub(two.mul(t2)).add(t);
        let h01 = two.neg().mul(t3).add(three.mul(t2));
        let h11 = t3.sub(t2);
        Ok(h00.mul(y0).add(h10.mul(h).mul(m0)).add(h01.mul(y1)).add(h11.mul(h).mul(m1)))
    }

    /// The valid interpolation domain: the first and last stored
    /// abscissae.
    fn domain(&self) -> (r: (T, T)) {
        proof {
            lemma_sorted_le(self.spec_xs(), 0, self.spec_xs().len() - 1);
        }
        (self.xs[0], self.xs[self.xs.len() - 1])
    }
}

/// Sort a sequence of `(x, y)` pairs in place by their abscissa, keeping
/// exactly the same collection of pairs.
fn sort_pairs_by_x<T: Scalar>(v: &mut Vec<(T, T)>)
    ensures
        final(v)@.len() == old(v)@.len(),
        final(v)@.to_multiset() == old(v)@.to_multiset(),
        sorted_adj(first_coords(final(v)@)),
{
    let ghost m0 = old(v)@.to_multiset();
    let n = v.len();
    let mut i: usize = 1;
    while i < n
        invariant
            1 <= i,
            n == v@.len(),
            i <= n || n <= 1,
            v@.to_multiset() == m0,
            forall|a: int, b: int|
                #![trigger v@[a], v@[b]]
                0 <= a < b < i && b < n ==> v@[a].0.sp_le(v@[b].0),
        decreases n - i,
    {
        let mut j: usize = i;
        while j > 0 && lt_s(v[j].0, v[j - 1].0)
            invariant
                0 <= j <= i < n,
                n == v@.len(),
                v@.to_multiset() == m0,
                forall|a: int, b: int|
                    #![trigger v@[a], v@[b]]
                    0 <= a < b <= i && a != j && b != j ==> v@[a].0.sp_le(v@[b].0),
                forall|k: int| j < k <= i ==> v@[j as int].0.sp_le(#[trigger] v@[k].0),
            decreases j,
        {
            let ghost prev = v@;
            let pj = v[j];
            let pk = v[j - 1];
            v.set(j, pk);
            v.set(j - 1, pj);
            proof {
                lemma_swap_multiset(prev, j as int, j - 1);
                assert(v@ == prev.update(j as int, prev[j - 1]).update(j - 1, prev[j as int]));
                assert forall|k: int| j - 1 < k <= i implies v@[j - 1].0.sp_le(
                    #[trigger] v@[k].0,
                ) by {
                    if k == j {
                        assert(v@[k].0 == prev[j - 1].0);
                        assert(slt(prev[j as int].0, prev[j - 1].0));
                    } else {
                        assert(v@[k].0 == prev[k].0);
                        assert(prev[j as int].0.sp_le(prev[k].0));
                        T::law_le_refl(v@[j - 1].0);
                    }
                }
            }
            j = j - 1;
        }
        proof {
            let vv = v@;
            assert forall|a: int, b: int|
                #![trigger vv[a], vv[b]]
                0 <= a < b <= i && b < n implies vv[a].0.sp_le(vv[b].0) by {
                if a == j as int {
                    if b > j as int {
                        assert(vv[j as int].0.sp_le(vv[b].0));
                    }
                } else if b == j as int {
                    // the inner loop stopped, so the bubble is at or above
                    // its left neighbour
                    assert(j > 0);
                    lemma_not_slt(vv[j as int].0, vv[j - 1].0);
                    if a < j - 1 {
                        assert(vv[a].0.sp_le(vv[j - 1].0));
                        T::law_le_trans(vv[a].0, vv[j - 1].0, vv[j as int].0);
                    }
                } else {
                    assert(vv[a].0.sp_le(vv[b].0));
                }
            }
        }
        i = i + 1;
    }
    proof {
        let vv = v@;
        let f = first_coords(vv);
        assert forall|k: int| 0 < k < f.len() implies f[k - 1].sp_le(#[trigger] f[k]) by {
            assert(f[k] == vv[k].0);
            assert(f[k - 1] == vv[k - 1].0);
            if n > 1 {
                assert(vv[k - 1].0.sp_le(vv[k].0));
            }
        }
    }
}

} // verus!
