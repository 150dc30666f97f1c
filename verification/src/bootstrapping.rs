//! Yield curve bootstrapping from par swap rates.
//!
//! Discount factors are stripped sequentially: the first pillar's factor
//! comes from simple compounding, and every later pillar's factor solves
//! the par condition of a swap maturing at that pillar, given the factors
//! already stripped. The recursion is closed-form per pillar; no
//! iterative solve is involved.

use vstd::prelude::*;

use crate::errors::OptimiserError;
use crate::scalar::Scalar;
use crate::scalar::lemma_add_lt;
use crate::scalar::lemma_le_slt_trans;
use crate::scalar::lemma_mul_pos;
use crate::scalar::lemma_mul_zero;
use crate::scalar::lemma_slt_le_trans;
use crate::scalar::slt;

verus! {

/// Interpolation method for discount factors.
#[derive(Debug, Clone, Copy, PartialEq, Eq)]
pub enum InterpolationMethod {
    /// Linear interpolation on discount factors.
    Linear,
    /// Log-linear interpolation (linear on the log of discount factors).
    LogLinear,
    /// Cubic spline interpolation.
    CubicSpline,
}

/// Configuration for curve bootstrapping.
#[derive(Debug, Clone)]
pub struct BootstrapConfig<T> {
    /// Maximum iterations.
    pub max_iterations: usize,
    /// Convergence tolerance.
    pub tolerance: T,
    /// Interpolation method.
    pub interpolation: InterpolationMethod,
}

impl<T: Scalar> Default for BootstrapConfig<T> {
    /// The standard configuration: a hundred iterations, a tolerance of
    /// one in ten billion, and log-linear interpolation.
    fn default() -> (r: Self)
        ensures
            r.max_iterations == 100,
            r.tolerance == T::sp_ratio(1, 10000000000),
            r.interpolation == InterpolationMethod::LogLinear,
    {
        BootstrapConfig {
            max_iterations: 100,
            tolerance: T::ratio(1, 10000000000),
            interpolation: InterpolationMethod::LogLinear,
        }
    }
}

/// Result of curve bootstrapping.
#[derive(Debug, Clone)]
pub struct BootstrapResult<T> {
    /// Discount factors at each pillar.
    pub discount_factors: Vec<T>,
    /// Pillar dates, in years from today.
    pub pillars: Vec<T>,
    /// Residual error.
    pub residual: T,
}

/// The accrual between pillar `j` and its predecessor (the pillar time
/// itself for the first pillar).
pub open spec fn spec_accrual<T: Scalar>(pillars: Seq<T>, j: int) -> T {
    if j == 0 {
        pillars[0]
    } else {
        pillars[j].sp_add(pillars[j - 1].sp_neg())
    }
}

/// The fixed-leg value of the first `k` accrual periods at `rate`, against
/// the discount factors already stripped.
pub open spec fn spec_fixed_leg<T: Scalar>(pillars: Seq<T>, rate: T, dfs: Seq<T>, k: int) -> T
    decreases k,
{
    if k <= 0 {
        T::sp_zero()
    } else {
        spec_fixed_leg(pillars, rate, dfs, k - 1).sp_add(
            rate.sp_mul(spec_accrual(pillars, k - 1)).sp_mul(dfs[k - 1]),
        )
    }
}

/// The first `k` discount factors stripped from the pillar rates:
/// `1 / (1 + r_0 t_0)` at the first pillar, and at each later pillar the
/// factor that prices its par swap given the factors before it.
pub open spec fn spec_stripped_dfs<T: Scalar>(pillars: Seq<T>, rates: Seq<T>, k: int) -> Seq<T>
    decreases k,
{
    if k <= 0 {
        Seq::empty()
    } else {
        let prev = spec_stripped_dfs(pillars, rates, k - 1);
        let i = k - 1;
        let one = T::sp_one();
        let df = if i == 0 {
            one.sp_div(one.sp_add(rates[0].sp_mul(pillars[0])))
        } else {
            let acc = spec_fixed_leg(pillars, rates[i], prev, i);
            let dt_last = pillars[i].sp_add(pillars[i - 1].sp_neg());
            one.sp_add(acc.sp_neg()).sp_div(one.sp_add(rates[i].sp_mul(dt_last)))
        };
        prev.push(df)
    }
}

/// The accrual-weighted value of the first `k` discount factors:
/// the level annuity of the strip up to pillar `k - 1`.
pub open spec fn spec_weighted_dfs<T: Scalar>(pillars: Seq<T>, dfs: Seq<T>, k: int) -> T
    decreases k,
{
    if k <= 0 {
        T::sp_zero()
    } else {
        spec_weighted_dfs(pillars, dfs, k - 1).sp_add(
            spec_accrual(pillars, k - 1).sp_mul(dfs[k - 1]),
        )
    }
}

/// The fixed leg is the rate times the accrual-weighted discount factors.
proof fn lemma_fixed_leg_factor<T: Scalar>(pillars: Seq<T>, rate: T, dfs: Seq<T>, k: int)
    ensures
        spec_fixed_leg(pillars, rate, dfs, k) == rate.sp_mul(spec_weighted_dfs(pillars, dfs, k)),
    decreases k,
{
    if k <= 0 {
        lemma_mul_zero::<T>(rate);
    } else {
        lemma_fixed_leg_factor(pillars, rate, dfs, k - 1);
        let acc = spec_accrual(pillars, k - 1);
        let w = spec_weighted_dfs(pillars, dfs, k - 1);
        T::law_mul_assoc(rate, acc, dfs[k - 1]);
        T::law_distrib(rate, w, acc.sp_mul(dfs[k - 1]));
    }
}

/// The weighted value reads only the first `k` factors.
proof fn lemma_weighted_prefix<T: Scalar>(pillars: Seq<T>, dfs1: Seq<T>, dfs2: Seq<T>, k: int)
    requires
        forall|j: int| 0 <= j < k ==> dfs1[j] == dfs2[j],
    ensures
        spec_weighted_dfs(pillars, dfs1, k) == spec_weighted_dfs(pillars, dfs2, k),
    decreases k,
{
    if k > 0 {
        lemma_weighted_prefix(pillars, dfs1, dfs2, k - 1);
    }
}

/// The first stripped discount factor does not change as later pillars
/// are stripped.
proof fn lemma_first_factor_stable<T: Scalar>(pillars: Seq<T>, rates: Seq<T>, k: int)
    requires
        k >= 1,
    ensures
        spec_stripped_dfs(pillars, rates, k).len() == k,
        spec_stripped_dfs(pillars, rates, k)[0] == T::sp_one().sp_div(
            T::sp_one().sp_add(rates[0].sp_mul(pillars[0])),
        ),
    decreases k,
{
    let df0 = T::sp_one().sp_div(T::sp_one().sp_add(rates[0].sp_mul(pillars[0])));
    if k == 1 {
        assert(spec_stripped_dfs(pillars, rates, 1) == spec_stripped_dfs(
            pillars,
            rates,
            0,
        ).push(df0));
        assert(spec_stripped_dfs(pillars, rates, 0).push(df0)[0] == df0);
    } else {
        lemma_first_factor_stable(pillars, rates, k - 1);
        let prev = spec_stripped_dfs(pillars, rates, k - 1);
        assert(spec_stripped_dfs(pillars, rates, k).len() == k);
        assert(spec_stripped_dfs(pillars, rates, k)[0] == prev[0]);
    }
}

/// The running invariant of the strip under standard market data: every
/// factor lies strictly inside the unit interval, consecutive factors
/// strictly decrease, each factor obeys the par identity
/// `df_i = 1 - r_i * W_{i+1}` over the running annuity `W`, and the
/// annuity stays positive and bounded by the last stripped pillar time.
proof fn lemma_stripped_invariant<T: Scalar>(pillars: Seq<T>, rates: Seq<T>, k: int)
    requires
        1 <= k <= pillars.len(),
        rates.len() == pillars.len(),
        slt(T::sp_zero(), pillars[0]),
        forall|i: int| 0 < i < k ==> slt(pillars[i - 1], #[trigger] pillars[i]),
        forall|i: int| 0 <= i < k ==> slt(T::sp_zero(), #[trigger] rates[i]),
        forall|i: int| 0 < i < k ==> rates[i - 1].sp_le(#[trigger] rates[i]),
        forall|i: int| 0 <= i < k ==> slt((#[trigger] rates[i]).sp_mul(pillars[i]), T::sp_one()),
    ensures
        spec_stripped_dfs(pillars, rates, k).len() == k,
        forall|i: int|
            0 <= i < k ==> slt(T::sp_zero(), #[trigger] spec_stripped_dfs(pillars, rates, k)[i])
                && slt(spec_stripped_dfs(pillars, rates, k)[i], T::sp_one()),
        forall|i: int|
            0 < i < k ==> slt(
                #[trigger] spec_stripped_dfs(pillars, rates, k)[i],
                spec_stripped_dfs(pillars, rates, k)[i - 1],
            ),
        forall|i: int|
            0 <= i < k ==> #[trigger] spec_stripped_dfs(pillars, rates, k)[i]
                == T::sp_one().sp_add(
                rates[i].sp_mul(
                    spec_weighted_dfs(pillars, spec_stripped_dfs(pillars, rates, k), i + 1),
                ).sp_neg(),
            ),
        slt(T::sp_zero(), spec_weighted_dfs(pillars, spec_stripped_dfs(pillars, rates, k), k)),
        spec_weighted_dfs(pillars, spec_stripped_dfs(pillars, rates, k), k).sp_le(
            pillars[k - 1],
        ),
    decreases k,
{
    let zero = T::sp_zero();
    let one = T::sp_one();
    let dfs = spec_stripped_dfs(pillars, rates, k);
    let i = k - 1;
    let prev = spec_stripped_dfs(pillars, rates, i);
    if k == 1 {
        let t0 = pillars[0];
        let r0 = rates[0];
        let rt = r0.sp_mul(t0);
        let d = one.sp_add(rt);
        let df0 = one.sp_div(d);
        assert(dfs == prev.push(df0));
        assert(dfs[0] == df0);
        assert(slt(zero, r0));
        lemma_mul_pos(r0, t0);
        lemma_add_lt(zero, rt, one);
        T::law_add_comm(zero, one);
        T::law_add_zero(one);
        T::law_add_comm(rt, one);
        assert(slt(one, d));
        crate::scalar::lemma_recip_of_large(d);
        assert(slt(zero, df0) && slt(df0, one));
        // the annuity after one pillar is t0 * df0
        let w1 = spec_weighted_dfs(pillars, dfs, 1);
        let term = spec_accrual(pillars, 0).sp_mul(dfs[0]);
        assert(spec_weighted_dfs(pillars, dfs, 0) == zero);
        T::law_add_comm(zero, term);
        T::law_add_zero(term);
        assert(w1 == t0.sp_mul(df0));
        lemma_mul_pos(t0, df0);
        T::law_mul_le(df0, one, t0);
        T::law_mul_comm(df0, t0);
        crate::scalar::lemma_one_mul(t0);
        T::law_mul_comm(one, t0);
        assert(w1.sp_le(t0));
        // the par identity: df0 * (1 + r0 t0) = 1 gives df0 = 1 - r0 W1
        T::law_zero_lt_one();
        lemma_slt_le_trans(zero, one, d);
        T::law_div_mul(one, d);
        T::law_distrib(df0, one, rt);
        T::law_mul_one(df0);
        let x = df0.sp_mul(rt);
        assert(df0.sp_add(x) == one);
        T::law_mul_assoc(r0, t0, df0);
        T::law_mul_comm(rt, df0);
        assert(r0.sp_mul(w1) == x);
        T::law_add_assoc(one, x.sp_neg(), x);
        T::law_add_comm(x.sp_neg(), x);
        T::law_add_neg(x);
        T::law_add_zero(one);
        assert(one.sp_add(x.sp_neg()).sp_add(x) == one);
        crate::scalar::lemma_add_cancel(one.sp_add(x.sp_neg()), df0, x);
        assert(dfs[0] == one.sp_add(rates[0].sp_mul(w1).sp_neg()));
    } else {
        lemma_stripped_invariant(pillars, rates, i);
        let r_i = rates[i];
        let acc = spec_fixed_leg(pillars, r_i, prev, i);
        let dt = pillars[i].sp_add(pillars[i - 1].sp_neg());
        let den = one.sp_add(r_i.sp_mul(dt));
        let num = one.sp_add(acc.sp_neg());
        let df_i = num.sp_div(den);
        assert(dfs == prev.push(df_i));
        assert(dfs[i] == df_i);
        assert forall|m: int| 0 <= m <= i implies spec_weighted_dfs(pillars, dfs, m)
            == spec_weighted_dfs(pillars, prev, m) by {
            lemma_weighted_prefix(pillars, dfs, prev, m);
        }
        let w_i = spec_weighted_dfs(pillars, prev, i);
        lemma_fixed_leg_factor(pillars, r_i, prev, i);
        assert(acc == r_i.sp_mul(w_i));
        assert(slt(zero, w_i));
        assert(w_i.sp_le(pillars[i - 1]));
        assert(slt(zero, r_i));
        // the accrual of the new period is strictly positive
        assert(slt(pillars[i - 1], pillars[i]));
        crate::scalar::lemma_diff_pos(pillars[i - 1], pillars[i]);
        assert(slt(zero, dt));
        // the damped denominator exceeds one
        lemma_mul_pos(r_i, dt);
        lemma_add_lt(zero, r_i.sp_mul(dt), one);
        T::law_add_comm(zero, one);
        T::law_add_zero(one);
        T::law_add_comm(r_i.sp_mul(dt), one);
        assert(slt(one, den));
        T::law_zero_lt_one();
        lemma_slt_le_trans(zero, one, den);
        // the fixed leg so far is strictly between zero and one
        T::law_mul_le(w_i, pillars[i - 1], r_i);
        T::law_mul_comm(w_i, r_i);
        T::law_mul_comm(pillars[i - 1], r_i);
        T::law_mul_le(pillars[i - 1], pillars[i], r_i);
        T::law_mul_comm(pillars[i], r_i);
        T::law_le_trans(acc, r_i.sp_mul(pillars[i - 1]), r_i.sp_mul(pillars[i]));
        assert(slt(r_i.sp_mul(pillars[i]), one));
        lemma_le_slt_trans(acc, r_i.sp_mul(pillars[i]), one);
        lemma_mul_pos(r_i, w_i);
        assert(slt(zero, acc));
        // hence the numerator lies strictly between zero and one
        lemma_add_lt(acc, one, acc.sp_neg());
        T::law_add_neg(acc);
        assert(slt(zero, num));
        crate::scalar::lemma_neg_lt(zero, acc);
        crate::scalar::lemma_neg_zero::<T>();
        lemma_add_lt(acc.sp_neg(), zero, one);
        T::law_add_comm(acc.sp_neg(), one);
        T::law_add_comm(zero, one);
        T::law_add_zero(one);
        assert(slt(num, one));
        // so the new factor lies strictly between zero and the numerator
        crate::scalar::lemma_div_pos(num, den);
        assert(slt(zero, df_i));
        crate::scalar::lemma_div_antitone_denom(num, one, den);
        crate::scalar::lemma_div_one(num);
        lemma_le_slt_trans(df_i, num, one);
        assert(slt(df_i, one));
        // the par identity at the new pillar
        T::law_div_mul(num, den);
        T::law_distrib(df_i, one, r_i.sp_mul(dt));
        T::law_mul_one(df_i);
        assert(df_i.sp_add(df_i.sp_mul(r_i.sp_mul(dt))) == num);
        T::law_mul_comm(df_i, r_i.sp_mul(dt));
        T::law_mul_assoc(r_i, dt, df_i);
        let w_next = spec_weighted_dfs(pillars, dfs, k);
        assert(spec_weighted_dfs(pillars, dfs, i) == w_i);
        assert(spec_accrual(pillars, i) == dt);
        assert(w_next == w_i.sp_add(dt.sp_mul(df_i)));
        T::law_distrib(r_i, w_i, dt.sp_mul(df_i));
        assert(r_i.sp_mul(w_next) == acc.sp_add(r_i.sp_mul(dt.sp_mul(df_i))));
        // df_i + r_i (dt df_i) == 1 - acc, so df_i + r_i w_next == 1
        let y = r_i.sp_mul(dt.sp_mul(df_i));
        assert(df_i.sp_add(y) == num);
        T::law_add_assoc(df_i.sp_add(y), acc.sp_neg(), acc);
        T::law_add_comm(acc.sp_neg(), acc);
        T::law_add_neg(acc);
        T::law_add_zero(df_i.sp_add(y));
        assert(num.sp_add(acc) == one) by {
            T::law_add_assoc(one, acc.sp_neg(), acc);
            T::law_add_comm(acc.sp_neg(), acc);
            T::law_add_neg(acc);
            T::law_add_zero(one);
        }
        assert(df_i.sp_add(r_i.sp_mul(w_next)) == one) by {
            T::law_add_assoc(df_i, y, acc);
            T::law_add_comm(y, acc);
            assert(df_i.sp_add(y).sp_add(acc) == df_i.sp_add(acc.sp_add(y)));
            assert(r_i.sp_mul(w_next) == acc.sp_add(y));
            assert(df_i.sp_add(y).sp_add(acc) == one);
        }
        let z = r_i.sp_mul(w_next);
        T::law_add_assoc(one, z.sp_neg(), z);
        T::law_add_comm(z.sp_neg(), z);
        T::law_add_neg(z);
        T::law_add_zero(one);
        assert(one.sp_add(z.sp_neg()).sp_add(z) == one);
        crate::scalar::lemma_add_cancel(one.sp_add(z.sp_neg()), df_i, z);
        assert(dfs[i] == one.sp_add(rates[i].sp_mul(w_next).sp_neg()));
        // the new factor undercuts its predecessor
        assert(prev[i - 1] == one.sp_add(
            rates[i - 1].sp_mul(spec_weighted_dfs(pillars, prev, i)).sp_neg(),
        ));
        assert(dfs[i - 1] == prev[i - 1]);
        assert(rates[i - 1].sp_le(r_i));
        T::law_mul_le(rates[i - 1], r_i, w_i);
        T::law_mul_comm(rates[i - 1], w_i);
        T::law_mul_comm(r_i, w_i);
        lemma_mul_pos(dt, df_i);
        lemma_add_lt(zero, dt.sp_mul(df_i), w_i);
        T::law_add_comm(zero, w_i);
        T::law_add_zero(w_i);
        T::law_add_comm(dt.sp_mul(df_i), w_i);
        assert(slt(w_i, w_next));
        crate::scalar::lemma_mul_lt(w_i, w_next, r_i);
        T::law_mul_comm(w_i, r_i);
        T::law_mul_comm(w_next, r_i);
        lemma_le_slt_trans(rates[i - 1].sp_mul(w_i), r_i.sp_mul(w_i), r_i.sp_mul(w_next));
        crate::scalar::lemma_neg_lt(rates[i - 1].sp_mul(w_i), r_i.sp_mul(w_next));
        lemma_add_lt(
            r_i.sp_mul(w_next).sp_neg(),
            rates[i - 1].sp_mul(w_i).sp_neg(),
            one,
        );
        T::law_add_comm(r_i.sp_mul(w_next).sp_neg(), one);
        T::law_add_comm(rates[i - 1].sp_mul(w_i).sp_neg(), one);
        assert(slt(dfs[i], dfs[i - 1]));
        // the annuity grows but stays below the new pillar time
        lemma_slt_le_trans(zero, w_i, w_next);
        T::law_mul_le(df_i, one, dt);
        T::law_mul_comm(df_i, dt);
        crate::scalar::lemma_one_mul(dt);
        T::law_mul_comm(one, dt);
        assert(dt.sp_mul(df_i).sp_le(dt));
        T::law_add_le(dt.sp_mul(df_i), dt, w_i);
        T::law_add_comm(dt.sp_mul(df_i), w_i);
        T::law_add_comm(dt, w_i);
        assert(w_next.sp_le(w_i.sp_add(dt)));
        T::law_add_le(w_i, pillars[i - 1], dt);
        assert(dt.sp_add(pillars[i - 1]) == pillars[i]) by {
            T::law_add_assoc(pillars[i], pillars[i - 1].sp_neg(), pillars[i - 1]);
            T::law_add_comm(pillars[i - 1].sp_neg(), pillars[i - 1]);
            T::law_add_neg(pillars[i - 1]);
            T::law_add_zero(pillars[i]);
        }
        T::law_add_comm(pillars[i - 1], dt);
        T::law_le_trans(w_next, w_i.sp_add(dt), pillars[i]);
        // the prefix facts carry over through the push
        assert forall|j: int| 0 <= j < i implies #[trigger] dfs[j] == one.sp_add(
            rates[j].sp_mul(spec_weighted_dfs(pillars, dfs, j + 1)).sp_neg(),
        ) by {
            assert(dfs[j] == prev[j]);
            assert(spec_weighted_dfs(pillars, dfs, j + 1) == spec_weighted_dfs(
                pillars,
                prev,
                j + 1,
            ));
        }
    }
}

/// The discount factors stripped from standard market data strictly
/// decrease in maturity: with strictly increasing positive pillar times,
/// positive rates that never decrease with maturity, and every
/// `rate * pillar` product below one, each factor lies strictly inside
/// the unit interval and strictly under its predecessor. Sharply inverted
/// or extreme rate curves can break the property, so those hypotheses are
/// required rather than implied.
pub proof fn lemma_stripped_dfs_decreasing<T: Scalar>(pillars: Seq<T>, rates: Seq<T>)
    requires
        pillars.len() >= 1,
        rates.len() == pillars.len(),
        slt(T::sp_zero(), pillars[0]),
        forall|i: int|
            0 < i < pillars.len() ==> slt(pillars[i - 1], #[trigger] pillars[i]),
        forall|i: int| 0 <= i < pillars.len() ==> slt(T::sp_zero(), #[trigger] rates[i]),
        forall|i: int| 0 < i < pillars.len() ==> rates[i - 1].sp_le(#[trigger] rates[i]),
        forall|i: int|
            0 <= i < pillars.len() ==> slt(
                (#[trigger] rates[i]).sp_mul(pillars[i]),
                T::sp_one(),
            ),
    ensures
        forall|i: int|
            0 <= i < pillars.len() ==> slt(
                T::sp_zero(),
                #[trigger] spec_stripped_dfs(pillars, rates, pillars.len() as int)[i],
            ) && slt(
                spec_stripped_dfs(pillars, rates, pillars.len() as int)[i],
                T::sp_one(),
            ),
        forall|i: int|
            0 < i < pillars.len() ==> slt(
                #[trigger] spec_stripped_dfs(pillars, rates, pillars.len() as int)[i],
                spec_stripped_dfs(pillars, rates, pillars.len() as int)[i - 1],
            ),
{
    lemma_stripped_invariant(pillars, rates, pillars.len() as int);
}

/// Under a positive first rate and first pillar time, the first stripped
/// discount factor lies strictly between zero and one: a unit of currency
/// paid later is worth less than a unit today, but still something.
pub proof fn lemma_first_factor_bounds<T: Scalar>(pillars: Seq<T>, rates: Seq<T>)
    requires
        pillars.len() > 0,
        rates.len() == pillars.len(),
        slt(T::sp_zero(), rates[0]),
        slt(T::sp_zero(), pillars[0]),
    ensures
        slt(T::sp_zero(), spec_stripped_dfs(pillars, rates, pillars.len() as int)[0]),
        slt(spec_stripped_dfs(pillars, rates, pillars.len() as int)[0], T::sp_one()),
{
    let zero = T::sp_zero();
    let one = T::sp_one();
    let rt = rates[0].sp_mul(pillars[0]);
    let d = one.sp_add(rt);
    lemma_first_factor_stable(pillars, rates, pillars.len() as int);
    crate::scalar::lemma_mul_pos(rates[0], pillars[0]);
    T::law_add_le(zero, rt, one);
    T::law_add_comm(zero, one);
    T::law_add_zero(one);
    T::law_add_comm(rt, one);
    assert(one.sp_le(d));
    if d == one {
        T::law_add_zero(one);
        crate::scalar::lemma_add_cancel(rt, zero, one);
    }
    crate::scalar::lemma_recip_of_large(d);
}

/// Curve bootstrapper for yield curve construction.
pub struct CurveBootstrapper<T> {
    config: BootstrapConfig<T>,
}

impl<T: Scalar> CurveBootstrapper<T> {
    /// The bootstrapper's configuration.
    pub closed spec fn spec_config(&self) -> BootstrapConfig<T> {
        self.config
    }

    /// Create a new curve bootstrapper with the default configuration.
    pub fn new() -> (r: Self)
        ensures
            r.spec_config().max_iterations == 100,
            r.spec_config().interpolation == InterpolationMethod::LogLinear,
    {
        CurveBootstrapper { config: BootstrapConfig::default() }
    }

    /// Create a new curve bootstrapper with a custom configuration.
    pub fn with_config(config: BootstrapConfig<T>) -> (r: Self)
        ensures
            r.spec_config() == config,
    {
        CurveBootstrapper { config }
    }

    /// Bootstrap a discount curve from pillar times (in years) and par
    /// swap rates.
    ///
    /// Succeeds exactly when the two inputs have the same nonzero length,
    /// and then returns the caller's pillars together with the stripped
    /// discount factors; mismatched lengths give the market-data error and
    /// empty input the insufficient-data error. Sorted pillars and
    /// positive accruals are the caller's responsibility, as is the
    /// non-increase of the resulting factors under non-negative rates;
    /// neither is checked here.
    pub fn bootstrap(&self, pillars: &[T], swap_rates: &[T]) -> (r: Result<
        BootstrapResult<T>,
        OptimiserError<T>,
    >)
        ensures
            (pillars@.len() != swap_rates@.len()) <==> (r is Err
                && r->Err_0 is InvalidMarketData),
            (pillars@.len() == swap_rates@.len() && pillars@.len() == 0) <==> (r is Err
                && r->Err_0 is InsufficientData),
            r matches Err(OptimiserError::InsufficientData { required, provided }) ==> required
                == 1 && provided == 0,
            r is Ok <==> (pillars@.len() == swap_rates@.len() && pillars@.len() > 0),
            r is Ok ==> {
                let res = r->Ok_0;
                &&& res.pillars@ == pillars@
                &&& res.discount_factors@ == spec_stripped_dfs(
                    pillars@,
                    swap_rates@,
                    pillars@.len() as int,
                )
                &&& res.residual == T::sp_zero()
            },
    {
        if pillars.len() != swap_rates.len() {
            return Err(
                OptimiserError::InvalidMarketData(
                    String::from_str("Pillars and swap rates must have the same length"),
                ),
            );
        }
        if pillars.len() == 0 {
            return Err(OptimiserError::InsufficientData { required: 1, provided: 0 });
        }
        let n = pillars.len();
        let one = T::one();
        let mut discount_factors: Vec<T> = Vec::new();
        let mut i: usize = 0;
        while i < n
            invariant
                i <= n,
                n == pillars@.len(),
                n == swap_rates@.len(),
                one == T::sp_one(),
                discount_factors@ == spec_stripped_dfs(pillars@, swap_rates@, i as int),
                discount_factors@.len() == i,
            decreases n - i,
        {
            let t = pillars[i];
            let rate = swap_rates[i];
            let df = if i == 0 {
                one.div(one.add(rate.mul(t)))
            } else {
                let mut sum = T::zero();
                let mut j: usize = 0;
                while j < i
                    invariant
                        j <= i < n,
                        n == pillars@.len(),
                        discount_factors@.len() == i,
                        rate == swap_rates@[i as int],
                        sum == spec_fixed_leg(pillars@, rate, discount_factors@, j as int),
                    decreases i - j,
                {
                    let dt = if j == 0 {
                        pillars[j]
                    } else {
                        pillars[j].sub(pillars[j - 1])
                    };
                    sum = sum.add(rate.mul(dt).mul(discount_factors[j]));
                    j = j + 1;
                }
                let dt_last = t.sub(pillars[i - 1]);
                one.sub(sum).div(one.add(rate.mul(dt_last)))
            };
            proof {
                let k1 = i as int + 1;
                let prev = spec_stripped_dfs(pillars@, swap_rates@, k1 - 1);
                let one_s = T::sp_one();
                if i == 0 {
                    assert(spec_stripped_dfs(pillars@, swap_rates@, k1) == prev.push(
                        one_s.sp_div(one_s.sp_add(swap_rates@[0].sp_mul(pillars@[0]))),
                    ));
                } else {
                    let acc = spec_fixed_leg(pillars@, swap_rates@[i as int], prev, i as int);
                    let dt_last = pillars@[i as int].sp_add(pillars@[i - 1].sp_neg());
                    assert(spec_stripped_dfs(pillars@, swap_rates@, k1) == prev.push(
                        one_s.sp_add(acc.sp_neg()).sp_div(
                            one_s.sp_add(swap_rates@[i as int].sp_mul(dt_last)),
                        ),
                    ));
                }
                assert(discount_factors@ == prev);
                assert(df == spec_stripped_dfs(pillars@, swap_rates@, k1).last());
                assert(discount_factors@.push(df) =~= spec_stripped_dfs(
                    pillars@,
                    swap_rates@,
                    k1,
                ));
            }
            discount_factors.push(df);
            i = i + 1;
        }
        let mut pillar_copy: Vec<T> = Vec::new();
        let mut i: usize = 0;
        while i < n
            invariant
                i <= n,
                n == pillars@.len(),
                pillar_copy@.len() == i,
                forall|k: int| 0 <= k < i ==> #[trigger] pillar_copy@[k] == pillars@[k],
            decreases n - i,
        {
            pillar_copy.push(pillars[i]);
            i = i + 1;
        }
        proof {
            assert(pillar_copy@ =~= pillars@);
        }
        Ok(
            BootstrapResult {
                discount_factors,
                pillars: pillar_copy,
                residual: T::zero(),
            },
        )
    }
}

impl<T: Scalar> Default for CurveBootstrapper<T> {
    /// A bootstrapper with the default configuration.
    fn default() -> (r: Self)
        ensures
            r.spec_config().max_iterations == 100,
    {
        CurveBootstrapper::new()
    }
}

} // verus!
