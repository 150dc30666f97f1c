//! Dense linear system solving by Gaussian elimination with partial
//! pivoting.
//!
//! The whole computation is mirrored by specification functions over the
//! scalar model — pivot selection, row swap, elimination and back
//! substitution — so the contract pins the returned solution to the
//! model's elimination result exactly, and characterises the
//! singular-matrix failure in both directions: the solve fails with it
//! precisely when some column's best remaining pivot falls below the
//! threshold.

use vstd::prelude::*;

use crate::errors::OptimiserError;
use crate::scalar::Scalar;
use crate::scalar::lemma_neg_add;
use crate::scalar::lemma_neg_zero;
use crate::scalar::lt_s;
use crate::scalar::slt;
use crate::scalar::spec_abs;

verus! {

/// The coefficient matrix is square with one row per right-hand-side
/// entry.
pub open spec fn square_system<T: Scalar>(a: Seq<Vec<T>>, n: int) -> bool {
    a.len() == n && forall|i: int| 0 <= i < n ==> (#[trigger] a[i])@.len() == n
}

/// The augmented matrix of the system: each coefficient row extended by
/// its right-hand-side entry.
pub open spec fn spec_augmented<T: Scalar>(a: Seq<Vec<T>>, b: Seq<T>) -> Seq<Seq<T>> {
    Seq::new(b.len(), |i: int| a[i]@.push(b[i]))
}

/// An executable matrix holds exactly the rows of a model matrix.
pub open spec fn rows_match<T: Scalar>(v: Seq<Vec<T>>, m: Seq<Seq<T>>) -> bool {
    v.len() == m.len() && forall|r: int| 0 <= r < v.len() ==> (#[trigger] v[r])@ == m[r]
}

/// The row index in `[k, n)` whose entry in column `c` has the largest
/// magnitude, keeping the earliest such row; `best` carries the best row
/// seen so far.
pub open spec fn spec_pivot_scan<T: Scalar>(
    m: Seq<Seq<T>>,
    c: int,
    k: int,
    best: int,
    n: int,
) -> int
    decreases n - k,
{
    if k >= n {
        best
    } else {
        let next = if slt(spec_abs(m[best][c]), spec_abs(m[k][c])) {
            k
        } else {
            best
        };
        spec_pivot_scan(m, c, k + 1, next, n)
    }
}

/// Two rows of the model matrix exchanged; the matrix itself when they
/// coincide.
pub open spec fn spec_swap_rows<T: Scalar>(m: Seq<Seq<T>>, i: int, p: int) -> Seq<Seq<T>> {
    if p == i {
        m
    } else {
        m.update(i, m[p]).update(p, m[i])
    }
}

/// A row with `f` times another row subtracted from every entry at or
/// after column `from`.
pub open spec fn spec_row_sub<T: Scalar>(rk: Seq<T>, ri: Seq<T>, f: T, from: int) -> Seq<T> {
    Seq::new(
        rk.len(),
        |j: int|
            if from <= j {
                rk[j].sp_add(f.sp_mul(ri[j]).sp_neg())
            } else {
                rk[j]
            },
    )
}

/// Column `c` eliminated below the pivot row: rows `k` through `n - 1`
/// each lose their multiple of row `c`, in order.
pub open spec fn spec_elim_below<T: Scalar>(m: Seq<Seq<T>>, c: int, k: int, n: int) -> Seq<Seq<T>>
    decreases n - k,
{
    if k >= n {
        m
    } else {
        let f = m[k][c].sp_div(m[c][c]);
        spec_elim_below(m.update(k, spec_row_sub(m[k], m[c], f, c)), c, k + 1, n)
    }
}

/// The augmented matrix after the first `i` columns of forward
/// elimination with partial pivoting.
pub open spec fn spec_elim_state<T: Scalar>(m0: Seq<Seq<T>>, i: int, n: int) -> Seq<Seq<T>>
    decreases i,
{
    if i <= 0 {
        m0
    } else {
        let prev = spec_elim_state(m0, i - 1, n);
        let c = i - 1;
        let p = spec_pivot_scan(prev, c, c + 1, c, n);
        spec_elim_below(spec_swap_rows(prev, c, p), c, c + 1, n)
    }
}

/// The best remaining pivot of column `c` clears the singularity
/// threshold.
pub open spec fn spec_pivot_ok<T: Scalar>(m0: Seq<Seq<T>>, c: int, n: int) -> bool {
    let prev = spec_elim_state(m0, c, n);
    let p = spec_pivot_scan(prev, c, c + 1, c, n);
    !slt(spec_abs(prev[p][c]), T::sp_ratio(1, 1000000000000))
}

/// Every column's best remaining pivot clears the threshold: the
/// condition under which the solve succeeds.
pub open spec fn spec_solvable<T: Scalar>(m0: Seq<Seq<T>>, n: int) -> bool {
    forall|c: int| 0 <= c < n ==> spec_pivot_ok(m0, c, n)
}

/// The partial dot product of a row against the solution over columns
/// `[from, to)`.
pub open spec fn spec_back_dot<T: Scalar>(row: Seq<T>, x: Seq<T>, from: int, to: int) -> T
    decreases to - from,
{
    if to <= from {
        T::sp_zero()
    } else {
        spec_back_dot(row, x, from, to - 1).sp_add(row[to - 1].sp_mul(x[to - 1]))
    }
}

/// A row of the system is satisfied by `x` when its first `n` entries
/// dotted with `x` give its augmented entry.
pub open spec fn spec_row_sat<T: Scalar>(row: Seq<T>, x: Seq<T>, n: int) -> bool {
    spec_back_dot(row, x, 0, n) == row[n]
}

/// Every row of the system is satisfied by `x`.
pub open spec fn spec_sys_sat<T: Scalar>(m: Seq<Seq<T>>, x: Seq<T>, n: int) -> bool {
    forall|r: int| 0 <= r < m.len() ==> spec_row_sat(#[trigger] m[r], x, n)
}

/// Partial dots agree when both factors agree on the range.
proof fn lemma_dot_congruent<T: Scalar>(
    row1: Seq<T>,
    x1: Seq<T>,
    row2: Seq<T>,
    x2: Seq<T>,
    from: int,
    to: int,
)
    requires
        forall|j: int| from <= j < to ==> #[trigger] row1[j] == row2[j] && x1[j] == x2[j],
    ensures
        spec_back_dot(row1, x1, from, to) == spec_back_dot(row2, x2, from, to),
    decreases to - from,
{
    if to > from {
        lemma_dot_congruent(row1, x1, row2, x2, from, to - 1);
    }
}

/// A partial dot splits at any point of its range.
proof fn lemma_dot_split<T: Scalar>(row: Seq<T>, x: Seq<T>, from: int, mid: int, to: int)
    requires
        from <= mid <= to,
    ensures
        spec_back_dot(row, x, from, to) == spec_back_dot(row, x, from, mid).sp_add(
            spec_back_dot(row, x, mid, to),
        ),
    decreases to - mid,
{
    if to == mid {
        T::law_add_zero(spec_back_dot(row, x, from, mid));
    } else {
        lemma_dot_split(row, x, from, mid, to - 1);
        T::law_add_assoc(
            spec_back_dot(row, x, from, mid),
            spec_back_dot(row, x, mid, to - 1),
            row[to - 1].sp_mul(x[to - 1]),
        );
    }
}

/// A partial dot over zero entries is zero.
proof fn lemma_dot_zero<T: Scalar>(row: Seq<T>, x: Seq<T>, from: int, to: int)
    requires
        forall|j: int| from <= j < to ==> #[trigger] row[j] == T::sp_zero(),
    ensures
        spec_back_dot(row, x, from, to) == T::sp_zero(),
    decreases to - from,
{
    if to > from {
        lemma_dot_zero(row, x, from, to - 1);
        crate::scalar::lemma_mul_zero::<T>(x[to - 1]);
        T::law_mul_comm(T::sp_zero(), x[to - 1]);
        T::law_add_zero(T::sp_zero());
    }
}

/// Subtracting a multiple of one row from another subtracts the same
/// multiple of its partial dot.
proof fn lemma_dot_sub<T: Scalar>(rk: Seq<T>, ri: Seq<T>, f: T, c: int, x: Seq<T>, to: int)
    requires
        0 <= c <= to,
        to < rk.len(),
        rk.len() == ri.len(),
    ensures
        spec_back_dot(spec_row_sub(rk, ri, f, c), x, c, to) == spec_back_dot(rk, x, c, to).sp_add(
            f.sp_mul(spec_back_dot(ri, x, c, to)).sp_neg(),
        ),
    decreases to - c,
{
    let sub = spec_row_sub(rk, ri, f, c);
    if to == c {
        crate::scalar::lemma_mul_zero::<T>(f);
        crate::scalar::lemma_neg_zero::<T>();
        T::law_add_zero(T::sp_zero());
    } else {
        lemma_dot_sub(rk, ri, f, c, x, to - 1);
        let a = spec_back_dot(rk, x, c, to - 1);
        let b = spec_back_dot(ri, x, c, to - 1);
        let rt = rk[to - 1].sp_mul(x[to - 1]);
        let it = ri[to - 1].sp_mul(x[to - 1]);
        // the new last term expands into the old last terms
        assert(sub[to - 1] == rk[to - 1].sp_add(f.sp_mul(ri[to - 1]).sp_neg()));
        T::law_mul_comm(sub[to - 1], x[to - 1]);
        T::law_distrib(x[to - 1], rk[to - 1], f.sp_mul(ri[to - 1]).sp_neg());
        T::law_mul_comm(x[to - 1], rk[to - 1]);
        T::law_mul_comm(x[to - 1], f.sp_mul(ri[to - 1]).sp_neg());
        assert(sub[to - 1].sp_mul(x[to - 1]) == rt.sp_add(f.sp_mul(it).sp_neg())) by {
            T::law_mul_comm(sub[to - 1], x[to - 1]);
            T::law_distrib(x[to - 1], rk[to - 1], f.sp_mul(ri[to - 1]).sp_neg());
            T::law_mul_comm(x[to - 1], rk[to - 1]);
            T::law_mul_comm(x[to - 1], f.sp_mul(ri[to - 1]).sp_neg());
            crate::scalar::lemma_mul_neg(x[to - 1], f.sp_mul(ri[to - 1]));
            T::law_mul_comm(x[to - 1], f.sp_mul(ri[to - 1]));
            T::law_mul_assoc(f, ri[to - 1], x[to - 1]);
        }
        // regroup: (a - f b) + (rt - f it) == (a + rt) - f (b + it)
        assert((a.sp_add(f.sp_mul(b).sp_neg())).sp_add(rt.sp_add(f.sp_mul(it).sp_neg()))
            == (a.sp_add(rt)).sp_add(f.sp_mul(b.sp_add(it)).sp_neg())) by {
            T::law_distrib(f, b, it);
            crate::scalar::lemma_neg_add(f.sp_mul(b), f.sp_mul(it));
            T::law_add_assoc(a, f.sp_mul(b).sp_neg(), rt.sp_add(f.sp_mul(it).sp_neg()));
            T::law_add_comm(f.sp_mul(b).sp_neg(), rt.sp_add(f.sp_mul(it).sp_neg()));
            T::law_add_assoc(rt, f.sp_mul(it).sp_neg(), f.sp_mul(b).sp_neg());
            T::law_add_comm(f.sp_mul(it).sp_neg(), f.sp_mul(b).sp_neg());
            T::law_add_assoc(a, rt, f.sp_mul(b).sp_neg().sp_add(f.sp_mul(it).sp_neg()));
            T::law_add_assoc(rt, f.sp_mul(b).sp_neg(), f.sp_mul(it).sp_neg());
        }
    }
}

/// The solution vector after back-substituting rows `n - 1` down to
/// `ii`, starting from all zeros.
pub open spec fn spec_back_state<T: Scalar>(m: Seq<Seq<T>>, n: int, ii: int) -> Seq<T>
    decreases n - ii,
{
    if ii >= n {
        Seq::new(n as nat, |j: int| T::sp_zero())
    } else {
        let x = spec_back_state(m, n, ii + 1);
        x.update(
            ii,
            m[ii][n].sp_add(spec_back_dot(m[ii], x, ii + 1, n).sp_neg()).sp_div(m[ii][ii]),
        )
    }
}

/// The pivot scan answers a row index no earlier than its first
/// candidate and inside the matrix.
proof fn lemma_pivot_scan_range<T: Scalar>(m: Seq<Seq<T>>, c: int, k: int, best: int, n: int)
    requires
        0 <= best < n,
        0 <= k,
    ensures
        ({
            let p = spec_pivot_scan(m, c, k, best, n);
            (p == best || k <= p < n) && 0 <= p < n
        }),
    decreases n - k,
{
    if k < n {
        let next = if slt(spec_abs(m[best][c]), spec_abs(m[k][c])) {
            k
        } else {
            best
        };
        lemma_pivot_scan_range(m, c, k + 1, next, n);
    }
}

/// Eliminating below the pivot keeps the matrix shape, leaves rows at or
/// before the pivot row untouched, zeroes the pivot column of every
/// processed row, and preserves zeros in the already-cleared columns.
proof fn lemma_elim_below_shape<T: Scalar>(m: Seq<Seq<T>>, c: int, k: int, n: int)
    requires
        0 <= c < k <= n,
        m.len() == n,
        forall|r: int| 0 <= r < n ==> (#[trigger] m[r]).len() == n + 1,
        m[c][c] != T::sp_zero(),
        forall|r: int, cc: int|
            #![trigger m[r][cc]]
            0 <= cc < c && cc < r < n ==> m[r][cc] == T::sp_zero(),
        forall|r: int, cc: int|
            #![trigger m[r][cc]]
            0 <= cc < c && c <= r < k ==> m[r][cc] == T::sp_zero() || r == c,
        m[c].len() == n + 1,
        forall|cc: int| 0 <= cc < c ==> #[trigger] m[c][cc] == T::sp_zero(),
        forall|r: int| c < r < k ==> #[trigger] m[r][c] == T::sp_zero(),
    ensures
        ({
            let e = spec_elim_below(m, c, k, n);
            &&& e.len() == n
            &&& forall|r: int| 0 <= r < n ==> (#[trigger] e[r]).len() == n + 1
            &&& forall|r: int| 0 <= r < k ==> #[trigger] e[r] == m[r]
            &&& forall|r: int, cc: int|
                #![trigger e[r][cc]]
                0 <= cc <= c && cc < r < n ==> e[r][cc] == T::sp_zero()
        }),
    decreases n - k,
{
    if k < n {
        let f = m[k][c].sp_div(m[c][c]);
        let sub = spec_row_sub(m[k], m[c], f, c);
        let m2 = m.update(k, sub);
        // the pivot entry of the processed row cancels exactly
        T::law_div_mul(m[k][c], m[c][c]);
        T::law_add_neg(m[k][c]);
        assert(sub[c] == T::sp_zero());
        // earlier columns of the processed row stay zero
        assert forall|cc: int| 0 <= cc < c implies #[trigger] sub[cc] == T::sp_zero() by {
            assert(m[k][cc] == T::sp_zero());
        }
        lemma_elim_below_shape(m2, c, k + 1, n);
        assert(spec_elim_below(m, c, k, n) == spec_elim_below(m2, c, k + 1, n));
    }
}

/// After the first `i` columns of elimination the matrix keeps its
/// shape, every cleared column is zero below its diagonal, and every
/// processed diagonal entry still clears the threshold.
proof fn lemma_elim_state_shape<T: Scalar>(m0: Seq<Seq<T>>, i: int, n: int)
    requires
        0 <= i <= n,
        m0.len() == n,
        forall|r: int| 0 <= r < n ==> (#[trigger] m0[r]).len() == n + 1,
        forall|c: int| 0 <= c < i ==> spec_pivot_ok(m0, c, n),
    ensures
        ({
            let st = spec_elim_state(m0, i, n);
            &&& st.len() == n
            &&& forall|r: int| 0 <= r < n ==> (#[trigger] st[r]).len() == n + 1
            &&& forall|r: int, cc: int|
                #![trigger st[r][cc]]
                0 <= cc < i && cc < r < n ==> st[r][cc] == T::sp_zero()
            &&& forall|cc: int|
                0 <= cc < i ==> !slt(
                    spec_abs(#[trigger] spec_elim_state(m0, i, n)[cc][cc]),
                    T::sp_ratio(1, 1000000000000),
                )
        }),
    decreases i,
{
    if i > 0 {
        lemma_elim_state_shape(m0, i - 1, n);
        let prev = spec_elim_state(m0, i - 1, n);
        let c = i - 1;
        let p = spec_pivot_scan(prev, c, c + 1, c, n);
        lemma_pivot_scan_range(prev, c, c + 1, c, n);
        let sw = spec_swap_rows(prev, c, p);
        let st = spec_elim_state(m0, i, n);
        assert(spec_pivot_ok(m0, c, n));
        assert(!slt(spec_abs(sw[c][c]), T::sp_ratio(1, 1000000000000)));
        // a pivot that clears the positive threshold cannot be zero
        T::law_ratio_pos(1, 1000000000000);
        crate::scalar::lemma_not_slt(spec_abs(sw[c][c]), T::sp_ratio(1, 1000000000000));
        if sw[c][c] == T::sp_zero() {
            assert(spec_abs(sw[c][c]) == T::sp_zero());
            T::law_le_antisym(T::sp_ratio(1, 1000000000000), T::sp_zero());
        }
        lemma_elim_below_shape(sw, c, c + 1, n);
        assert(st == spec_elim_below(sw, c, c + 1, n));
        assert forall|cc: int| 0 <= cc < i implies !slt(
            spec_abs(#[trigger] st[cc][cc]),
            T::sp_ratio(1, 1000000000000),
        ) by {
            assert(st[cc] == sw[cc]);
            if cc < c {
                assert(sw[cc] == prev[cc]);
            }
        }
    }
}

/// Eliminating below a pivot row whose earlier columns are zero changes
/// no solution: a vector satisfies the system before exactly when it
/// satisfies it after.
proof fn lemma_elim_below_sat<T: Scalar>(m: Seq<Seq<T>>, c: int, k: int, n: int, x: Seq<T>)
    requires
        0 <= c < k <= n,
        m.len() == n,
        forall|r: int| 0 <= r < n ==> (#[trigger] m[r]).len() == n + 1,
        forall|cc: int| 0 <= cc < c ==> #[trigger] m[c][cc] == T::sp_zero(),
    ensures
        spec_sys_sat(m, x, n) <==> spec_sys_sat(spec_elim_below(m, c, k, n), x, n),
    decreases n - k,
{
    if k < n {
        let f = m[k][c].sp_div(m[c][c]);
        let sub = spec_row_sub(m[k], m[c], f, c);
        let m2 = m.update(k, sub);
        // relate the processed row's dot and augmented entry before and
        // after the subtraction
        lemma_dot_split(sub, x, 0, c, n);
        lemma_dot_split(m[k], x, 0, c, n);
        lemma_dot_congruent(sub, x, m[k], x, 0, c);
        lemma_dot_sub(m[k], m[c], f, c, x, n);
        lemma_dot_split(m[c], x, 0, c, n);
        lemma_dot_zero(m[c], x, 0, c);
        T::law_add_comm(T::sp_zero(), spec_back_dot(m[c], x, c, n));
        T::law_add_zero(spec_back_dot(m[c], x, c, n));
        assert(spec_back_dot(m[c], x, c, n) == spec_back_dot(m[c], x, 0, n));
        assert(sub[n] == m[k][n].sp_add(f.sp_mul(m[c][n]).sp_neg()));
        let dk = spec_back_dot(m[k], x, 0, n);
        let dc = spec_back_dot(m[c], x, 0, n);
        assert(spec_back_dot(sub, x, 0, n) == dk.sp_add(f.sp_mul(dc).sp_neg())) by {
            T::law_add_assoc(
                spec_back_dot(m[k], x, 0, c),
                spec_back_dot(m[k], x, c, n),
                f.sp_mul(dc).sp_neg(),
            );
        }
        // with the pivot row satisfied, the processed row is satisfied
        // before exactly when it is after
        assert(spec_row_sat(m[c], x, n) ==> (spec_row_sat(sub, x, n) <==> spec_row_sat(
            m[k],
            x,
            n,
        ))) by {
            if spec_row_sat(m[c], x, n) {
                if spec_row_sat(sub, x, n) {
                    crate::scalar::lemma_add_cancel(dk, m[k][n], f.sp_mul(dc).sp_neg());
                }
            }
        }
        lemma_elim_below_sat(m2, c, k + 1, n, x);
        assert(spec_elim_below(m, c, k, n) == spec_elim_below(m2, c, k + 1, n));
        assert(spec_sys_sat(m, x, n) ==> spec_sys_sat(m2, x, n)) by {
            if spec_sys_sat(m, x, n) {
                assert(spec_row_sat(m[c], x, n));
                assert(spec_row_sat(m[k], x, n));
                assert forall|r: int| 0 <= r < n implies spec_row_sat(#[trigger] m2[r], x, n) by {
                    if r != k {
                        assert(m2[r] == m[r]);
                    }
                }
            }
        }
        assert(spec_sys_sat(m2, x, n) ==> spec_sys_sat(m, x, n)) by {
            if spec_sys_sat(m2, x, n) {
                assert(m2[c] == m[c]);
                assert(spec_row_sat(m[c], x, n));
                assert(spec_row_sat(m2[k], x, n));
                assert forall|r: int| 0 <= r < n implies spec_row_sat(#[trigger] m[r], x, n) by {
                    if r != k {
                        assert(m2[r] == m[r]);
                    }
                }
            }
        }
    }
}

/// Swapping two rows changes no solution.
proof fn lemma_swap_sat<T: Scalar>(m: Seq<Seq<T>>, i: int, p: int, n: int, x: Seq<T>)
    requires
        0 <= i < n,
        0 <= p < n,
        m.len() == n,
    ensures
        spec_sys_sat(m, x, n) <==> spec_sys_sat(spec_swap_rows(m, i, p), x, n),
{
    let sw = spec_swap_rows(m, i, p);
    if spec_sys_sat(m, x, n) {
        assert forall|r: int| 0 <= r < n implies spec_row_sat(#[trigger] sw[r], x, n) by {
            assert(sw[r] == m[r] || sw[r] == m[i] || sw[r] == m[p]);
        }
    }
    if spec_sys_sat(sw, x, n) {
        assert forall|r: int| 0 <= r < n implies spec_row_sat(#[trigger] m[r], x, n) by {
            assert(m[r] == sw[r] || m[r] == sw[i] || m[r] == sw[p]);
        }
    }
}

/// Forward elimination changes no solution.
proof fn lemma_elim_state_sat<T: Scalar>(m0: Seq<Seq<T>>, i: int, n: int, x: Seq<T>)
    requires
        0 <= i <= n,
        m0.len() == n,
        forall|r: int| 0 <= r < n ==> (#[trigger] m0[r]).len() == n + 1,
        forall|c: int| 0 <= c < i ==> spec_pivot_ok(m0, c, n),
    ensures
        spec_sys_sat(m0, x, n) <==> spec_sys_sat(spec_elim_state(m0, i, n), x, n),
    decreases i,
{
    if i > 0 {
        lemma_elim_state_sat(m0, i - 1, n, x);
        lemma_elim_state_shape(m0, i - 1, n);
        let prev = spec_elim_state(m0, i - 1, n);
        let c = i - 1;
        let p = spec_pivot_scan(prev, c, c + 1, c, n);
        lemma_pivot_scan_range(prev, c, c + 1, c, n);
        let sw = spec_swap_rows(prev, c, p);
        lemma_swap_sat(prev, c, p, n, x);
        assert forall|cc: int| 0 <= cc < c implies #[trigger] sw[c][cc] == T::sp_zero() by {
            assert(sw[c] == prev[p]);
        }
        lemma_elim_below_sat(sw, c, c + 1, n, x);
    }
}

/// Back substitution satisfies every processed row of a triangular
/// system with nonzero diagonal.
proof fn lemma_back_sat<T: Scalar>(m: Seq<Seq<T>>, n: int, ii: int)
    requires
        0 <= ii <= n,
        m.len() == n,
        forall|r: int| 0 <= r < n ==> (#[trigger] m[r]).len() == n + 1,
        forall|r: int, cc: int| #![trigger m[r][cc]] 0 <= cc && cc < r < n ==> m[r][cc]
            == T::sp_zero(),
        forall|r: int| 0 <= r < n ==> #[trigger] m[r][r] != T::sp_zero(),
    ensures
        spec_back_state(m, n, ii).len() == n,
        forall|r: int|
            ii <= r < n ==> spec_row_sat(#[trigger] m[r], spec_back_state(m, n, ii), n),
    decreases n - ii,
{
    if ii < n {
        lemma_back_sat(m, n, ii + 1);
        let xprev = spec_back_state(m, n, ii + 1);
        let x = spec_back_state(m, n, ii);
        let piv = m[ii][ii];
        let d = spec_back_dot(m[ii], xprev, ii + 1, n);
        let xi = m[ii][n].sp_add(d.sp_neg()).sp_div(piv);
        assert(x == xprev.update(ii, xi));
        // the new row is satisfied by construction
        assert(spec_row_sat(m[ii], x, n)) by {
            lemma_dot_split(m[ii], x, 0, ii, n);
            lemma_dot_split(m[ii], x, ii, ii + 1, n);
            lemma_dot_zero(m[ii], x, 0, ii);
            lemma_dot_congruent(m[ii], x, m[ii], xprev, ii + 1, n);
            assert(spec_back_dot(m[ii], x, ii, ii + 1) == piv.sp_mul(xi)) by {
                assert(xprev.len() == n);
                assert(x[ii] == xi);
                assert(spec_back_dot(m[ii], x, ii, ii) == T::sp_zero());
                assert(spec_back_dot(m[ii], x, ii, ii + 1) == spec_back_dot(
                    m[ii],
                    x,
                    ii,
                    ii,
                ).sp_add(m[ii][ii].sp_mul(x[ii])));
                T::law_add_comm(T::sp_zero(), m[ii][ii].sp_mul(x[ii]));
                T::law_add_zero(m[ii][ii].sp_mul(x[ii]));
                T::law_add_comm(m[ii][ii].sp_mul(x[ii]), T::sp_zero());
            }
            T::law_div_mul(m[ii][n].sp_add(d.sp_neg()), piv);
            T::law_mul_comm(xi, piv);
            assert(piv.sp_mul(xi) == m[ii][n].sp_add(d.sp_neg()));
            T::law_add_comm(T::sp_zero(), piv.sp_mul(xi).sp_add(d));
            T::law_add_zero(piv.sp_mul(xi).sp_add(d));
            T::law_add_assoc(m[ii][n], d.sp_neg(), d);
            T::law_add_comm(d.sp_neg(), d);
            T::law_add_neg(d);
            T::law_add_zero(m[ii][n]);
        }
        // later rows stay satisfied: their leading entries are zero and
        // their tail reads unchanged solution entries
        assert forall|r: int| ii < r < n implies spec_row_sat(#[trigger] m[r], x, n) by {
            lemma_dot_split(m[r], x, 0, r, n);
            lemma_dot_split(m[r], xprev, 0, r, n);
            lemma_dot_zero(m[r], x, 0, r);
            lemma_dot_zero(m[r], xprev, 0, r);
            lemma_dot_congruent(m[r], x, m[r], xprev, r, n);
            T::law_add_comm(T::sp_zero(), spec_back_dot(m[r], x, r, n));
            T::law_add_zero(spec_back_dot(m[r], x, r, n));
            T::law_add_comm(T::sp_zero(), spec_back_dot(m[r], xprev, r, n));
            T::law_add_zero(spec_back_dot(m[r], xprev, r, n));
        }
    }
}

/// The returned solution satisfies the original system in the scalar
/// model: whenever the system is square and every pivot clears the
/// threshold, dotting any coefficient row with the solution recovers the
/// matching right-hand-side entry.
pub proof fn lemma_solution_satisfies<T: Scalar>(a: Seq<Vec<T>>, b: Seq<T>)
    requires
        square_system(a, b.len() as int),
        spec_solvable(spec_augmented(a, b), b.len() as int),
    ensures
        forall|i: int|
            0 <= i < b.len() ==> spec_back_dot(
                (#[trigger] a[i])@,
                spec_solution(a, b),
                0,
                b.len() as int,
            ) == b[i],
{
    let n = b.len() as int;
    let m0 = spec_augmented(a, b);
    let mfin = spec_elim_state(m0, n, n);
    let x = spec_solution(a, b);
    assert(forall|r: int| 0 <= r < n ==> (#[trigger] m0[r]).len() == n + 1);
    lemma_elim_state_shape(m0, n, n);
    // the cleared diagonals are nonzero
    T::law_ratio_pos(1, 1000000000000);
    assert forall|r: int| 0 <= r < n implies #[trigger] mfin[r][r] != T::sp_zero() by {
        crate::scalar::lemma_not_slt(spec_abs(mfin[r][r]), T::sp_ratio(1, 1000000000000));
        if mfin[r][r] == T::sp_zero() {
            assert(spec_abs(mfin[r][r]) == T::sp_zero());
            T::law_le_antisym(T::sp_ratio(1, 1000000000000), T::sp_zero());
        }
    }
    lemma_back_sat(mfin, n, 0);
    assert(spec_sys_sat(mfin, x, n));
    lemma_elim_state_sat(m0, n, n, x);
    assert(spec_sys_sat(m0, x, n));
    assert forall|i: int| 0 <= i < b.len() implies spec_back_dot(
        (#[trigger] a[i])@,
        x,
        0,
        n,
    ) == b[i] by {
        assert(spec_row_sat(m0[i], x, n));
        lemma_dot_congruent(m0[i], x, a[i]@, x, 0, n);
        assert(m0[i][n] == b[i]);
    }
}

/// The model's answer to the system: forward elimination of the
/// augmented matrix over every column, then back substitution.
pub open spec fn spec_solution<T: Scalar>(a: Seq<Vec<T>>, b: Seq<T>) -> Seq<T> {
    let n = b.len() as int;
    spec_back_state(spec_elim_state(spec_augmented(a, b), n, n), n, 0)
}

/// Solve the square system `a * x = b` by Gaussian elimination with
/// partial pivoting.
///
/// Fails with a dimension-mismatch error exactly when `a` is not square
/// of `b`'s size; fails with a singular-matrix error exactly when some
/// column's best remaining pivot magnitude falls below the singularity
/// threshold `1e-12` after row selection; and otherwise returns exactly
/// the model's elimination-and-back-substitution result, which satisfies
/// the original system: dotting any coefficient row with it recovers the
/// matching right-hand-side entry. Intended for the small systems the
/// optimisers build: parameter counts in the tens.
pub fn solve_linear_system<T: Scalar>(a: &[Vec<T>], b: &[T]) -> (r: Result<
    Vec<T>,
    OptimiserError<T>,
>)
    requires
        b@.len() < usize::MAX,
    ensures
        (r is Err && r->Err_0 is InvalidBounds) <==> !square_system(a@, b@.len() as int),
        r is Err ==> (r->Err_0 is InvalidBounds || r->Err_0 is SingularMatrix),
        r is Ok ==> r->Ok_0@.len() == b@.len(),
        square_system(a@, b@.len() as int) ==> ((r is Err && r->Err_0 is SingularMatrix)
            <==> !spec_solvable(spec_augmented(a@, b@), b@.len() as int)),
        square_system(a@, b@.len() as int) && r is Ok ==> r->Ok_0@ == spec_solution(a@, b@),
        square_system(a@, b@.len() as int) && r is Ok ==> forall|i: int|
            0 <= i < b@.len() ==> spec_back_dot(
                (#[trigger] a@[i])@,
                r->Ok_0@,
                0,
                b@.len() as int,
            ) == b@[i],
{
    let n = b.len();
    if a.len() != n {
        return Err(
            OptimiserError::InvalidBounds(String::from_str("Matrix dimension mismatch")),
        );
    }
    let mut i: usize = 0;
    let mut square = true;
    while i < n
        invariant
            i <= n,
            n == a@.len(),
            square <==> forall|k: int| 0 <= k < i ==> (#[trigger] a@[k])@.len() == n,
        decreases n - i,
    {
        if a[i].len() != n {
            square = false;
        }
        proof {
            if a@[i as int]@.len() != n {
                assert(!square);
            }
        }
        i = i + 1;
    }
    if !square {
        return Err(
            OptimiserError::InvalidBounds(String::from_str("Matrix dimension mismatch")),
        );
    }
    let ghost m0 = spec_augmented(a@, b@);
    // augmented matrix [a | b]
    let mut aug: Vec<Vec<T>> = Vec::new();
    let mut i: usize = 0;
    while i < n
        invariant
            i <= n,
            n == a@.len(),
            n == b@.len(),
            forall|k: int| 0 <= k < n ==> (#[trigger] a@[k])@.len() == n,
            aug@.len() == i,
            forall|k: int| 0 <= k < i ==> (#[trigger] aug@[k])@.len() == n + 1,
            forall|k: int| 0 <= k < i ==> (#[trigger] aug@[k])@ == a@[k]@.push(b@[k]),
        decreases n - i,
    {
        let mut row: Vec<T> = Vec::new();
        let mut j: usize = 0;
        while j < n
            invariant
                j <= n,
                i < n,
                n == a@.len(),
                forall|k: int| 0 <= k < n ==> (#[trigger] a@[k])@.len() == n,
                row@ == a@[i as int]@.take(j as int),
            decreases n - j,
        {
            row.push(a[i][j]);
            proof {
                assert(row@ =~= a@[i as int]@.take(j as int + 1));
            }
            j = j + 1;
        }
        proof {
            assert(a@[i as int]@.take(n as int) =~= a@[i as int]@);
        }
        row.push(b[i]);
        aug.push(row);
        i = i + 1;
    }
    let threshold = T::ratio(1, 1000000000000);
    let zero = T::zero();
    // forward elimination with partial pivoting
    let mut i: usize = 0;
    while i < n
        invariant
            i <= n,
            n == b@.len(),
            n < usize::MAX,
            square_system(a@, n as int),
            m0 == spec_augmented(a@, b@),
            threshold == T::sp_ratio(1, 1000000000000),
            zero == T::sp_zero(),
            aug@.len() == n,
            forall|k: int| 0 <= k < n ==> (#[trigger] aug@[k])@.len() == n + 1,
            rows_match(aug@, spec_elim_state(m0, i as int, n as int)),
            forall|c: int| 0 <= c < i ==> spec_pivot_ok(m0, c, n as int),
        decreases n - i,
    {
        let ghost mcur = spec_elim_state(m0, i as int, n as int);
        // pick the row with the largest pivot magnitude
        let mut max_row: usize = i;
        let mut k: usize = i + 1;
        while k < n
            invariant
                i < n,
                i <= max_row < n,
                i < k <= n,
                zero == T::sp_zero(),
                aug@.len() == n,
                forall|r: int| 0 <= r < n ==> (#[trigger] aug@[r])@.len() == n + 1,
                rows_match(aug@, mcur),
                spec_pivot_scan(mcur, i as int, k as int, max_row as int, n as int)
                    == spec_pivot_scan(mcur, i as int, i + 1, i as int, n as int),
            decreases n - k,
        {
            let cand = aug[k][i];
            let cand_abs = if lt_s(cand, zero) {
                cand.neg()
            } else {
                cand
            };
            let best = aug[max_row][i];
            let best_abs = if lt_s(best, zero) {
                best.neg()
            } else {
                best
            };
            proof {
                assert(cand_abs == spec_abs(mcur[k as int][i as int]));
                assert(best_abs == spec_abs(mcur[max_row as int][i as int]));
            }
            if lt_s(best_abs, cand_abs) {
                max_row = k;
            }
            k = k + 1;
        }
        let ghost p = spec_pivot_scan(mcur, i as int, i + 1, i as int, n as int);
        proof {
            assert(max_row as int == p);
        }
        if max_row != i {
            // swap rows i and max_row
            let ghost before = aug@;
            let row_m = aug.remove(max_row);
            let row_i = aug.remove(i);
            aug.insert(i, row_m);
            aug.insert(max_row, row_i);
            proof {
                assert(aug@ =~= before.update(i as int, before[max_row as int]).update(
                    max_row as int,
                    before[i as int],
                ));
            }
        }
        let ghost msw = spec_swap_rows(mcur, i as int, p);
        proof {
            assert(rows_match(aug@, msw));
        }
        let pivot = aug[i][i];
        let pivot_abs = if lt_s(pivot, zero) {
            pivot.neg()
        } else {
            pivot
        };
        proof {
            assert(msw[i as int][i as int] == mcur[p][i as int]);
            assert(pivot_abs == spec_abs(mcur[p][i as int]));
        }
        if lt_s(pivot_abs, threshold) {
            proof {
                assert(!spec_pivot_ok(m0, i as int, n as int));
                assert(!spec_solvable(m0, n as int));
            }
            return Err(OptimiserError::SingularMatrix);
        }
        proof {
            assert(spec_pivot_ok(m0, i as int, n as int));
        }
        // eliminate the column below the pivot
        let ghost mut mstate = msw;
        let mut k: usize = i + 1;
        while k < n
            invariant
                i < n,
                i < k <= n,
                n < usize::MAX,
                aug@.len() == n,
                forall|r: int| 0 <= r < n ==> (#[trigger] aug@[r])@.len() == n + 1,
                rows_match(aug@, mstate),
                spec_elim_below(mstate, i as int, k as int, n as int) == spec_elim_below(
                    msw,
                    i as int,
                    i + 1,
                    n as int,
                ),
            decreases n - k,
        {
            let factor = aug[k][i].div(aug[i][i]);
            let ghost before = aug@;
            let ghost row_old = mstate[k as int];
            let mut row_k = aug.remove(k);
            let mut j: usize = i;
            while j <= n
                invariant
                    i <= j <= n + 1,
                    i < k < n,
                    n < usize::MAX,
                    aug@.len() == n - 1,
                    row_k@.len() == n + 1,
                    row_old.len() == n + 1,
                    forall|r: int| 0 <= r < n - 1 ==> (#[trigger] aug@[r])@.len() == n + 1,
                    before.len() == n,
                    aug@ == before.remove(k as int),
                    rows_match(before, mstate),
                    factor == mstate[k as int][i as int].sp_div(mstate[i as int][i as int]),
                    row_old == mstate[k as int],
                    row_k@ == Seq::new(
                        (n + 1) as nat,
                        |jj: int|
                            if i <= jj < j {
                                row_old[jj].sp_add(
                                    factor.sp_mul(mstate[i as int][jj]).sp_neg(),
                                )
                            } else {
                                row_old[jj]
                            },
                    ),
                decreases n + 1 - j,
            {
                proof {
                    assert(aug@[i as int] == before[i as int]);
                    assert(aug@[i as int]@ == mstate[i as int]);
                }
                row_k.set(j, row_k[j].sub(factor.mul(aug[i][j])));
                proof {
                    assert(row_k@ =~= Seq::new(
                        (n + 1) as nat,
                        |jj: int|
                            if i <= jj < j + 1 {
                                row_old[jj].sp_add(
                                    factor.sp_mul(mstate[i as int][jj]).sp_neg(),
                                )
                            } else {
                                row_old[jj]
                            },
                    ));
                }
                j = j + 1;
            }
            proof {
                assert(row_k@ =~= spec_row_sub(
                    mstate[k as int],
                    mstate[i as int],
                    factor,
                    i as int,
                ));
            }
            let ghost rk = row_k;
            aug.insert(k, row_k);
            proof {
                assert(aug@ =~= before.update(k as int, rk));
                mstate = mstate.update(
                    k as int,
                    spec_row_sub(mstate[k as int], mstate[i as int], factor, i as int),
                );
                assert(rows_match(aug@, mstate));
            }
            k = k + 1;
        }
        proof {
            assert(spec_elim_below(msw, i as int, i + 1, n as int) == mstate);
            assert(spec_elim_state(m0, i as int + 1, n as int) == mstate);
        }
        i = i + 1;
    }
    let ghost mfin = spec_elim_state(m0, n as int, n as int);
    proof {
        assert(rows_match(aug@, mfin));
    }
    // back substitution
    let mut x: Vec<T> = Vec::new();
    let mut i: usize = 0;
    while i < n
        invariant
            i <= n,
            x@.len() == i,
            forall|k: int| 0 <= k < i ==> #[trigger] x@[k] == T::sp_zero(),
        decreases n - i,
    {
        x.push(T::zero());
        i = i + 1;
    }
    proof {
        assert(x@ =~= spec_back_state(mfin, n as int, n as int));
    }
    let mut ii: usize = n;
    while ii > 0
        invariant
            ii <= n,
            n == b@.len(),
            x@.len() == n,
            aug@.len() == n,
            forall|r: int| 0 <= r < n ==> (#[trigger] aug@[r])@.len() == n + 1,
            rows_match(aug@, mfin),
            x@ == spec_back_state(mfin, n as int, ii as int),
        decreases ii,
    {
        let i = ii - 1;
        let ghost xprev = x@;
        let mut acc = aug[i][n];
        proof {
            lemma_neg_zero::<T>();
            T::law_add_zero(mfin[i as int][n as int]);
            assert(acc == mfin[i as int][n as int].sp_add(
                spec_back_dot(mfin[i as int], xprev, i + 1, i + 1).sp_neg(),
            ));
        }
        let mut j: usize = i + 1;
        while j < n
            invariant
                i < n,
                i < j <= n,
                n == b@.len(),
                x@.len() == n,
                x@ == xprev,
                aug@.len() == n,
                forall|r: int| 0 <= r < n ==> (#[trigger] aug@[r])@.len() == n + 1,
                rows_match(aug@, mfin),
                acc == mfin[i as int][n as int].sp_add(
                    spec_back_dot(mfin[i as int], xprev, i + 1, j as int).sp_neg(),
                ),
            decreases n - j,
        {
            acc = acc.sub(aug[i][j].mul(x[j]));
            proof {
                let c = mfin[i as int][n as int];
                let d = spec_back_dot(mfin[i as int], xprev, i + 1, j as int);
                let t = mfin[i as int][j as int].sp_mul(xprev[j as int]);
                lemma_neg_add(d, t);
                T::law_add_assoc(c, d.sp_neg(), t.sp_neg());
                assert(spec_back_dot(mfin[i as int], xprev, i + 1, j as int + 1) == d.sp_add(
                    t,
                ));
            }
            j = j + 1;
        }
        x.set(i, acc.div(aug[i][i]));
        proof {
            assert(x@ =~= spec_back_state(mfin, n as int, i as int));
        }
        ii = ii - 1;
    }
    proof {
        if square_system(a@, n as int) {
            assert(x@ == spec_solution(a@, b@));
            assert(spec_solvable(m0, n as int));
            lemma_solution_satisfies(a@, b@);
        }
    }
    Ok(x)
}

} // verus!
