use crate::inverse::{
    eliminated, gauss_jordan, gauss_step, inverse_of, pivot_upto, reduced_row, scaled_row, swap_rows,
};
use crate::matrix::{column_of, dot, identity_of, is_shaped, lemma_identity_neutral, mat_mul};
use crate::scalar::{i64_quotient, Scalar};
use crate::symmetry::{
    lemma_dot_residue, lemma_pivot_in_range, lemma_same_residue, lemma_sum_add,
    lemma_sum_congruent, lemma_sum_pointwise, lemma_sum_scale, lemma_times_residue, pair_fn, sum,
    word,
};
use vstd::arithmetic::div_mod::{
    lemma_add_mod_noop, lemma_mod_add_multiples_vanish, lemma_mod_sub_multiples_vanish,
    lemma_mul_mod_noop_left, lemma_mul_mod_noop_right, lemma_small_mod,
};
use vstd::prelude::*;

verus! {

/// Whether every pivot that Gauss-Jordan elimination meets on `a`, from
/// column `c` on, is `1` or `-1`.
pub open spec fn unit_pivots(a: Seq<Seq<i64>>, c: nat, n: nat) -> bool
    decreases n - c,
{
    if c >= n {
        true
    } else {
        let x = a[pivot_upto(a, c as int, n as int)][c as int];
        (x == 1 || x == -1) && match gauss_step(a, a, c as int) {
            Some(next) => unit_pivots(next.0, c + 1, n),
            None => false,
        }
    }
}

/// Wrapping subtraction agrees with exact subtraction modulo `2^64`.
proof fn lemma_minus_residue(x: i64, y: i64)
    ensures
        (i64::minus_spec(x, y) as int) % word() == (x - y) % word(),
{
    if x - y > i64::MAX {
        lemma_mod_sub_multiples_vanish(x - y, word());
    } else if x - y < i64::MIN {
        lemma_mod_add_multiples_vanish(x - y, word());
    }
}

/// Dividing an `i64` by `-1` negates it modulo `2^64`; dividing by `1`
/// keeps it.
proof fn lemma_unit_quotient(x: i64)
    ensures
        i64_quotient(x, 1i64) == x,
        (i64_quotient(x, -1i64) as int) % word() == (-x) % word(),
{
    if x == i64::MIN {
        lemma_mod_sub_multiples_vanish(-x, word());
    }
}

/// A row that is, termwise modulo `2^64`, `alpha u + beta v` has products
/// with any column that are `alpha (u . col) + beta (v . col)` modulo `2^64`.
proof fn lemma_dot_combination(
    w: Seq<i64>,
    u: Seq<i64>,
    v: Seq<i64>,
    col: Seq<i64>,
    k: nat,
    alpha: int,
    beta: int,
)
    requires
        forall|t: int|
            0 <= t < k ==> (#[trigger] w[t] as int) % word() == (alpha * u[t] + beta * v[t]) % word(),
    ensures
        (dot(w, col, k) as int) % word() == (alpha * sum(k, pair_fn(u, col)) + beta * sum(
            k,
            pair_fn(v, col),
        )) % word(),
{
    let fa = |t: int| (u[t] * col[t]) * alpha;
    let fb = |t: int| (v[t] * col[t]) * beta;
    let both = |t: int| fa(t) + fb(t);
    lemma_dot_residue(w, col, k);
    assert forall|t: int| 0 <= t < k implies #[trigger] pair_fn(w, col)(t) % word() == both(t)
        % word() by {
        lemma_mul_mod_noop_left(w[t] as int, col[t] as int, word());
        lemma_mul_mod_noop_left(alpha * u[t] + beta * v[t], col[t] as int, word());
        let x = u[t] as int;
        let y = v[t] as int;
        let z = col[t] as int;
        assert((alpha * x + beta * y) * z == (x * z) * alpha + (y * z) * beta) by (nonlinear_arith);
    }
    lemma_sum_congruent(k, pair_fn(w, col), both);
    lemma_sum_add(k, fa, fb, both);
    lemma_sum_scale(k, pair_fn(u, col), fa, alpha);
    lemma_sum_scale(k, pair_fn(v, col), fb, beta);
    assert(sum(k, pair_fn(u, col)) * alpha == alpha * sum(k, pair_fn(u, col))) by (nonlinear_arith);
    assert(sum(k, pair_fn(v, col)) * beta == beta * sum(k, pair_fn(v, col))) by (nonlinear_arith);
}

/// The invariant of elimination with unit pivots on `m`: `a` and `r` are
/// `n` by `n`, `r m == a`, and the columns of `a` before `c` are those of the
/// identity.
pub open spec fn elimination_invariant(
    m: Seq<Seq<i64>>,
    a: Seq<Seq<i64>>,
    r: Seq<Seq<i64>>,
    c: nat,
    n: nat,
) -> bool {
    &&& is_shaped(m, n, n)
    &&& is_shaped(a, n, n)
    &&& is_shaped(r, n, n)
    &&& mat_mul(r, m, n) == a
    &&& forall|i: int, j: int|
        0 <= i < n && 0 <= j < c ==> #[trigger] a[i][j] == (if i == j {
            1i64
        } else {
            0i64
        })
}

/// One column step with a unit pivot keeps the invariant.
proof fn lemma_unit_step(m: Seq<Seq<i64>>, a: Seq<Seq<i64>>, r: Seq<Seq<i64>>, c: nat, n: nat)
    requires
        c < n,
        elimination_invariant(m, a, r, c, n),
        a[pivot_upto(a, c as int, n as int)][c as int] == 1 || a[pivot_upto(
            a,
            c as int,
            n as int,
        )][c as int] == -1,
    ensures
        gauss_step(a, r, c as int) matches Some(next) && next.0 == (gauss_step(
            a,
            a,
            c as int,
        )->0).0 && elimination_invariant(m, next.0, next.1, c + 1, n),
{
    let ci = c as int;
    let p = pivot_upto(a, ci, n as int);
    lemma_pivot_in_range(a, ci, n as int);
    let a1 = swap_rows(a, ci, p);
    let r1 = swap_rows(r, ci, p);
    let d = a1[ci][ci];
    let a2 = a1.update(ci, scaled_row(a1[ci], d));
    let r2 = r1.update(ci, scaled_row(r1[ci], d));
    let a3 = eliminated(a2, a2, ci);
    let r3 = eliminated(r2, a2, ci);
    assert(gauss_step(a, r, ci) == Some((a3, r3)));
    // Row i of a product depends on row i of the left factor alone.
    assert forall|i: int, j: int| 0 <= i < n && 0 <= j < n implies #[trigger] mat_mul(r, m, n)[i][j]
        == dot(r[i], column_of(m, j), n) by {}
    // After the swap, r1 m == a1.
    assert forall|i: int, j: int| 0 <= i < n && 0 <= j < n implies #[trigger] dot(
        r1[i],
        column_of(m, j),
        n,
    ) == a1[i][j] by {
        assert(mat_mul(r, m, n)[i][j] == a[i][j]);
        assert(mat_mul(r, m, n)[ci][j] == a[ci][j]);
        assert(mat_mul(r, m, n)[p][j] == a[p][j]);
    }
    // After scaling row c by d, r2 m == a2.
    assert forall|i: int, j: int| 0 <= i < n && 0 <= j < n implies #[trigger] dot(
        r2[i],
        column_of(m, j),
        n,
    ) == a2[i][j] by {
        if i == ci {
            let u = r1[ci];
            let w = scaled_row(u, d);
            assert(dot(u, column_of(m, j), n) == a1[ci][j]);
            if d == 1 {
                assert forall|t: int| 0 <= t < n implies #[trigger] w[t] == u[t] by {
                    lemma_unit_quotient(u[t]);
                }
                assert(w =~= u);
                lemma_unit_quotient(a1[ci][j]);
            } else {
                assert forall|t: int| 0 <= t < n implies (#[trigger] w[t] as int) % word() == (-1
                    * u[t] + 0 * u[t]) % word() by {
                    lemma_unit_quotient(u[t]);
                }
                lemma_dot_combination(w, u, u, column_of(m, j), n, -1, 0);
                lemma_dot_residue(u, column_of(m, j), n);
                lemma_unit_quotient(a1[ci][j]);
                let e = sum(n, pair_fn(u, column_of(m, j)));
                let dv = dot(u, column_of(m, j), n) as int;
                lemma_mul_mod_noop_right(-1, dv, word());
                lemma_mul_mod_noop_right(-1, e, word());
                assert(-1 * e + 0 * e == -1 * e);
                lemma_same_residue(dot(w, column_of(m, j), n), a2[ci][j]);
            }
        }
    }
    // After eliminating, r3 m == a3.
    assert forall|i: int, j: int| 0 <= i < n && 0 <= j < n implies #[trigger] dot(
        r3[i],
        column_of(m, j),
        n,
    ) == a3[i][j] by {
        if i != ci {
            let f = a2[i][ci];
            let u = r2[i];
            let v = r2[ci];
            let w = reduced_row(r2, i, ci, f);
            assert(dot(u, column_of(m, j), n) == a2[i][j]);
            assert(dot(v, column_of(m, j), n) == a2[ci][j]);
            assert forall|t: int| 0 <= t < n implies (#[trigger] w[t] as int) % word() == (1 * u[t]
                + (-f) * v[t]) % word() by {
                lemma_minus_residue(u[t], i64::times_spec(f, v[t]));
                lemma_times_residue(f, v[t]);
                lemma_add_mod_noop(u[t] as int, -(i64::times_spec(f, v[t]) as int), word());
                lemma_add_mod_noop(u[t] as int, -(f * v[t]), word());
                lemma_mul_mod_noop_right(-1, i64::times_spec(f, v[t]) as int, word());
                lemma_mul_mod_noop_right(-1, f * v[t], word());
                assert(-1 * (f * v[t]) == (-f) * v[t]) by (nonlinear_arith);
            }
            lemma_dot_combination(w, u, v, column_of(m, j), n, 1, -f);
            let eu = sum(n, pair_fn(u, column_of(m, j)));
            let ev = sum(n, pair_fn(v, column_of(m, j)));
            let du = a2[i][j];
            let dv = a2[ci][j];
            lemma_dot_residue(u, column_of(m, j), n);
            lemma_dot_residue(v, column_of(m, j), n);
            // a3[i][j] = du - f dv, modulo 2^64.
            lemma_minus_residue(du, i64::times_spec(f, dv));
            lemma_times_residue(f, dv);
            lemma_add_mod_noop(du as int, -(i64::times_spec(f, dv) as int), word());
            lemma_add_mod_noop(du as int, -(f * dv), word());
            lemma_mul_mod_noop_right(-1, i64::times_spec(f, dv) as int, word());
            lemma_mul_mod_noop_right(-1, f * dv, word());
            lemma_mul_mod_noop_right(-f, dv as int, word());
            lemma_mul_mod_noop_right(-f, ev, word());
            lemma_add_mod_noop(du as int, (-f) * dv, word());
            lemma_add_mod_noop(eu, (-f) * ev, word());
            assert(-1 * (f * dv) == (-f) * dv) by (nonlinear_arith);
            assert(1 * eu == eu);
            lemma_same_residue(dot(w, column_of(m, j), n), a3[i][j]);
        }
    }
    assert forall|i: int| 0 <= i < n implies #[trigger] mat_mul(r3, m, n)[i] == a3[i] by {
        assert(mat_mul(r3, m, n)[i] =~= a3[i]);
    }
    assert(mat_mul(r3, m, n) =~= a3);
    // The columns up to c of a3 are those of the identity.
    lemma_unit_quotient(d);
    assert forall|i: int, j: int| 0 <= i < n && 0 <= j <= ci implies #[trigger] a3[i][j] == (if i
        == j {
        1i64
    } else {
        0i64
    }) by {
        if j < ci {
            assert(a1[ci][j] == 0 && a1[p][j] == 0);
            lemma_unit_quotient(0);
            assert(a2[ci][j] == 0);
            if i != ci {
                lemma_times_residue(a2[i][ci], 0);
                lemma_small_mod(0, word() as nat);
                lemma_same_residue(i64::times_spec(a2[i][ci], 0), 0);
            }
        } else {
            assert(a2[ci][ci] == 1);
            if i != ci {
                assert(i64::times_spec(a2[i][ci], 1) == a2[i][ci]) by {
                    lemma_times_residue(a2[i][ci], 1);
                    lemma_same_residue(i64::times_spec(a2[i][ci], 1), a2[i][ci]);
                }
            }
        }
    }
}

/// Elimination with unit pivots from column `c` on ends with a matrix `r`
/// with `r m` the identity.
proof fn lemma_unit_elimination(m: Seq<Seq<i64>>, a: Seq<Seq<i64>>, r: Seq<Seq<i64>>, c: nat, n: nat)
    requires
        c <= n,
        elimination_invariant(m, a, r, c, n),
        unit_pivots(a, c, n),
    ensures
        gauss_jordan(a, r, c, n) matches Some(out) && mat_mul(out, m, n) == identity_of::<i64>(n),
    decreases n - c,
{
    if c < n {
        lemma_unit_step(m, a, r, c, n);
        let next = gauss_step(a, r, c as int)->0;
        lemma_unit_elimination(m, next.0, next.1, c + 1, n);
    } else {
        assert forall|i: int| 0 <= i < n implies #[trigger] a[i] == identity_of::<i64>(n)[i] by {
            assert(a[i] =~= identity_of::<i64>(n)[i]);
        }
        assert(a =~= identity_of::<i64>(n));
    }
}

/// When every pivot of the elimination of the `n` by `n` `i64` matrix `m`
/// is `1` or `-1` (every division is then exact), inversion succeeds and its
/// result `r` is a left inverse: `r m` is the identity.
pub proof fn lemma_inverse_with_unit_pivots(m: Seq<Seq<i64>>, n: nat)
    requires
        is_shaped(m, n, n),
        unit_pivots(m, 0, n),
    ensures
        inverse_of(m) matches Some(r) && mat_mul(r, m, n) == identity_of::<i64>(n),
{
    lemma_identity_neutral(m, n, n, Seq::new(n, |t: int| 0i64));
    assert(is_shaped(identity_of::<i64>(n), n, n));
    lemma_unit_elimination(m, m, identity_of::<i64>(n), 0, n);
}

} // verus!
