use crate::kalman::{corrected, predicted_covariance};
use crate::inverse::{gauss_jordan, gauss_step, inverse_of};
use crate::matrix::{
    column_of, dot, identity_of, is_shaped, lemma_identity_neutral, mat_minus, mat_mul, mat_plus,
    mat_vec, transposed, vec_plus,
};
use crate::scalar::Scalar;
use vstd::arithmetic::div_mod::{
    lemma_add_mod_noop, lemma_mod_add_multiples_vanish, lemma_mod_sub_multiples_vanish,
    lemma_mul_mod_noop_left, lemma_mul_mod_noop_right, lemma_small_mod,
};
use vstd::prelude::*;

verus! {

/// Whether the `n` by `n` matrix `m` equals its transpose.
pub open spec fn is_symmetric<T>(m: Seq<Seq<T>>, n: nat) -> bool {
    forall|i: int, j: int| 0 <= i < n && 0 <= j < n ==> #[trigger] m[i][j] == m[j][i]
}

/// The number of distinct `i64` values.
pub open spec fn word() -> int {
    0x1_0000_0000_0000_0000
}

/// `f(0) + f(1) + ... + f(n - 1)` over the integers.
pub open spec fn sum(n: nat, f: spec_fn(int) -> int) -> int
    decreases n,
{
    if n == 0 {
        0
    } else {
        sum((n - 1) as nat, f) + f(n - 1)
    }
}

/// Wrapping addition agrees with exact addition modulo `2^64`.
pub proof fn lemma_plus_residue(x: i64, y: i64)
    ensures
        (i64::plus_spec(x, y) as int) % word() == (x + y) % word(),
{
    if x + y > i64::MAX {
        lemma_mod_sub_multiples_vanish(x + y, word());
    } else if x + y < i64::MIN {
        lemma_mod_add_multiples_vanish(x + y, word());
    }
}

/// Wrapping multiplication agrees with exact multiplication modulo `2^64`.
pub proof fn lemma_times_residue(x: i64, y: i64)
    ensures
        (i64::times_spec(x, y) as int) % word() == (x * y) % word(),
{
    let u = x * y;
    let c = u % word();
    lemma_small_mod(c as nat, word() as nat);
    if c > i64::MAX {
        lemma_mod_sub_multiples_vanish(c, word());
    }
}

/// Two `i64` values with the same residue modulo `2^64` are equal.
pub proof fn lemma_same_residue(x: i64, y: i64)
    requires
        (x as int) % word() == (y as int) % word(),
    ensures
        x == y,
{
    if x >= 0 {
        lemma_small_mod(x as nat, word() as nat);
    } else {
        lemma_small_mod((x + word()) as nat, word() as nat);
        lemma_mod_add_multiples_vanish(x as int, word());
    }
    if y >= 0 {
        lemma_small_mod(y as nat, word() as nat);
    } else {
        lemma_small_mod((y + word()) as nat, word() as nat);
        lemma_mod_add_multiples_vanish(y as int, word());
    }
}

/// The termwise products of `a` and `b`.
pub open spec fn pair_fn(a: Seq<i64>, b: Seq<i64>) -> spec_fn(int) -> int {
    |t: int| a[t] * b[t]
}

/// The wrapping dot product is the exact one modulo `2^64`.
pub proof fn lemma_dot_residue(a: Seq<i64>, b: Seq<i64>, k: nat)
    ensures
        (dot(a, b, k) as int) % word() == sum(k, pair_fn(a, b)) % word(),
    decreases k,
{
    if k > 0 {
        let d = dot(a, b, (k - 1) as nat);
        let s = sum((k - 1) as nat, pair_fn(a, b));
        let m = i64::times_spec(a[k - 1], b[k - 1]);
        let ab = a[k - 1] * b[k - 1];
        lemma_dot_residue(a, b, (k - 1) as nat);
        lemma_plus_residue(d, m);
        lemma_times_residue(a[k - 1], b[k - 1]);
        lemma_add_mod_noop(d as int, m as int, word());
        lemma_add_mod_noop(s, ab, word());
    }
}

/// Sums of termwise congruent terms are congruent.
pub proof fn lemma_sum_congruent(n: nat, f: spec_fn(int) -> int, g: spec_fn(int) -> int)
    requires
        forall|t: int| 0 <= t < n ==> #[trigger] f(t) % word() == g(t) % word(),
    ensures
        sum(n, f) % word() == sum(n, g) % word(),
    decreases n,
{
    if n > 0 {
        lemma_sum_congruent((n - 1) as nat, f, g);
        lemma_add_mod_noop(sum((n - 1) as nat, f), f(n - 1), word());
        lemma_add_mod_noop(sum((n - 1) as nat, g), g(n - 1), word());
    }
}

/// Sums with equal terms are equal.
pub proof fn lemma_sum_pointwise(n: nat, f: spec_fn(int) -> int, g: spec_fn(int) -> int)
    requires
        forall|t: int| 0 <= t < n ==> #[trigger] f(t) == g(t),
    ensures
        sum(n, f) == sum(n, g),
    decreases n,
{
    if n > 0 {
        lemma_sum_pointwise((n - 1) as nat, f, g);
    }
}

/// A sum times `c` is the sum of the terms times `c`.
pub proof fn lemma_sum_scale(n: nat, f: spec_fn(int) -> int, g: spec_fn(int) -> int, c: int)
    requires
        forall|t: int| 0 <= t < n ==> #[trigger] g(t) == f(t) * c,
    ensures
        sum(n, f) * c == sum(n, g),
    decreases n,
{
    if n > 0 {
        lemma_sum_scale((n - 1) as nat, f, g, c);
        let x = sum((n - 1) as nat, f);
        let y = f(n - 1);
        assert((x + y) * c == x * c + y * c) by (nonlinear_arith);
    }
}

/// The sum of termwise sums is the sum of the two sums.
pub proof fn lemma_sum_add(n: nat, f: spec_fn(int) -> int, g: spec_fn(int) -> int, r: spec_fn(int) -> int)
    requires
        forall|t: int| 0 <= t < n ==> #[trigger] r(t) == f(t) + g(t),
    ensures
        sum(n, r) == sum(n, f) + sum(n, g),
    decreases n,
{
    if n > 0 {
        lemma_sum_add((n - 1) as nat, f, g, r);
    }
}

/// `p ↦ h(p, q)`.
pub open spec fn column_fn(h: spec_fn(int, int) -> int, q: int) -> spec_fn(int) -> int {
    |p: int| h(p, q)
}

/// `q ↦ h(p, q)`.
pub open spec fn row_fn(h: spec_fn(int, int) -> int, p: int) -> spec_fn(int) -> int {
    |q: int| h(p, q)
}

/// `q ↦ h(0, q) + ... + h(m - 1, q)`.
pub open spec fn column_sums(h: spec_fn(int, int) -> int, m: nat) -> spec_fn(int) -> int {
    |q: int| sum(m, column_fn(h, q))
}

/// `p ↦ h(p, 0) + ... + h(p, n - 1)`.
pub open spec fn row_sums(h: spec_fn(int, int) -> int, n: nat) -> spec_fn(int) -> int {
    |p: int| sum(n, row_fn(h, p))
}

/// A double sum may be taken in either order.
proof fn lemma_sum_swap(n: nat, m: nat, h: spec_fn(int, int) -> int)
    ensures
        sum(n, column_sums(h, m)) == sum(m, row_sums(h, n)),
    decreases n,
{
    if n == 0 {
        lemma_sum_pointwise(m, row_sums(h, 0), |p: int| 0int);
        lemma_sum_zero(m);
    } else {
        lemma_sum_swap((n - 1) as nat, m, h);
        assert forall|p: int| 0 <= p < m implies #[trigger] row_sums(h, n)(p) == row_sums(
            h,
            (n - 1) as nat,
        )(p) + column_fn(h, n - 1)(p) by {
            assert(row_fn(h, p)(n - 1) == h(p, n - 1));
        }
        lemma_sum_add(m, row_sums(h, (n - 1) as nat), column_fn(h, n - 1), row_sums(h, n));
        assert(column_sums(h, m)(n - 1) == sum(m, column_fn(h, n - 1)));
    }
}

/// A sum of zeros is zero.
proof fn lemma_sum_zero(m: nat)
    ensures
        sum(m, |p: int| 0int) == 0,
    decreases m,
{
    if m > 0 {
        lemma_sum_zero((m - 1) as nat);
    }
}

/// `p ↦ A[i][p] S[p][q]`.
spec fn prod_fn(a: Seq<Seq<i64>>, s: Seq<Seq<i64>>, i: int, q: int) -> spec_fn(int) -> int {
    |p: int| a[i][p] * s[p][q]
}

/// The exact entry `(i, q)` of `A S`.
spec fn inner(a: Seq<Seq<i64>>, s: Seq<Seq<i64>>, k: nat, i: int, q: int) -> int {
    sum(k, prod_fn(a, s, i, q))
}

/// `(p, q) ↦ A[i][p] S[p][q] A[j][q]`, the terms of entry `(i, j)` of
/// `A S Aᵀ`.
pub open spec fn terms(a: Seq<Seq<i64>>, s: Seq<Seq<i64>>, i: int, j: int) -> spec_fn(int, int) -> int {
    |p: int, q: int| a[i][p] * s[p][q] * a[j][q]
}

/// `q ↦ (A S)[i][q] A[j][q]`, exactly.
spec fn outer_fn(a: Seq<Seq<i64>>, s: Seq<Seq<i64>>, k: nat, i: int, j: int) -> spec_fn(int) -> int {
    |q: int| inner(a, s, k, i, q) * a[j][q]
}

/// The exact value of entry `(i, j)` of `A S Aᵀ`.
spec fn sandwich_entry(a: Seq<Seq<i64>>, s: Seq<Seq<i64>>, k: nat, i: int, j: int) -> int {
    sum(k, outer_fn(a, s, k, i, j))
}

/// Entry `(i, j)` of `A S Aᵀ` as a double sum of its terms.
proof fn lemma_sandwich_entry_expanded(
    a: Seq<Seq<i64>>,
    s: Seq<Seq<i64>>,
    k: nat,
    i: int,
    j: int,
)
    ensures
        sandwich_entry(a, s, k, i, j) == sum(k, column_sums(terms(a, s, i, j), k)),
{
    let h = terms(a, s, i, j);
    assert forall|q: int| 0 <= q < k implies #[trigger] outer_fn(a, s, k, i, j)(q) == column_sums(
        h,
        k,
    )(q) by {
        assert forall|p: int| 0 <= p < k implies #[trigger] column_fn(h, q)(p) == prod_fn(
            a,
            s,
            i,
            q,
        )(p) * a[j][q] by {}
        lemma_sum_scale(k, prod_fn(a, s, i, q), column_fn(h, q), a[j][q] as int);
    }
    lemma_sum_pointwise(k, outer_fn(a, s, k, i, j), column_sums(h, k));
}

/// With a symmetric `S`, the exact `A S Aᵀ` is symmetric.
proof fn lemma_sandwich_entry_symmetric(
    a: Seq<Seq<i64>>,
    s: Seq<Seq<i64>>,
    k: nat,
    i: int,
    j: int,
)
    requires
        is_symmetric(s, k),
    ensures
        sandwich_entry(a, s, k, i, j) == sandwich_entry(a, s, k, j, i),
{
    let g = terms(a, s, i, j);
    let h = terms(a, s, j, i);
    lemma_sandwich_entry_expanded(a, s, k, i, j);
    lemma_sandwich_entry_expanded(a, s, k, j, i);
    assert forall|q: int| 0 <= q < k implies #[trigger] column_sums(h, k)(q) == row_sums(g, k)(q) by {
        assert forall|p: int| 0 <= p < k implies #[trigger] column_fn(h, q)(p) == row_fn(g, q)(p) by {
            let x = a[j][p] as int;
            let y = s[p][q] as int;
            let z = a[i][q] as int;
            assert(s[p][q] == s[q][p]);
            assert((x * y) * z == (z * y) * x) by (nonlinear_arith);
        }
        lemma_sum_pointwise(k, column_fn(h, q), row_fn(g, q));
    }
    lemma_sum_pointwise(k, column_sums(h, k), row_sums(g, k));
    lemma_sum_swap(k, k, g);
}

/// Entry `(i, j)` of the wrapping `A S Aᵀ` is its exact value modulo `2^64`.
proof fn lemma_sandwich_residue(a: Seq<Seq<i64>>, s: Seq<Seq<i64>>, rows: nat, k: nat, i: int, j: int)
    requires
        a.len() == rows,
        s.len() == k,
        0 <= i < rows,
        0 <= j < rows,
    ensures
        (mat_mul(mat_mul(a, s, k), transposed(a, k), rows)[i][j] as int) % word() == sandwich_entry(
            a,
            s,
            k,
            i,
            j,
        ) % word(),
{
    let as_ = mat_mul(a, s, k);
    let at = transposed(a, k);
    let row = as_[i];
    let col = column_of(at, j);
    lemma_dot_residue(row, col, k);
    assert forall|q: int| 0 <= q < k implies #[trigger] pair_fn(row, col)(q) % word() == outer_fn(
        a,
        s,
        k,
        i,
        j,
    )(q) % word() by {
        assert(row[q] == dot(a[i], column_of(s, q), k));
        lemma_dot_residue(a[i], column_of(s, q), k);
        assert forall|p: int| 0 <= p < k implies #[trigger] pair_fn(a[i], column_of(s, q))(p)
            == prod_fn(a, s, i, q)(p) by {}
        lemma_sum_pointwise(k, pair_fn(a[i], column_of(s, q)), prod_fn(a, s, i, q));
        assert(col[q] == a[j][q]);
        lemma_mul_mod_noop_left(row[q] as int, col[q] as int, word());
        lemma_mul_mod_noop_left(inner(a, s, k, i, q), a[j][q] as int, word());
    }
    lemma_sum_congruent(k, pair_fn(row, col), outer_fn(a, s, k, i, j));
}

/// With a symmetric `S`, the wrapping `A S Aᵀ` of `i64` matrices is
/// symmetric.
pub proof fn lemma_sandwich_symmetric(a: Seq<Seq<i64>>, s: Seq<Seq<i64>>, rows: nat, k: nat)
    requires
        a.len() == rows,
        s.len() == k,
        is_symmetric(s, k),
    ensures
        is_symmetric(mat_mul(mat_mul(a, s, k), transposed(a, k), rows), rows),
{
    let m = mat_mul(mat_mul(a, s, k), transposed(a, k), rows);
    assert forall|i: int, j: int| 0 <= i < rows && 0 <= j < rows implies #[trigger] m[i][j]
        == m[j][i] by {
        lemma_sandwich_residue(a, s, rows, k, i, j);
        lemma_sandwich_residue(a, s, rows, k, j, i);
        lemma_sandwich_entry_symmetric(a, s, k, i, j);
        lemma_same_residue(m[i][j], m[j][i]);
    }
}

/// Entry `(i, j)` of the predicted covariance `F P Fᵀ + Q` of `i64`
/// matrices is, modulo `2^64`, the sum over `k` and `l` of
/// `F[i][k] P[k][l] F[j][l]`, plus `Q[i][j]`.
pub proof fn lemma_predicted_covariance_entry(
    p: Seq<Seq<i64>>,
    f: Seq<Seq<i64>>,
    q: Seq<Seq<i64>>,
    n: nat,
    i: int,
    j: int,
)
    requires
        p.len() == n,
        f.len() == n,
        q.len() == n,
        0 <= i < n,
        0 <= j < n,
    ensures
        predicted_covariance(p, f, q, n).len() == n,
        (predicted_covariance(p, f, q, n)[i][j] as int) % word() == (sum(
            n,
            column_sums(terms(f, p, i, j), n),
        ) + q[i][j]) % word(),
{
    let m = mat_mul(mat_mul(f, p, n), transposed(f, n), n);
    lemma_sandwich_residue(f, p, n, n, i, j);
    lemma_sandwich_entry_expanded(f, p, n, i, j);
    lemma_plus_residue(m[i][j], q[i][j]);
    lemma_add_mod_noop(m[i][j] as int, q[i][j] as int, word());
    lemma_add_mod_noop(sum(n, column_sums(terms(f, p, i, j), n)), q[i][j] as int, word());
}

/// With a symmetric covariance `P` and a symmetric process noise `Q`, the
/// predicted `i64` covariance `F P Fᵀ + Q` is symmetric.
pub proof fn lemma_prediction_keeps_symmetry(p: Seq<Seq<i64>>, f: Seq<Seq<i64>>, q: Seq<Seq<i64>>, n: nat)
    requires
        p.len() == n,
        f.len() == n,
        q.len() == n,
        is_symmetric(p, n),
        is_symmetric(q, n),
    ensures
        is_symmetric(predicted_covariance(p, f, q, n), n),
{
    let m = mat_mul(mat_mul(f, p, n), transposed(f, n), n);
    lemma_sandwich_symmetric(f, p, n, n);
    assert forall|i: int, j: int| 0 <= i < n && 0 <= j < n implies #[trigger] predicted_covariance(
        p,
        f,
        q,
        n,
    )[i][j] == predicted_covariance(p, f, q, n)[j][i] by {
        assert(m[i][j] == m[j][i]);
        assert(q[i][j] == q[j][i]);
    }
}

/// `(p, q) ↦ A[i][p] B[p][q] C[q][j]`, the terms of entry `(i, j)` of `A B C`.
pub open spec fn triple_terms(a: Seq<Seq<i64>>, b: Seq<Seq<i64>>, c: Seq<Seq<i64>>, i: int, j: int) -> spec_fn(int, int) -> int {
    |p: int, q: int| a[i][p] * b[p][q] * c[q][j]
}

/// The product of `i64` matrices is associative: `(A B) C == A (B C)`
/// entry by entry, for `B` with `k` rows and `c1` columns and `C` with `c1`
/// rows and `c2` columns.
pub proof fn lemma_mul_associative_entry(
    a: Seq<Seq<i64>>,
    b: Seq<Seq<i64>>,
    c: Seq<Seq<i64>>,
    k: nat,
    c1: nat,
    c2: nat,
    i: int,
    j: int,
)
    requires
        b.len() == k,
        c.len() == c1,
        0 <= i < a.len(),
        0 <= j < c2,
    ensures
        mat_mul(mat_mul(a, b, c1), c, c2)[i][j] == mat_mul(a, mat_mul(b, c, c2), c2)[i][j],
{
    let t = triple_terms(a, b, c, i, j);
    let ab = mat_mul(a, b, c1);
    let bc = mat_mul(b, c, c2);
    // (A B) C
    lemma_dot_residue(ab[i], column_of(c, j), c1);
    assert forall|q: int| 0 <= q < c1 implies #[trigger] pair_fn(ab[i], column_of(c, j))(q)
        % word() == column_sums(t, k)(q) % word() by {
        lemma_dot_residue(a[i], column_of(b, q), k);
        assert forall|p: int| 0 <= p < k implies #[trigger] column_fn(t, q)(p) == pair_fn(
            a[i],
            column_of(b, q),
        )(p) * c[q][j] by {}
        lemma_sum_scale(k, pair_fn(a[i], column_of(b, q)), column_fn(t, q), c[q][j] as int);
        lemma_mul_mod_noop_left(ab[i][q] as int, c[q][j] as int, word());
        lemma_mul_mod_noop_left(sum(k, pair_fn(a[i], column_of(b, q))), c[q][j] as int, word());
    }
    lemma_sum_congruent(c1, pair_fn(ab[i], column_of(c, j)), column_sums(t, k));
    // A (B C)
    lemma_dot_residue(a[i], column_of(bc, j), k);
    assert forall|p: int| 0 <= p < k implies #[trigger] pair_fn(a[i], column_of(bc, j))(p) % word()
        == row_sums(t, c1)(p) % word() by {
        lemma_dot_residue(b[p], column_of(c, j), c1);
        assert forall|q: int| 0 <= q < c1 implies #[trigger] row_fn(t, p)(q) == pair_fn(
            b[p],
            column_of(c, j),
        )(q) * a[i][p] by {
            let x = a[i][p] as int;
            let y = b[p][q] as int;
            let z = c[q][j] as int;
            assert((x * y) * z == (y * z) * x) by (nonlinear_arith);
        }
        lemma_sum_scale(c1, pair_fn(b[p], column_of(c, j)), row_fn(t, p), a[i][p] as int);
        lemma_mul_mod_noop_right(a[i][p] as int, bc[p][j] as int, word());
        lemma_mul_mod_noop_right(a[i][p] as int, sum(c1, pair_fn(b[p], column_of(c, j))), word());
        assert(a[i][p] * sum(c1, pair_fn(b[p], column_of(c, j))) == sum(
            c1,
            pair_fn(b[p], column_of(c, j)),
        ) * a[i][p]) by (nonlinear_arith);
    }
    lemma_sum_congruent(k, pair_fn(a[i], column_of(bc, j)), row_sums(t, c1));
    lemma_sum_swap(c1, k, t);
    lemma_same_residue(
        mat_mul(ab, c, c2)[i][j],
        mat_mul(a, bc, c2)[i][j],
    );
}

/// The product of `i64` matrices is associative: `(A B) C == A (B C)`.
pub proof fn lemma_mul_associative(
    a: Seq<Seq<i64>>,
    b: Seq<Seq<i64>>,
    c: Seq<Seq<i64>>,
    k: nat,
    c1: nat,
    c2: nat,
)
    requires
        b.len() == k,
        c.len() == c1,
    ensures
        mat_mul(mat_mul(a, b, c1), c, c2) == mat_mul(a, mat_mul(b, c, c2), c2),
{
    let l = mat_mul(mat_mul(a, b, c1), c, c2);
    let r = mat_mul(a, mat_mul(b, c, c2), c2);
    assert forall|i: int| 0 <= i < a.len() implies #[trigger] l[i] == r[i] by {
        assert forall|j: int| 0 <= j < c2 implies #[trigger] l[i][j] == r[i][j] by {
            lemma_mul_associative_entry(a, b, c, k, c1, c2, i, j);
        }
        assert(l[i] =~= r[i]);
    }
    assert(l =~= r);
}

/// The pivot row chosen among rows `c..k` lies in that range.
pub proof fn lemma_pivot_in_range<T: Scalar>(a: Seq<Seq<T>>, c: int, k: int)
    requires
        c < k,
    ensures
        c <= crate::inverse::pivot_upto(a, c, k) < k,
    decreases k - c,
{
    if k > c + 1 {
        lemma_pivot_in_range(a, c, k - 1);
    }
}

/// Gauss-Jordan elimination keeps the number of rows of the matrix that
/// receives the row operations.
pub proof fn lemma_gauss_jordan_len<T: Scalar>(a: Seq<Seq<T>>, r: Seq<Seq<T>>, c: nat, n: nat)
    requires
        a.len() == n,
        r.len() == n,
    ensures
        gauss_jordan(a, r, c, n) matches Some(out) ==> out.len() == n,
    decreases n - c,
{
    if c < n {
        if let Some(next) = gauss_step(a, r, c as int) {
            lemma_pivot_in_range(a, c as int, n as int);
            lemma_gauss_jordan_len(next.0, next.1, c + 1, n);
        }
    }
}

/// The innovation covariance `S = H P Hᵀ + R` of a correction.
pub open spec fn innovation_covariance(p: Seq<Seq<i64>>, h: Seq<Seq<i64>>, r: Seq<Seq<i64>>, n: nat, m: nat) -> Seq<Seq<i64>> {
    mat_plus(mat_mul(h, mat_mul(p, transposed(h, n), m), m), r)
}

/// What a correction with gain `k` gives: the state `x + K y` and the
/// Joseph-form covariance `(I - K H) P (I - K H)ᵀ + K R Kᵀ`.
pub open spec fn corrected_with_gain(
    k: Seq<Seq<i64>>,
    x: Seq<i64>,
    p: Seq<Seq<i64>>,
    y: Seq<i64>,
    h: Seq<Seq<i64>>,
    r: Seq<Seq<i64>>,
    n: nat,
    m: nat,
) -> (Seq<i64>, Seq<Seq<i64>>) {
    let residual = mat_minus(identity_of::<i64>(n), mat_mul(k, h, n));
    (
        vec_plus(x, mat_vec(k, y)),
        mat_plus(
            mat_mul(mat_mul(residual, p, n), transposed(residual, n), n),
            mat_mul(mat_mul(k, r, m), transposed(k, m), n),
        ),
    )
}

/// The Kalman gain solves `K S = P Hᵀ`. When the innovation covariance
/// `S = H P Hᵀ + R` of `i64` matrices is exactly inverted by the inversion
/// routine (its result `inv` has `inv S = S inv = I`), the correction
/// succeeds, a gain `K` with `K S = P Hᵀ` exists, and every such gain gives
/// the corrected state `x + K y` and the covariance
/// `(I - K H) P (I - K H)ᵀ + K R Kᵀ`.
pub proof fn lemma_correction_gain_solves(
    x: Seq<i64>,
    p: Seq<Seq<i64>>,
    y: Seq<i64>,
    h: Seq<Seq<i64>>,
    r: Seq<Seq<i64>>,
    n: nat,
    m: nat,
    inv: Seq<Seq<i64>>,
)
    requires
        p.len() == n,
        h.len() == m,
        r.len() == m,
        inverse_of(innovation_covariance(p, h, r, n, m)) == Some(inv),
        mat_mul(inv, innovation_covariance(p, h, r, n, m), m) == identity_of::<i64>(m),
        mat_mul(innovation_covariance(p, h, r, n, m), inv, m) == identity_of::<i64>(m),
    ensures
        corrected(x, p, y, h, r, n, m) is Some,
        exists|k: Seq<Seq<i64>>|
            is_shaped(k, n, m) && mat_mul(k, innovation_covariance(p, h, r, n, m), m) == mat_mul(
                p,
                transposed(h, n),
                m,
            ),
        forall|k: Seq<Seq<i64>>|
            is_shaped(k, n, m) && #[trigger] mat_mul(k, innovation_covariance(p, h, r, n, m), m)
                == mat_mul(p, transposed(h, n), m) ==> corrected(x, p, y, h, r, n, m)->0
                == corrected_with_gain(k, x, p, y, h, r, n, m),
{
    let s = innovation_covariance(p, h, r, n, m);
    let cross = mat_mul(p, transposed(h, n), m);
    let gain = mat_mul(cross, inv, m);
    assert(s.len() == m);
    lemma_gauss_jordan_len(s, identity_of::<i64>(m), 0, m);
    assert(inv.len() == m);
    assert(is_shaped(cross, n, m));
    lemma_identity_neutral(cross, n, m, Seq::new(n, |t: int| 0i64));
    // The gain solves K S = P Hᵀ.
    lemma_mul_associative(cross, inv, s, m, m, m);
    assert(mat_mul(gain, s, m) == cross);
    assert(is_shaped(gain, n, m));
    // Every solution is the gain.
    assert forall|k: Seq<Seq<i64>>|
        is_shaped(k, n, m) && #[trigger] mat_mul(k, s, m) == cross implies corrected(
        x,
        p,
        y,
        h,
        r,
        n,
        m,
    )->0 == corrected_with_gain(k, x, p, y, h, r, n, m) by {
        lemma_mul_associative(k, s, inv, m, m, m);
        lemma_identity_neutral(k, n, m, Seq::new(n, |t: int| 0i64));
        assert(gain == k);
    }
}

/// The Kalman measurement correction keeps an `i64` covariance symmetric:
/// with a symmetric covariance `P` and a symmetric measurement noise `R`,
/// the Joseph-form covariance `(I - K H) P (I - K H)ᵀ + K R Kᵀ` is
/// symmetric (with wrapping arithmetic, where the order of the operations
/// makes no difference to the result).
pub proof fn lemma_correction_keeps_symmetry(
    x: Seq<i64>,
    p: Seq<Seq<i64>>,
    y: Seq<i64>,
    h: Seq<Seq<i64>>,
    r: Seq<Seq<i64>>,
    n: nat,
    m: nat,
)
    requires
        p.len() == n,
        r.len() == m,
        is_symmetric(p, n),
        is_symmetric(r, m),
    ensures
        corrected(x, p, y, h, r, n, m) matches Some(next) ==> next.1.len() == n && is_symmetric(
            next.1,
            n,
        ),
{
    if let Some(next) = corrected(x, p, y, h, r, n, m) {
        let cross_covariance = mat_mul(p, transposed(h, n), m);
        let innovation_covariance = mat_plus(mat_mul(h, cross_covariance, m), r);
        let inverse = crate::inverse::inverse_of(innovation_covariance)->0;
        let gain = mat_mul(cross_covariance, inverse, m);
        let residual = crate::matrix::mat_minus(
            crate::matrix::identity_of::<i64>(n),
            mat_mul(gain, h, n),
        );
        lemma_sandwich_symmetric(residual, p, n, n);
        lemma_sandwich_symmetric(gain, r, n, m);
        let first = mat_mul(mat_mul(residual, p, n), transposed(residual, n), n);
        let second = mat_mul(mat_mul(gain, r, m), transposed(gain, m), n);
        assert(next.1 == mat_plus(first, second));
        assert forall|i: int, j: int| 0 <= i < n && 0 <= j < n implies #[trigger] next.1[i][j]
            == next.1[j][i] by {
            assert(first[i][j] == first[j][i]);
            assert(second[i][j] == second[j][i]);
        }
    }
}

} // verus!
