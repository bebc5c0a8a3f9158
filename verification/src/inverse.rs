use crate::matrix::{identity_of, Matrix};
use crate::scalar::Scalar;
use vstd::prelude::*;

verus! {

broadcast use vstd::array::group_array_axioms;

// ---------------------------------------------------------------------------
// Gauss-Jordan elimination with partial pivoting, as a function on the
// sequence model. `a` is the matrix being reduced, `r` the matrix that
// receives the same row operations (the identity at the start, the inverse at
// the end).
// ---------------------------------------------------------------------------

/// The row among `c..k` (for `k > c`) whose entry in column `c` has the
/// largest magnitude; on a tie the earlier row wins, and a later row replaces
/// the current choice only when its magnitude is strictly greater.
pub open spec fn pivot_upto<T: Scalar>(a: Seq<Seq<T>>, c: int, k: int) -> int
    decreases k - c,
{
    if k <= c + 1 {
        c
    } else {
        let p = pivot_upto(a, c, k - 1);
        if T::greater_spec(T::abs_spec(a[k - 1][c]), T::abs_spec(a[p][c])) {
            k - 1
        } else {
            p
        }
    }
}

/// `m` with rows `i` and `j` exchanged.
pub open spec fn swap_rows<T>(m: Seq<Seq<T>>, i: int, j: int) -> Seq<Seq<T>> {
    m.update(i, m[j]).update(j, m[i])
}

/// Every entry of `row` divided by `d`.
pub open spec fn scaled_row<T: Scalar>(row: Seq<T>, d: T) -> Seq<T> {
    Seq::new(row.len(), |k: int| T::divide_spec(row[k], d))
}

/// Row `i` of `m` minus `factor` times row `p` of `m`.
pub open spec fn reduced_row<T: Scalar>(m: Seq<Seq<T>>, i: int, p: int, factor: T) -> Seq<T> {
    Seq::new(m[i].len(), |k: int| T::minus_spec(m[i][k], T::times_spec(factor, m[p][k])))
}

/// Every row `i` of `m` other than `c` reduced by `a[i][c]` times row `c`.
pub open spec fn eliminated<T: Scalar>(m: Seq<Seq<T>>, a: Seq<Seq<T>>, c: int) -> Seq<Seq<T>> {
    Seq::new(
        m.len(),
        |i: int|
            if i == c {
                m[c]
            } else {
                reduced_row(m, i, c, a[i][c])
            },
    )
}

/// One column step on `(a, r)`: choose the pivot of column `c`, give up when
/// it is zero or not finite, else move it to row `c`, normalise row `c` and
/// clear column `c` from every other row.
pub open spec fn gauss_step<T: Scalar>(a: Seq<Seq<T>>, r: Seq<Seq<T>>, c: int) -> Option<
    (Seq<Seq<T>>, Seq<Seq<T>>),
> {
    let p = pivot_upto(a, c, a.len() as int);
    let x = a[p][c];
    if T::is_zero_spec(x) || !T::is_finite_spec(x) {
        None
    } else {
        let a1 = swap_rows(a, c, p);
        let r1 = swap_rows(r, c, p);
        let d = a1[c][c];
        let a2 = a1.update(c, scaled_row(a1[c], d));
        let r2 = r1.update(c, scaled_row(r1[c], d));
        Some((eliminated(a2, a2, c), eliminated(r2, a2, c)))
    }
}

/// The column steps `c`, `c + 1`, ..., `n - 1` applied in turn: `None` as
/// soon as one of them gives up, else the final `r`.
pub open spec fn gauss_jordan<T: Scalar>(a: Seq<Seq<T>>, r: Seq<Seq<T>>, c: nat, n: nat) -> Option<
    Seq<Seq<T>>,
>
    decreases n - c,
{
    if c >= n {
        Some(r)
    } else {
        match gauss_step(a, r, c as int) {
            None => None,
            Some(next) => gauss_jordan(next.0, next.1, c + 1, n),
        }
    }
}

/// What `Matrix::inverse` computes for the square matrix `m`.
pub open spec fn inverse_of<T: Scalar>(m: Seq<Seq<T>>) -> Option<Seq<Seq<T>>> {
    gauss_jordan(m, identity_of::<T>(m.len()), 0, m.len())
}

/// In the `n` by `n` identity, the pivot of column `c` stays on the diagonal.
proof fn lemma_identity_pivot(n: nat, c: int, k: int)
    requires
        0 <= c < k <= n,
    ensures
        pivot_upto(identity_of::<i64>(n), c, k) == c,
    decreases k - c,
{
    if k > c + 1 {
        lemma_identity_pivot(n, c, k - 1);
    }
}

/// A column step leaves the pair (identity, identity) as it is.
proof fn lemma_identity_step(n: nat, c: int)
    requires
        0 <= c < n,
    ensures
        gauss_step(identity_of::<i64>(n), identity_of::<i64>(n), c) == Some(
            (identity_of::<i64>(n), identity_of::<i64>(n)),
        ),
{
    let id = identity_of::<i64>(n);
    lemma_identity_pivot(n, c, n as int);
    assert(swap_rows(id, c, c) =~= id);
    assert(scaled_row(id[c], 1i64) =~= id[c]);
    assert(id.update(c, scaled_row(id[c], 1i64)) =~= id);
    assert forall|i: int| 0 <= i < n implies #[trigger] eliminated(id, id, c)[i] == id[i] by {
        if i != c {
            assert(reduced_row(id, i, c, id[i][c]) =~= id[i]);
        }
    }
    assert(eliminated(id, id, c) =~= id);
}

/// The remaining column steps on (identity, identity) end with the identity.
proof fn lemma_identity_steps(n: nat, c: nat)
    requires
        c <= n,
    ensures
        gauss_jordan(identity_of::<i64>(n), identity_of::<i64>(n), c, n) == Some(
            identity_of::<i64>(n),
        ),
    decreases n - c,
{
    if c < n {
        lemma_identity_step(n, c as int);
        lemma_identity_steps(n, c + 1);
    }
}

/// Inverting the identity (with `i64` entries) gives the identity.
pub proof fn lemma_inverse_of_identity(n: nat)
    ensures
        inverse_of(identity_of::<i64>(n)) == Some(identity_of::<i64>(n)),
{
    lemma_identity_steps(n, 0);
}

impl<T: Scalar, const N: usize> Matrix<T, N, N> {
    /// The row chosen as pivot for `column`.
    fn pivot_row(&self, column: usize) -> (p: usize)
        requires
            column < N,
        ensures
            p == pivot_upto(self@, column as int, N as int),
            column <= p < N,
    {
        let mut pivot = column;
        for row in column + 1..N
            invariant
                column < N,
                column <= pivot < row,
                pivot == pivot_upto(self@, column as int, row as int),
        {
            if self.entry(row, column).abs().greater(self.entry(pivot, column).abs()) {
                pivot = row;
            }
        }
        pivot
    }

    /// Exchanges rows `i` and `j`.
    fn exchange_rows(&mut self, i: usize, j: usize)
        requires
            i < N,
            j < N,
        ensures
            final(self)@ == swap_rows(old(self)@, i as int, j as int),
    {
        let row_i = self.0[i];
        let row_j = self.0[j];
        self.0[i] = row_j;
        self.0[j] = row_i;
        assert(final(self)@ =~= swap_rows(old(self)@, i as int, j as int));
    }

    /// Divides every entry of row `row` by `divisor`.
    fn divide_row(&mut self, row: usize, divisor: T)
        requires
            row < N,
            !T::is_zero_spec(divisor),
        ensures
            final(self)@ == old(self)@.update(row as int, scaled_row(old(self)@[row as int], divisor)),
    {
        let ghost start = self@;
        for index in 0..N
            invariant
                row < N,
                !T::is_zero_spec(divisor),
                start == old(self)@,
                self@.len() == N,
                forall|i: int| 0 <= i < N && i != row ==> #[trigger] self@[i] == start[i],
                self@[row as int].len() == N,
                forall|k: int|
                    0 <= k < N ==> #[trigger] self@[row as int][k] == (if k < index {
                        T::divide_spec(start[row as int][k], divisor)
                    } else {
                        start[row as int][k]
                    }),
        {
            let entry = self.entry(row, index);
            proof {
                T::lemma_nonzero_divides(entry, divisor);
            }
            let value = entry.divide(divisor);
            self.set_entry(row, index, value);
        }
        proof {
            old(self).lemma_shape();
        }
        assert(self@ =~~= start.update(row as int, scaled_row(start[row as int], divisor)));
    }

    /// Subtracts `factor` times row `pivot` from row `row`.
    fn subtract_row(&mut self, row: usize, pivot: usize, factor: T)
        requires
            row < N,
            pivot < N,
            row != pivot,
        ensures
            final(self)@ == old(self)@.update(
                row as int,
                reduced_row(old(self)@, row as int, pivot as int, factor),
            ),
    {
        let ghost start = self@;
        for index in 0..N
            invariant
                row < N,
                pivot < N,
                row != pivot,
                start == old(self)@,
                self@.len() == N,
                forall|i: int| 0 <= i < N && i != row ==> #[trigger] self@[i] == start[i],
                self@[row as int].len() == N,
                forall|k: int|
                    0 <= k < N ==> #[trigger] self@[row as int][k] == (if k < index {
                        T::minus_spec(
                            start[row as int][k],
                            T::times_spec(factor, start[pivot as int][k]),
                        )
                    } else {
                        start[row as int][k]
                    }),
        {
            let term = factor.times(self.entry(pivot, index));
            let value = self.entry(row, index).minus(term);
            self.set_entry(row, index, value);
        }
        proof {
            old(self).lemma_shape();
        }
        assert(self@ =~~= start.update(
            row as int,
            reduced_row(start, row as int, pivot as int, factor),
        ));
    }

    /// The inverse by Gauss-Jordan elimination with partial pivoting, or
    /// `None` when a pivot is zero or not finite.
    pub fn inverse(self) -> (r: Option<Self>)
        ensures
            match inverse_of(self@) {
                Some(s) => r is Some && r->0@ == s,
                None => r is None,
            },
    {
        let mut work = self;
        let mut result = Self::identity();
        for column in 0..N
            invariant
                gauss_jordan(work@, result@, column as nat, N as nat) == inverse_of(self@),
                work@.len() == N,
        {
            let pivot = work.pivot_row(column);
            let x = work.entry(pivot, column);
            if x.is_zero() || !x.is_finite() {
                return None;
            }
            let ghost a0 = work@;
            let ghost r0 = result@;
            work.exchange_rows(column, pivot);
            result.exchange_rows(column, pivot);
            let divisor = work.entry(column, column);
            work.divide_row(column, divisor);
            result.divide_row(column, divisor);
            let ghost a2 = work@;
            let ghost r2 = result@;
            for row in 0..N
                invariant
                    column < N,
                    a2.len() == N,
                    r2.len() == N,
                    work@.len() == N,
                    result@.len() == N,
                    forall|i: int| 0 <= i < N ==> #[trigger] work@[i] == (if i < row {
                        eliminated(a2, a2, column as int)[i]
                    } else {
                        a2[i]
                    }),
                    forall|i: int| 0 <= i < N ==> #[trigger] result@[i] == (if i < row {
                        eliminated(r2, a2, column as int)[i]
                    } else {
                        r2[i]
                    }),
            {
                if row != column {
                    let factor = work.entry(row, column);
                    work.subtract_row(row, column, factor);
                    result.subtract_row(row, column, factor);
                }
            }
            assert(work@ =~= eliminated(a2, a2, column as int));
            assert(result@ =~= eliminated(r2, a2, column as int));
            assert(gauss_step(a0, r0, column as int) == Some((work@, result@)));
        }
        proof {
            result.lemma_shape();
        }
        Some(result)
    }
}

} // verus!
