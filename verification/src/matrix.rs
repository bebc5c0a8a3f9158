use crate::scalar::Scalar;
use vstd::prelude::*;

verus! {

broadcast use vstd::array::group_array_axioms;

// ---------------------------------------------------------------------------
// The mathematical model: vectors are sequences, matrices are sequences of
// rows. Every routine below is specified over these sequences.
// ---------------------------------------------------------------------------

/// `a[0] * b[0] + a[1] * b[1] + ... + a[k - 1] * b[k - 1]`, summed from the
/// left starting at zero: the order in which the routines accumulate.
pub open spec fn dot<T: Scalar>(a: Seq<T>, b: Seq<T>, k: nat) -> T
    decreases k,
{
    if k == 0 {
        T::zero_spec()
    } else {
        T::plus_spec(dot(a, b, (k - 1) as nat), T::times_spec(a[k - 1], b[k - 1]))
    }
}

/// Column `j` of the matrix `m`.
pub open spec fn column_of<T>(m: Seq<Seq<T>>, j: int) -> Seq<T> {
    Seq::new(m.len(), |i: int| m[i][j])
}

/// Whether `m` has `rows` rows of `cols` entries each.
pub open spec fn is_shaped<T>(m: Seq<Seq<T>>, rows: nat, cols: nat) -> bool {
    &&& m.len() == rows
    &&& forall|i: int| 0 <= i < rows ==> #[trigger] m[i].len() == cols
}

/// The entrywise sum of two vectors.
pub open spec fn vec_plus<T: Scalar>(a: Seq<T>, b: Seq<T>) -> Seq<T> {
    Seq::new(a.len(), |i: int| T::plus_spec(a[i], b[i]))
}

/// The entrywise difference of two vectors.
pub open spec fn vec_minus<T: Scalar>(a: Seq<T>, b: Seq<T>) -> Seq<T> {
    Seq::new(a.len(), |i: int| T::minus_spec(a[i], b[i]))
}

/// The entrywise sum of two matrices.
pub open spec fn mat_plus<T: Scalar>(a: Seq<Seq<T>>, b: Seq<Seq<T>>) -> Seq<Seq<T>> {
    Seq::new(a.len(), |i: int| vec_plus(a[i], b[i]))
}

/// The entrywise difference of two matrices.
pub open spec fn mat_minus<T: Scalar>(a: Seq<Seq<T>>, b: Seq<Seq<T>>) -> Seq<Seq<T>> {
    Seq::new(a.len(), |i: int| vec_minus(a[i], b[i]))
}

/// The matrix-vector product `m v`.
pub open spec fn mat_vec<T: Scalar>(m: Seq<Seq<T>>, v: Seq<T>) -> Seq<T> {
    Seq::new(m.len(), |i: int| dot(m[i], v, v.len()))
}

/// The matrix product `a b`, where `b` has `cols` columns.
pub open spec fn mat_mul<T: Scalar>(a: Seq<Seq<T>>, b: Seq<Seq<T>>, cols: nat) -> Seq<Seq<T>> {
    Seq::new(a.len(), |i: int| Seq::new(cols, |j: int| dot(a[i], column_of(b, j), b.len())))
}

/// The transpose of `m`, where `m` has `cols` columns.
pub open spec fn transposed<T>(m: Seq<Seq<T>>, cols: nat) -> Seq<Seq<T>> {
    Seq::new(cols, |j: int| column_of(m, j))
}

/// The `n` by `n` identity matrix.
pub open spec fn identity_of<T: Scalar>(n: nat) -> Seq<Seq<T>> {
    Seq::new(n, |i: int| Seq::new(n, |j: int| if i == j { T::one_spec() } else { T::zero_spec() }))
}

/// The `rows` by `cols` matrix of zeros.
pub open spec fn zeros<T: Scalar>(rows: nat, cols: nat) -> Seq<Seq<T>> {
    Seq::new(rows, |i: int| Seq::new(cols, |j: int| T::zero_spec()))
}

/// Transposing twice gives the matrix back.
pub proof fn lemma_transpose_involution<T>(m: Seq<Seq<T>>, rows: nat, cols: nat)
    requires
        is_shaped(m, rows, cols),
    ensures
        transposed(transposed(m, cols), rows) == m,
{
    let t = transposed(m, cols);
    assert(is_shaped(t, cols, rows));
    assert forall|i: int| 0 <= i < rows implies #[trigger] transposed(t, rows)[i] == m[i] by {
        assert(transposed(t, rows)[i] =~= m[i]);
    }
    assert(transposed(t, rows) =~= m);
}

/// The identity matrix is its own transpose.
pub proof fn lemma_identity_symmetric<T: Scalar>(n: nat)
    ensures
        transposed(identity_of::<T>(n), n) == identity_of::<T>(n),
{
    let id = identity_of::<T>(n);
    assert forall|i: int| 0 <= i < n implies #[trigger] transposed(id, n)[i] == id[i] by {
        assert(transposed(id, n)[i] =~= id[i]);
    }
    assert(transposed(id, n) =~= id);
}

/// Multiplying an `i64` by one or zero, and adding zero, are exact.
proof fn lemma_i64_unit_arithmetic(x: i64)
    ensures
        i64::times_spec(x, 1) == x,
        i64::times_spec(1, x) == x,
        i64::times_spec(x, 0) == 0,
        i64::times_spec(0, x) == 0,
        i64::plus_spec(x, 0) == x,
        i64::plus_spec(0, x) == x,
{
    let m: int = 0x1_0000_0000_0000_0000;
    if x >= 0 {
        vstd::arithmetic::div_mod::lemma_small_mod(x as nat, m as nat);
    } else {
        vstd::arithmetic::div_mod::lemma_small_mod((x + m) as nat, m as nat);
        vstd::arithmetic::div_mod::lemma_mod_add_multiples_vanish(x as int, m);
    }
    assert(x * 1 == x && 1 * x == x && x * 0 == 0 && 0 * x == 0);
    assert(0int % m == 0) by {
        vstd::arithmetic::div_mod::lemma_small_mod(0, m as nat);
    }
}

/// Summing `a` against column `j` of the identity picks out `a[j]` once the
/// sum has reached index `j`.
proof fn lemma_dot_identity_column(a: Seq<i64>, n: nat, j: int, k: nat)
    requires
        a.len() == n,
        0 <= j < n,
        k <= n,
    ensures
        dot(a, column_of(identity_of::<i64>(n), j), k) == (if j < k { a[j] } else { 0 }),
    decreases k,
{
    if k > 0 {
        lemma_dot_identity_column(a, n, j, (k - 1) as nat);
        lemma_i64_unit_arithmetic(a[k - 1]);
        lemma_i64_unit_arithmetic(dot(a, column_of(identity_of::<i64>(n), j), (k - 1) as nat));
    }
}

/// Summing row `i` of the identity against `b` picks out `b[i]` once the
/// sum has reached index `i`.
proof fn lemma_dot_identity_row(b: Seq<i64>, n: nat, i: int, k: nat)
    requires
        b.len() == n,
        0 <= i < n,
        k <= n,
    ensures
        dot(identity_of::<i64>(n)[i], b, k) == (if i < k { b[i] } else { 0 }),
    decreases k,
{
    if k > 0 {
        lemma_dot_identity_row(b, n, i, (k - 1) as nat);
        lemma_i64_unit_arithmetic(b[k - 1]);
        lemma_i64_unit_arithmetic(dot(identity_of::<i64>(n)[i], b, (k - 1) as nat));
    }
}

/// The identity is neutral for the product of `i64` matrices, on either
/// side, and for the product with a vector.
pub proof fn lemma_identity_neutral(a: Seq<Seq<i64>>, rows: nat, cols: nat, v: Seq<i64>)
    requires
        is_shaped(a, rows, cols),
        v.len() == rows,
    ensures
        mat_mul(a, identity_of::<i64>(cols), cols) == a,
        mat_mul(identity_of::<i64>(rows), a, cols) == a,
        mat_vec(identity_of::<i64>(rows), v) == v,
{
    assert forall|i: int| 0 <= i < rows implies #[trigger] mat_mul(a, identity_of::<i64>(cols), cols)[i]
        == a[i] by {
        assert forall|j: int| 0 <= j < cols implies #[trigger] mat_mul(
            a,
            identity_of::<i64>(cols),
            cols,
        )[i][j] == a[i][j] by {
            lemma_dot_identity_column(a[i], cols, j, cols);
        }
        assert(mat_mul(a, identity_of::<i64>(cols), cols)[i] =~= a[i]);
    }
    assert(mat_mul(a, identity_of::<i64>(cols), cols) =~= a);
    assert forall|i: int| 0 <= i < rows implies #[trigger] mat_mul(identity_of::<i64>(rows), a, cols)[i]
        == a[i] by {
        assert forall|j: int| 0 <= j < cols implies #[trigger] mat_mul(
            identity_of::<i64>(rows),
            a,
            cols,
        )[i][j] == a[i][j] by {
            lemma_dot_identity_row(column_of(a, j), rows, i, rows);
        }
        assert(mat_mul(identity_of::<i64>(rows), a, cols)[i] =~= a[i]);
    }
    assert(mat_mul(identity_of::<i64>(rows), a, cols) =~= a);
    assert forall|i: int| 0 <= i < rows implies #[trigger] mat_vec(identity_of::<i64>(rows), v)[i]
        == v[i] by {
        lemma_dot_identity_row(v, rows, i, rows);
    }
    assert(mat_vec(identity_of::<i64>(rows), v) =~= v);
}

// ---------------------------------------------------------------------------
// Fixed-size vectors and matrices.
// ---------------------------------------------------------------------------

/// A fixed-size vector backed by an array.
#[derive(Debug, Clone, Copy, PartialEq)]
pub struct Vector<T, const N: usize>(pub [T; N]);

impl<T, const N: usize> View for Vector<T, N> {
    type V = Seq<T>;

    open spec fn view(&self) -> Seq<T> {
        self.0@
    }
}

impl<T, const N: usize> Vector<T, N> {
    pub fn new(values: [T; N]) -> (r: Self)
        ensures
            r.0 == values,
    {
        Self(values)
    }

    pub fn into_inner(self) -> (r: [T; N])
        ensures
            r == self.0,
    {
        self.0
    }

    /// The vector whose entries are `s` (for an `s` of length `N`).
    pub open spec fn from_seq(s: Seq<T>) -> Self {
        choose|v: Self| v@ == s
    }

    /// A vector is determined by its entries.
    pub proof fn lemma_from_seq(self)
        ensures
            Self::from_seq(self@) == self,
    {
        let w = Self::from_seq(self@);
        assert(w@ == self@);
        assert(w.0 =~= self.0);
    }
}

/// A row-major fixed-size matrix backed by nested arrays.
#[derive(Debug, Clone, Copy, PartialEq)]
pub struct Matrix<T, const ROWS: usize, const COLS: usize>(pub [[T; COLS]; ROWS]);

impl<T, const ROWS: usize, const COLS: usize> View for Matrix<T, ROWS, COLS> {
    type V = Seq<Seq<T>>;

    open spec fn view(&self) -> Seq<Seq<T>> {
        self.0@.map_values(|row: [T; COLS]| row@)
    }
}

impl<T, const ROWS: usize, const COLS: usize> Matrix<T, ROWS, COLS> {
    pub fn new(values: [[T; COLS]; ROWS]) -> (r: Self)
        ensures
            r.0 == values,
    {
        Self(values)
    }

    pub fn into_inner(self) -> (r: [[T; COLS]; ROWS])
        ensures
            r == self.0,
    {
        self.0
    }

    /// The matrix whose rows are `s` (for an `s` of `ROWS` rows of `COLS`
    /// entries).
    pub open spec fn from_seq(s: Seq<Seq<T>>) -> Self {
        choose|m: Self| m@ == s
    }

    /// A matrix is determined by its entries.
    pub proof fn lemma_from_seq(self)
        ensures
            Self::from_seq(self@) == self,
    {
        let w = Self::from_seq(self@);
        assert(w@ == self@);
        assert forall|i: int| 0 <= i < ROWS implies w.0[i] == self.0[i] by {
            assert(w@[i] == w.0[i]@);
            assert(self@[i] == self.0[i]@);
            assert(w.0[i] =~= self.0[i]);
        }
        assert(w.0 =~= self.0);
    }

    /// Every matrix has `ROWS` rows of `COLS` entries.
    pub proof fn lemma_shape(self)
        ensures
            is_shaped(self@, ROWS as nat, COLS as nat),
    {
        assert forall|i: int| 0 <= i < ROWS implies #[trigger] self@[i].len() == COLS by {
            assert(self@[i] == self.0@[i]@);
        }
    }
}

impl<T: Copy, const ROWS: usize, const COLS: usize> Matrix<T, ROWS, COLS> {
    /// The entry in row `row` and column `column`.
    pub fn entry(&self, row: usize, column: usize) -> (r: T)
        requires
            row < ROWS,
            column < COLS,
        ensures
            r == self@[row as int][column as int],
    {
        self.0[row][column]
    }

    /// Overwrites the entry in row `row` and column `column`.
    pub fn set_entry(&mut self, row: usize, column: usize, value: T)
        requires
            row < ROWS,
            column < COLS,
        ensures
            final(self)@ == old(self)@.update(
                row as int,
                old(self)@[row as int].update(column as int, value),
            ),
    {
        self.0[row][column] = value;
        assert(final(self)@ =~= old(self)@.update(
            row as int,
            old(self)@[row as int].update(column as int, value),
        ));
    }
}

impl<T: Scalar, const ROWS: usize, const COLS: usize> Matrix<T, ROWS, COLS> {
    /// The `ROWS` by `COLS` matrix of zeros.
    pub fn zeros() -> (r: Self)
        ensures
            r@ == zeros::<T>(ROWS as nat, COLS as nat),
    {
        let r = Self([[T::zero(); COLS]; ROWS]);
        assert(r@ =~~= zeros::<T>(ROWS as nat, COLS as nat));
        r
    }

    pub fn transpose(self) -> (r: Matrix<T, COLS, ROWS>)
        ensures
            r@ == transposed(self@, COLS as nat),
    {
        let mut result = Matrix::<T, COLS, ROWS>::zeros();
        for row in 0..ROWS
            invariant
                forall|j: int, i: int|
                    0 <= j < COLS && 0 <= i < ROWS ==> #[trigger] result@[j][i] == (if i < row {
                        self@[i][j]
                    } else {
                        T::zero_spec()
                    }),
        {
            for column in 0..COLS
                invariant
                    0 <= row < ROWS,
                    forall|j: int, i: int|
                        0 <= j < COLS && 0 <= i < ROWS ==> #[trigger] result@[j][i] == (if i < row
                            || (i == row && j < column) {
                            self@[i][j]
                        } else {
                            T::zero_spec()
                        }),
            {
                let value = self.entry(row, column);
                result.set_entry(column, row, value);
            }
        }
        proof {
            result.lemma_shape();
            self.lemma_shape();
        }
        assert(result@ =~~= transposed(self@, COLS as nat));
        result
    }
}

impl<T: Scalar, const N: usize> Matrix<T, N, N> {
    pub fn identity() -> (r: Self)
        ensures
            r@ == identity_of::<T>(N as nat),
    {
        let mut result = Self::zeros();
        for index in 0..N
            invariant
                forall|i: int, j: int|
                    0 <= i < N && 0 <= j < N ==> #[trigger] result@[i][j] == (if i == j && i
                        < index {
                        T::one_spec()
                    } else {
                        T::zero_spec()
                    }),
        {
            result.set_entry(index, index, T::one());
        }
        proof {
            result.lemma_shape();
        }
        assert(result@ =~~= identity_of::<T>(N as nat));
        result
    }
}

} // verus!
