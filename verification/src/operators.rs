use crate::matrix::{
    column_of, dot, mat_minus, mat_mul, mat_plus, mat_vec, vec_minus, vec_plus, Matrix, Vector,
};
use crate::scalar::Scalar;
use vstd::prelude::*;
use vstd::std_specs::convert::FromSpecImpl;
use vstd::std_specs::ops::{AddSpecImpl, MulSpecImpl, SubSpecImpl};

verus! {

broadcast use vstd::array::group_array_axioms;

impl<T, const N: usize> From<[T; N]> for Vector<T, N> {
    fn from(values: [T; N]) -> Self {
        Self(values)
    }
}

impl<T, const N: usize> FromSpecImpl<[T; N]> for Vector<T, N> {
    open spec fn obeys_from_spec() -> bool {
        true
    }

    open spec fn from_spec(values: [T; N]) -> Self {
        Vector(values)
    }
}

impl<T, const N: usize> core::ops::Index<usize> for Vector<T, N> {
    type Output = T;

    fn index(&self, index: usize) -> (r: &T)
        ensures
            *r == self@[index as int],
    {
        &self.0[index]
    }
}

impl<T, const N: usize> vstd::std_specs::core::IndexSpecImpl<usize> for Vector<T, N> {
    /// The index is in range.
    open spec fn index_req(&self, index: &usize) -> bool {
        *index < N
    }
}

impl<T, const ROWS: usize, const COLS: usize> core::ops::Index<usize> for Matrix<T, ROWS, COLS> {
    type Output = [T; COLS];

    fn index(&self, index: usize) -> (r: &[T; COLS])
        ensures
            *r == self.0[index as int],
    {
        &self.0[index]
    }
}

impl<T, const ROWS: usize, const COLS: usize> vstd::std_specs::core::IndexSpecImpl<usize> for Matrix<T, ROWS, COLS> {
    /// The row is in range.
    open spec fn index_req(&self, index: &usize) -> bool {
        *index < ROWS
    }
}

impl<T, const ROWS: usize, const COLS: usize> From<[[T; COLS]; ROWS]> for Matrix<T, ROWS, COLS> {
    fn from(values: [[T; COLS]; ROWS]) -> Self {
        Self(values)
    }
}

impl<T, const ROWS: usize, const COLS: usize> FromSpecImpl<[[T; COLS]; ROWS]> for Matrix<T, ROWS, COLS> {
    open spec fn obeys_from_spec() -> bool {
        true
    }

    open spec fn from_spec(values: [[T; COLS]; ROWS]) -> Self {
        Matrix(values)
    }
}

impl<T: Scalar, const N: usize> core::ops::Add for Vector<T, N> {
    type Output = Self;

    fn add(self, rhs: Self) -> (r: Self)
        ensures
            r@ == vec_plus(self@, rhs@),
    {
        let ghost lhs = self@;
        let mut result = self;
        for index in 0..N
            invariant
                result@.len() == N,
                lhs.len() == N,
                forall|i: int| 0 <= i < N ==> #[trigger] result@[i] == (if i < index {
                    T::plus_spec(lhs[i], rhs@[i])
                } else {
                    lhs[i]
                }),
        {
            result.0[index] = result.0[index].plus(rhs.0[index]);
        }
        assert(result@ =~= vec_plus(lhs, rhs@));
        proof {
            result.lemma_from_seq();
        }
        result
    }
}

impl<T: Scalar, const N: usize> AddSpecImpl for Vector<T, N> {
    open spec fn obeys_add_spec() -> bool {
        true
    }

    open spec fn add_req(self, rhs: Self) -> bool {
        true
    }

    open spec fn add_spec(self, rhs: Self) -> Self {
        Self::from_seq(vec_plus(self@, rhs@))
    }
}

impl<T: Scalar, const N: usize> core::ops::Sub for Vector<T, N> {
    type Output = Self;

    fn sub(self, rhs: Self) -> (r: Self)
        ensures
            r@ == vec_minus(self@, rhs@),
    {
        let ghost lhs = self@;
        let mut result = self;
        for index in 0..N
            invariant
                result@.len() == N,
                lhs.len() == N,
                forall|i: int| 0 <= i < N ==> #[trigger] result@[i] == (if i < index {
                    T::minus_spec(lhs[i], rhs@[i])
                } else {
                    lhs[i]
                }),
        {
            result.0[index] = result.0[index].minus(rhs.0[index]);
        }
        assert(result@ =~= vec_minus(lhs, rhs@));
        proof {
            result.lemma_from_seq();
        }
        result
    }
}

impl<T: Scalar, const N: usize> SubSpecImpl for Vector<T, N> {
    open spec fn obeys_sub_spec() -> bool {
        true
    }

    open spec fn sub_req(self, rhs: Self) -> bool {
        true
    }

    open spec fn sub_spec(self, rhs: Self) -> Self {
        Self::from_seq(vec_minus(self@, rhs@))
    }
}

impl<T: Scalar, const ROWS: usize, const COLS: usize> core::ops::Add for Matrix<T, ROWS, COLS> {
    type Output = Self;

    fn add(self, rhs: Self) -> (r: Self)
        ensures
            r@ == mat_plus(self@, rhs@),
    {
        let ghost lhs = self@;
        let mut result = self;
        for row in 0..ROWS
            invariant
                lhs == self@,
                forall|i: int, j: int|
                    0 <= i < ROWS && 0 <= j < COLS ==> #[trigger] result@[i][j] == (if i < row {
                        T::plus_spec(lhs[i][j], rhs@[i][j])
                    } else {
                        lhs[i][j]
                    }),
        {
            for column in 0..COLS
                invariant
                    0 <= row < ROWS,
                    lhs == self@,
                    forall|i: int, j: int|
                        0 <= i < ROWS && 0 <= j < COLS ==> #[trigger] result@[i][j] == (if i < row
                            || (i == row && j < column) {
                            T::plus_spec(lhs[i][j], rhs@[i][j])
                        } else {
                            lhs[i][j]
                        }),
            {
                let value = result.entry(row, column).plus(rhs.entry(row, column));
                result.set_entry(row, column, value);
            }
        }
        proof {
            result.lemma_shape();
            self.lemma_shape();
            rhs.lemma_shape();
        }
        assert(result@ =~~= mat_plus(lhs, rhs@));
        proof {
            result.lemma_from_seq();
        }
        result
    }
}

impl<T: Scalar, const ROWS: usize, const COLS: usize> AddSpecImpl for Matrix<T, ROWS, COLS> {
    open spec fn obeys_add_spec() -> bool {
        true
    }

    open spec fn add_req(self, rhs: Self) -> bool {
        true
    }

    open spec fn add_spec(self, rhs: Self) -> Self {
        Self::from_seq(mat_plus(self@, rhs@))
    }
}

impl<T: Scalar, const ROWS: usize, const COLS: usize> core::ops::Sub for Matrix<T, ROWS, COLS> {
    type Output = Self;

    fn sub(self, rhs: Self) -> (r: Self)
        ensures
            r@ == mat_minus(self@, rhs@),
    {
        let ghost lhs = self@;
        let mut result = self;
        for row in 0..ROWS
            invariant
                lhs == self@,
                forall|i: int, j: int|
                    0 <= i < ROWS && 0 <= j < COLS ==> #[trigger] result@[i][j] == (if i < row {
                        T::minus_spec(lhs[i][j], rhs@[i][j])
                    } else {
                        lhs[i][j]
                    }),
        {
            for column in 0..COLS
                invariant
                    0 <= row < ROWS,
                    lhs == self@,
                    forall|i: int, j: int|
                        0 <= i < ROWS && 0 <= j < COLS ==> #[trigger] result@[i][j] == (if i < row
                            || (i == row && j < column) {
                            T::minus_spec(lhs[i][j], rhs@[i][j])
                        } else {
                            lhs[i][j]
                        }),
            {
                let value = result.entry(row, column).minus(rhs.entry(row, column));
                result.set_entry(row, column, value);
            }
        }
        proof {
            result.lemma_shape();
            self.lemma_shape();
            rhs.lemma_shape();
        }
        assert(result@ =~~= mat_minus(lhs, rhs@));
        proof {
            result.lemma_from_seq();
        }
        result
    }
}

impl<T: Scalar, const ROWS: usize, const COLS: usize> SubSpecImpl for Matrix<T, ROWS, COLS> {
    open spec fn obeys_sub_spec() -> bool {
        true
    }

    open spec fn sub_req(self, rhs: Self) -> bool {
        true
    }

    open spec fn sub_spec(self, rhs: Self) -> Self {
        Self::from_seq(mat_minus(self@, rhs@))
    }
}

impl<T: Scalar, const ROWS: usize, const COLS: usize> core::ops::Mul<Vector<T, COLS>> for Matrix<
    T,
    ROWS,
    COLS,
> {
    type Output = Vector<T, ROWS>;

    fn mul(self, rhs: Vector<T, COLS>) -> (r: Vector<T, ROWS>)
        ensures
            r@ == mat_vec(self@, rhs@),
    {
        let mut result = Vector::new([T::zero(); ROWS]);
        for row in 0..ROWS
            invariant
                forall|i: int| 0 <= i < ROWS ==> #[trigger] result@[i] == (if i < row {
                    dot(self@[i], rhs@, COLS as nat)
                } else {
                    T::zero_spec()
                }),
        {
            for column in 0..COLS
                invariant
                    0 <= row < ROWS,
                    forall|i: int| 0 <= i < ROWS ==> #[trigger] result@[i] == (if i < row {
                        dot(self@[i], rhs@, COLS as nat)
                    } else if i == row {
                        dot(self@[i], rhs@, column as nat)
                    } else {
                        T::zero_spec()
                    }),
            {
                let term = self.entry(row, column).times(rhs.0[column]);
                assert(dot(self@[row as int], rhs@, (column + 1) as nat) == T::plus_spec(
                    dot(self@[row as int], rhs@, column as nat),
                    term,
                ));
                let ghost before = result@;
                result.0[row] = result.0[row].plus(term);
                assert(result@ == before.update(row as int, T::plus_spec(before[row as int], term)));
            }
        }
        assert(result@ =~= mat_vec(self@, rhs@));
        proof {
            result.lemma_from_seq();
        }
        result
    }
}

impl<T: Scalar, const ROWS: usize, const COLS: usize> MulSpecImpl<Vector<T, COLS>> for Matrix<
    T,
    ROWS,
    COLS,
> {
    open spec fn obeys_mul_spec() -> bool {
        true
    }

    open spec fn mul_req(self, rhs: Vector<T, COLS>) -> bool {
        true
    }

    open spec fn mul_spec(self, rhs: Vector<T, COLS>) -> Vector<T, ROWS> {
        Vector::from_seq(mat_vec(self@, rhs@))
    }
}

impl<
    T: Scalar,
    const ROWS: usize,
    const INNER: usize,
    const COLS: usize,
> core::ops::Mul<Matrix<T, INNER, COLS>> for Matrix<T, ROWS, INNER> {
    type Output = Matrix<T, ROWS, COLS>;

    fn mul(self, rhs: Matrix<T, INNER, COLS>) -> (r: Matrix<T, ROWS, COLS>)
        ensures
            r@ == mat_mul(self@, rhs@, COLS as nat),
    {
        let mut result = Matrix::<T, ROWS, COLS>::zeros();
        for row in 0..ROWS
            invariant
                forall|i: int, j: int|
                    0 <= i < ROWS && 0 <= j < COLS ==> #[trigger] result@[i][j] == (if i < row {
                        dot(self@[i], column_of(rhs@, j), INNER as nat)
                    } else {
                        T::zero_spec()
                    }),
        {
            for column in 0..COLS
                invariant
                    0 <= row < ROWS,
                    forall|i: int, j: int|
                        0 <= i < ROWS && 0 <= j < COLS ==> #[trigger] result@[i][j] == (if i < row
                            || (i == row && j < column) {
                            dot(self@[i], column_of(rhs@, j), INNER as nat)
                        } else {
                            T::zero_spec()
                        }),
            {
                for index in 0..INNER
                    invariant
                        0 <= row < ROWS,
                        0 <= column < COLS,
                        forall|i: int, j: int|
                            0 <= i < ROWS && 0 <= j < COLS ==> #[trigger] result@[i][j] == (if i
                                < row || (i == row && j < column) {
                                dot(self@[i], column_of(rhs@, j), INNER as nat)
                            } else if i == row && j == column {
                                dot(self@[i], column_of(rhs@, j), index as nat)
                            } else {
                                T::zero_spec()
                            }),
                {
                    let term = self.entry(row, index).times(rhs.entry(index, column));
                    let value = result.entry(row, column).plus(term);
                    assert(column_of(rhs@, column as int)[index as int] == rhs@[index as int][column as int]);
                    result.set_entry(row, column, value);
                }
            }
        }
        proof {
            result.lemma_shape();
        }
        assert(result@ =~~= mat_mul(self@, rhs@, COLS as nat));
        proof {
            result.lemma_from_seq();
        }
        result
    }
}

impl<
    T: Scalar,
    const ROWS: usize,
    const INNER: usize,
    const COLS: usize,
> MulSpecImpl<Matrix<T, INNER, COLS>> for Matrix<T, ROWS, INNER> {
    open spec fn obeys_mul_spec() -> bool {
        true
    }

    open spec fn mul_req(self, rhs: Matrix<T, INNER, COLS>) -> bool {
        true
    }

    open spec fn mul_spec(self, rhs: Matrix<T, INNER, COLS>) -> Matrix<T, ROWS, COLS> {
        Matrix::from_seq(mat_mul(self@, rhs@, COLS as nat))
    }
}

} // verus!
