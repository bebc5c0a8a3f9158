use robokit::matrix::{Matrix, Vector};

#[test]
fn vector_new_and_into_inner() {
    let v = Vector::new([1i64, 2, 3]);
    assert_eq!(v.0, [1, 2, 3]);
    assert_eq!(v.into_inner(), [1, 2, 3]);
    assert_eq!(Vector::from([4i64, 5]), Vector::new([4, 5]));
}

#[test]
fn matrix_new_and_into_inner() {
    let m = Matrix::new([[1i64, 2], [3, 4]]);
    assert_eq!(m.into_inner(), [[1, 2], [3, 4]]);
    assert_eq!(Matrix::from([[1i64, 2], [3, 4]]), m);
    assert_eq!(m.entry(1, 0), 3);
    assert_eq!(m[1], [3, 4]);
    assert_eq!(Vector::new([7i64, 8])[1], 8);
    let mut n = m;
    n.set_entry(0, 1, 9);
    assert_eq!(n.into_inner(), [[1, 9], [3, 4]]);
}

#[test]
fn matrix_transpose() {
    let m = Matrix::new([[1i64, 2, 3], [4, 5, 6]]);
    let t = m.transpose();
    assert_eq!(t.into_inner(), [[1, 4], [2, 5], [3, 6]]);
    assert_eq!(t.transpose(), m);
}

#[test]
fn matrix_identity_and_zeros() {
    let id = Matrix::<i64, 3, 3>::identity();
    assert_eq!(id.into_inner(), [[1, 0, 0], [0, 1, 0], [0, 0, 1]]);
    assert_eq!(id.transpose(), id);
    assert_eq!(Matrix::<i64, 2, 3>::zeros().into_inner(), [[0; 3]; 2]);
}

#[test]
fn vector_add_sub() {
    let a = Vector::new([1i64, 2, 3]);
    let b = Vector::new([10i64, 20, 30]);
    assert_eq!((a + b).into_inner(), [11, 22, 33]);
    assert_eq!((a - b).into_inner(), [-9, -18, -27]);
}

#[test]
fn matrix_add_sub() {
    let a = Matrix::new([[1i64, 2], [3, 4]]);
    let b = Matrix::new([[5i64, 6], [7, 8]]);
    assert_eq!((a + b).into_inner(), [[6, 8], [10, 12]]);
    assert_eq!((a - b).into_inner(), [[-4, -4], [-4, -4]]);
}

#[test]
fn matrix_times_vector() {
    let m = Matrix::new([[1i64, 2], [3, 4], [5, 6]]);
    let v = Vector::new([5i64, 6]);
    assert_eq!((m * v).into_inner(), [17, 39, 61]);
}

#[test]
fn matrix_times_matrix() {
    let a = Matrix::new([[1i64, 2], [3, 4]]);
    let b = Matrix::new([[5i64, 6], [7, 8]]);
    assert_eq!((a * b).into_inner(), [[19, 22], [43, 50]]);
    let c = Matrix::new([[1i64, 2, 3]]);
    let d = Matrix::new([[1i64], [1], [1]]);
    assert_eq!((c * d).into_inner(), [[6]]);
    assert_eq!((d * c).into_inner(), [[1, 2, 3], [1, 2, 3], [1, 2, 3]]);
}

#[test]
fn matrix_times_identity() {
    let a = Matrix::new([[1i64, 2, 3], [4, 5, 6]]);
    assert_eq!(a * Matrix::<i64, 3, 3>::identity(), a);
    assert_eq!(Matrix::<i64, 2, 2>::identity() * a, a);
    let v = Vector::new([-4i64, 9, i64::MIN]);
    assert_eq!(Matrix::<i64, 3, 3>::identity() * v, v);
}

#[test]
fn inverse_of_unit_triangular() {
    let m = Matrix::new([[1i64, 2], [0, 1]]);
    let inv = m.inverse().unwrap();
    assert_eq!(inv.into_inner(), [[1, -2], [0, 1]]);
    assert_eq!(m * inv, Matrix::identity());
}

#[test]
fn inverse_swaps_rows_for_pivot() {
    let m = Matrix::new([[0i64, 1], [1, 0]]);
    assert_eq!(m.inverse(), Some(m));
    let p = Matrix::new([[0i64, 0, 1], [1, 0, 0], [0, 1, 0]]);
    assert_eq!(p.inverse().unwrap(), p.transpose());
}

#[test]
fn inverse_of_identity() {
    let id = Matrix::<i64, 4, 4>::identity();
    assert_eq!(id.inverse(), Some(id));
}

#[test]
fn inverse_of_singular_is_none() {
    assert_eq!(Matrix::new([[1i64, 2], [2, 4]]).inverse(), None);
    assert_eq!(Matrix::<i64, 3, 3>::zeros().inverse(), None);
}

#[test]
fn inverse_truncates_division() {
    // The pivot 2 divides the second row of the identity to zero.
    assert_eq!(Matrix::new([[2i64]]).inverse(), Some(Matrix::new([[0]])));
    assert_eq!(Matrix::new([[-1i64]]).inverse(), Some(Matrix::new([[-1]])));
}

#[test]
fn inverse_of_empty_matrix() {
    let m: Matrix<i64, 0, 0> = Matrix::new([]);
    assert_eq!(m.inverse(), Some(m));
}
