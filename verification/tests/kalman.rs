use robokit::kalman::{ExtendedKalmanFilter, KalmanError, KalmanFilter};
use robokit::matrix::{Matrix, Vector};

#[test]
fn kalman_new_holds_state() {
    let filter = KalmanFilter::new(Vector::new([1i64, 2]), Matrix::<i64, 2, 2>::identity());
    assert_eq!(filter.state, Vector::new([1, 2]));
    assert_eq!(filter.covariance, Matrix::identity());
}

#[test]
fn kalman_predict() {
    let mut filter = KalmanFilter::new(Vector::new([1i64, 2]), Matrix::<i64, 2, 2>::identity());
    let transition = Matrix::new([[1i64, 1], [0, 1]]);
    let noise = Matrix::new([[1i64, 0], [0, 2]]);
    filter.predict(&transition, &noise);
    assert_eq!(filter.state.into_inner(), [3, 2]);
    // F F^T + Q
    assert_eq!(filter.covariance.into_inner(), [[3, 1], [1, 3]]);
}

#[test]
fn kalman_predict_with_control() {
    let mut filter = KalmanFilter::new(Vector::new([1i64, 2]), Matrix::<i64, 2, 2>::identity());
    let transition = Matrix::new([[1i64, 1], [0, 1]]);
    let noise = Matrix::<i64, 2, 2>::zeros();
    let control_model = Matrix::new([[0i64], [1]]);
    let control = Vector::new([3i64]);
    filter.predict_with_control(&transition, &noise, &control_model, &control);
    assert_eq!(filter.state.into_inner(), [3, 5]);
    assert_eq!(filter.covariance.into_inner(), [[2, 1], [1, 1]]);
}

#[test]
fn kalman_update_applies_gain() {
    // P = 2, H = 1, R = -1: S = 1, K = 2, residual = -1.
    let mut filter = KalmanFilter::new(Vector::new([3i64]), Matrix::new([[2i64]]));
    let result = filter.update(&Vector::new([5i64]), &Matrix::new([[1i64]]), &Matrix::new([[-1i64]]));
    assert_eq!(result, Ok(()));
    // x = 3 + 2 * (5 - 3)
    assert_eq!(filter.state.into_inner(), [7]);
    // (-1) * 2 * (-1) + 2 * (-1) * 2
    assert_eq!(filter.covariance.into_inner(), [[-2]]);
}

#[test]
fn kalman_update_singular_innovation() {
    let mut filter = KalmanFilter::new(Vector::new([3i64]), Matrix::new([[2i64]]));
    let before = filter;
    let result = filter.update(&Vector::new([5i64]), &Matrix::new([[0i64]]), &Matrix::new([[0i64]]));
    assert_eq!(result, Err(KalmanError::SingularInnovation));
    assert_eq!(filter, before);
}

#[test]
fn extended_kalman_predict() {
    let mut filter = ExtendedKalmanFilter::new(Vector::new([3i64]), Matrix::new([[1i64]]));
    filter.predict(
        |x: &Vector<i64, 1>| (Vector::new([x.0[0] * 2]), Matrix::new([[2i64]])),
        &Matrix::new([[1i64]]),
    );
    assert_eq!(filter.state.into_inner(), [6]);
    assert_eq!(filter.covariance.into_inner(), [[5]]);
}

#[test]
fn extended_kalman_update() {
    let mut filter = ExtendedKalmanFilter::new(Vector::new([3i64]), Matrix::new([[2i64]]));
    let result = filter.update(&Vector::new([5i64]), &Matrix::new([[-1i64]]), |x: &Vector<i64, 1>| {
        (Vector::new([x.0[0]]), Matrix::new([[1i64]]))
    });
    assert_eq!(result, Ok(()));
    assert_eq!(filter.state.into_inner(), [7]);
    assert_eq!(filter.covariance.into_inner(), [[-2]]);
}

#[test]
fn extended_kalman_update_singular() {
    let mut filter = ExtendedKalmanFilter::new(Vector::new([3i64]), Matrix::new([[2i64]]));
    let before = filter;
    let result = filter.update(&Vector::new([5i64]), &Matrix::new([[0i64]]), |x: &Vector<i64, 1>| {
        (Vector::new([x.0[0]]), Matrix::new([[0i64]]))
    });
    assert_eq!(result, Err(KalmanError::SingularInnovation));
    assert_eq!(filter, before);
}

#[test]
fn kalman_update_keeps_covariance_symmetric() {
    let mut filter = KalmanFilter::new(Vector::new([1i64, 2]), Matrix::new([[2i64, 1], [1, 3]]));
    let result = filter.update(&Vector::new([4i64]), &Matrix::new([[1i64, 0]]), &Matrix::new([[-1i64]]));
    assert_eq!(result, Ok(()));
    let p = filter.covariance.into_inner();
    assert_eq!(p[0][1], p[1][0]);
    // K = [2, 1], residual = [[-1, 0], [-1, 1]].
    assert_eq!(filter.state.into_inner(), [1 + 2 * 3, 2 + 3]);
    assert_eq!(p, [[-2, -1], [-1, 2]]);
}
