//! Allocation-free Kalman filters for fixed-size systems.
use crate::inverse::inverse_of;
use crate::matrix::{
    identity_of, mat_minus, mat_mul, mat_plus, mat_vec, transposed, vec_minus, vec_plus, Matrix,
    Vector,
};
use crate::scalar::Scalar;
use vstd::prelude::*;

verus! {

/// An error produced while applying a filter update.
#[derive(Debug, Clone, Copy, PartialEq, Eq)]
pub enum KalmanError {
    /// The innovation covariance could not be inverted.
    SingularInnovation,
}

/// `F P Fᵀ + Q` for the `n` by `n` matrices `p`, `f` and `q`.
pub open spec fn predicted_covariance<T: Scalar>(
    p: Seq<Seq<T>>,
    f: Seq<Seq<T>>,
    q: Seq<Seq<T>>,
    n: nat,
) -> Seq<Seq<T>> {
    mat_plus(mat_mul(mat_mul(f, p, n), transposed(f, n), n), q)
}

/// The measurement correction of a state `x` (of size `n`) with covariance
/// `p`, from the innovation `y` (of size `m`), the observation model `h` and
/// the measurement noise `r`:
///
/// `K = P Hᵀ (H P Hᵀ + R)⁻¹`, `x + K y`, and in Joseph form
/// `(I - K H) P (I - K H)ᵀ + K R Kᵀ`; `None` when `H P Hᵀ + R` has no inverse.
pub open spec fn corrected<T: Scalar>(
    x: Seq<T>,
    p: Seq<Seq<T>>,
    y: Seq<T>,
    h: Seq<Seq<T>>,
    r: Seq<Seq<T>>,
    n: nat,
    m: nat,
) -> Option<(Seq<T>, Seq<Seq<T>>)> {
    let cross_covariance = mat_mul(p, transposed(h, n), m);
    let innovation_covariance = mat_plus(mat_mul(h, cross_covariance, m), r);
    match inverse_of(innovation_covariance) {
        None => None,
        Some(inverse) => {
            let gain = mat_mul(cross_covariance, inverse, m);
            let residual = mat_minus(identity_of::<T>(n), mat_mul(gain, h, n));
            Some(
                (
                    vec_plus(x, mat_vec(gain, y)),
                    mat_plus(
                        mat_mul(mat_mul(residual, p, n), transposed(residual, n), n),
                        mat_mul(mat_mul(gain, r, m), transposed(gain, m), n),
                    ),
                ),
            )
        },
    }
}

/// A linear Kalman filter with a fixed-size state.
#[derive(Debug, Clone, Copy, PartialEq)]
pub struct KalmanFilter<T, const STATES: usize> {
    pub state: Vector<T, STATES>,
    pub covariance: Matrix<T, STATES, STATES>,
}

impl<T: Scalar, const STATES: usize> KalmanFilter<T, STATES> {
    pub fn new(state: Vector<T, STATES>, covariance: Matrix<T, STATES, STATES>) -> (r: Self)
        ensures
            r.state == state,
            r.covariance == covariance,
    {
        Self { state, covariance }
    }

    /// Advances the state using `x = F x` and `P = F P Fᵀ + Q`.
    pub fn predict(
        &mut self,
        transition: &Matrix<T, STATES, STATES>,
        process_noise: &Matrix<T, STATES, STATES>,
    )
        ensures
            final(self).state@ == mat_vec(transition@, old(self).state@),
            final(self).covariance@ == predicted_covariance(
                old(self).covariance@,
                transition@,
                process_noise@,
                STATES as nat,
            ),
    {
        self.state = *transition * self.state;
        self.covariance = predict_covariance(&self.covariance, transition, process_noise);
    }

    /// Advances the state with a control input using `x = F x + B u`.
    pub fn predict_with_control<const INPUTS: usize>(
        &mut self,
        transition: &Matrix<T, STATES, STATES>,
        process_noise: &Matrix<T, STATES, STATES>,
        control_model: &Matrix<T, STATES, INPUTS>,
        control: &Vector<T, INPUTS>,
    )
        ensures
            final(self).state@ == vec_plus(
                mat_vec(transition@, old(self).state@),
                mat_vec(control_model@, control@),
            ),
            final(self).covariance@ == predicted_covariance(
                old(self).covariance@,
                transition@,
                process_noise@,
                STATES as nat,
            ),
    {
        self.state = *transition * self.state + *control_model * *control;
        self.covariance = predict_covariance(&self.covariance, transition, process_noise);
    }

    /// Incorporates a measurement using the observation model `H` and noise `R`.
    ///
    /// On `Err` the filter is left as it was.
    pub fn update<const MEASUREMENTS: usize>(
        &mut self,
        measurement: &Vector<T, MEASUREMENTS>,
        observation: &Matrix<T, MEASUREMENTS, STATES>,
        measurement_noise: &Matrix<T, MEASUREMENTS, MEASUREMENTS>,
    ) -> (r: Result<(), KalmanError>)
        ensures
            match corrected(
                old(self).state@,
                old(self).covariance@,
                vec_minus(measurement@, mat_vec(observation@, old(self).state@)),
                observation@,
                measurement_noise@,
                STATES as nat,
                MEASUREMENTS as nat,
            ) {
                Some(next) => r == Ok::<(), KalmanError>(()) && final(self).state@ == next.0
                    && final(self).covariance@ == next.1,
                None => r == Err::<(), KalmanError>(KalmanError::SingularInnovation)
                    && final(self).state == old(self).state && final(self).covariance == old(
                    self,
                ).covariance,
            },
    {
        let innovation = *measurement - *observation * self.state;
        update(
            &mut self.state,
            &mut self.covariance,
            &innovation,
            observation,
            measurement_noise,
        )
    }
}

/// An extended Kalman filter with a fixed-size state.
#[derive(Debug, Clone, Copy, PartialEq)]
pub struct ExtendedKalmanFilter<T, const STATES: usize> {
    pub state: Vector<T, STATES>,
    pub covariance: Matrix<T, STATES, STATES>,
}

impl<T: Scalar, const STATES: usize> ExtendedKalmanFilter<T, STATES> {
    pub fn new(state: Vector<T, STATES>, covariance: Matrix<T, STATES, STATES>) -> (r: Self)
        ensures
            r.state == state,
            r.covariance == covariance,
    {
        Self { state, covariance }
    }

    /// Advances the state through a nonlinear transition function.
    ///
    /// The function receives the prior state and returns the predicted state and
    /// the transition Jacobian evaluated at that prior state.
    pub fn predict<F>(&mut self, transition: F, process_noise: &Matrix<T, STATES, STATES>)
        where
            F: FnOnce(&Vector<T, STATES>) -> (Vector<T, STATES>, Matrix<T, STATES, STATES>),
        requires
            transition.requires((&old(self).state,)),
        ensures
            exists|out: (Vector<T, STATES>, Matrix<T, STATES, STATES>)|
                {
                    &&& #[trigger] transition.ensures((&old(self).state,), out)
                    &&& final(self).state == out.0
                    &&& final(self).covariance@ == predicted_covariance(
                        old(self).covariance@,
                        out.1@,
                        process_noise@,
                        STATES as nat,
                    )
                },
    {
        let (state, jacobian) = transition(&self.state);
        self.covariance = predict_covariance(&self.covariance, &jacobian, process_noise);
        self.state = state;
    }

    /// Incorporates a measurement through a nonlinear observation function.
    ///
    /// The function returns the predicted measurement and the observation
    /// Jacobian, both evaluated at the current state. On `Err` the filter is
    /// left as it was.
    pub fn update<const MEASUREMENTS: usize, H>(
        &mut self,
        measurement: &Vector<T, MEASUREMENTS>,
        measurement_noise: &Matrix<T, MEASUREMENTS, MEASUREMENTS>,
        observation: H,
    ) -> (r: Result<(), KalmanError>)
        where
            H: FnOnce(&Vector<T, STATES>) -> (Vector<T, MEASUREMENTS>, Matrix<
                T,
                MEASUREMENTS,
                STATES,
            >),
        requires
            observation.requires((&old(self).state,)),
        ensures
            exists|out: (Vector<T, MEASUREMENTS>, Matrix<T, MEASUREMENTS, STATES>)|
                {
                    &&& #[trigger] observation.ensures((&old(self).state,), out)
                    &&& match corrected(
                        old(self).state@,
                        old(self).covariance@,
                        vec_minus(measurement@, out.0@),
                        out.1@,
                        measurement_noise@,
                        STATES as nat,
                        MEASUREMENTS as nat,
                    ) {
                        Some(next) => r == Ok::<(), KalmanError>(()) && final(self).state@ == next.0
                            && final(self).covariance@ == next.1,
                        None => r == Err::<(), KalmanError>(KalmanError::SingularInnovation)
                            && final(self).state == old(self).state && final(self).covariance
                            == old(self).covariance,
                    }
                },
    {
        let (predicted, jacobian) = observation(&self.state);
        let innovation = *measurement - predicted;
        update(&mut self.state, &mut self.covariance, &innovation, &jacobian, measurement_noise)
    }
}

fn update<T: Scalar, const STATES: usize, const MEASUREMENTS: usize>(
    state: &mut Vector<T, STATES>,
    covariance: &mut Matrix<T, STATES, STATES>,
    innovation: &Vector<T, MEASUREMENTS>,
    observation: &Matrix<T, MEASUREMENTS, STATES>,
    measurement_noise: &Matrix<T, MEASUREMENTS, MEASUREMENTS>,
) -> (r: Result<(), KalmanError>)
    ensures
        match corrected(
            old(state)@,
            old(covariance)@,
            innovation@,
            observation@,
            measurement_noise@,
            STATES as nat,
            MEASUREMENTS as nat,
        ) {
            Some(next) => r == Ok::<(), KalmanError>(()) && final(state)@ == next.0 && final(covariance)@ == next.1,
            None => r == Err::<(), KalmanError>(KalmanError::SingularInnovation) && *final(state)
                == *old(state) && *final(covariance) == *old(covariance),
        },
{
    let cross_covariance = *covariance * observation.transpose();
    let innovation_covariance = *observation * cross_covariance + *measurement_noise;
    let innovation_covariance_inv = match innovation_covariance.inverse() {
        Some(inverse) => inverse,
        None => return Err(KalmanError::SingularInnovation),
    };
    let gain = cross_covariance * innovation_covariance_inv;

    *state = *state + gain * *innovation;

    // Joseph form is slightly more work than (I - KH)P, but remains symmetric
    // and positive semi-definite under ordinary floating-point roundoff.
    let residual = Matrix::identity() - gain * *observation;
    *covariance = residual * *covariance * residual.transpose() + gain * *measurement_noise
        * gain.transpose();
    Ok(())
}

fn predict_covariance<T: Scalar, const N: usize>(
    covariance: &Matrix<T, N, N>,
    transition: &Matrix<T, N, N>,
    process_noise: &Matrix<T, N, N>,
) -> (r: Matrix<T, N, N>)
    ensures
        r@ == predicted_covariance(covariance@, transition@, process_noise@, N as nat),
{
    *transition * *covariance * transition.transpose() + *process_noise
}

} // verus!
