use crate::scalar::Scalar;
use vstd::prelude::*;

verus! {

/// The integral after one step: `integral + error * dt` when `dt > 0`,
/// else `integral` unchanged.
pub open spec fn integrated<T: Scalar>(integral: T, error: T, dt: T) -> T {
    if T::greater_spec(dt, T::zero_spec()) {
        T::plus_spec(integral, T::times_spec(error, dt))
    } else {
        integral
    }
}

/// The derivative term of one step: `(error - previous) / dt` when `dt > 0`
/// and a previous error is known, else zero.
pub open spec fn derivative<T: Scalar>(previous: Option<T>, error: T, dt: T) -> T {
    if T::greater_spec(dt, T::zero_spec()) {
        match previous {
            Some(p) => T::divide_spec(T::minus_spec(error, p), dt),
            None => T::zero_spec(),
        }
    } else {
        T::zero_spec()
    }
}

/// `kp * error + ki * integral + kd * derivative`, summed from the left.
pub open spec fn pid_output<T: Scalar>(kp: T, ki: T, kd: T, error: T, integral: T, derivative: T) -> T {
    T::plus_spec(
        T::plus_spec(T::times_spec(kp, error), T::times_spec(ki, integral)),
        T::times_spec(kd, derivative),
    )
}

/// `kp * error + ki * integral`.
pub open spec fn pi_output<T: Scalar>(kp: T, ki: T, error: T, integral: T) -> T {
    T::plus_spec(T::times_spec(kp, error), T::times_spec(ki, integral))
}

/// `kp * error + kd * derivative`.
pub open spec fn pd_output<T: Scalar>(kp: T, kd: T, error: T, derivative: T) -> T {
    T::plus_spec(T::times_spec(kp, error), T::times_spec(kd, derivative))
}

/// What a PID controller holds: its gains, the accumulated integral of the
/// error, and the error of the last update since the last reset.
pub struct PidState<T> {
    pub kp: T,
    pub ki: T,
    pub kd: T,
    pub integral: T,
    pub previous_error: Option<T>,
}

/// A fresh PID controller with the given gains.
pub open spec fn pid_initial<T: Scalar>(kp: T, ki: T, kd: T) -> PidState<T> {
    PidState { kp, ki, kd, integral: T::zero_spec(), previous_error: None }
}

/// One PID update: the state afterwards and the output.
pub open spec fn pid_step<T: Scalar>(s: PidState<T>, error: T, dt: T) -> (PidState<T>, T) {
    let integral = integrated(s.integral, error, dt);
    let d = derivative(s.previous_error, error, dt);
    (
        PidState { kp: s.kp, ki: s.ki, kd: s.kd, integral, previous_error: Some(error) },
        pid_output(s.kp, s.ki, s.kd, error, integral, d),
    )
}

/// A proportional-integral-derivative controller.
#[derive(Debug, Clone, Copy, PartialEq)]
pub struct PidController<T> {
    pub kp: T,
    pub ki: T,
    pub kd: T,
    integral: T,
    previous_error: Option<T>,
}

#[derive(Debug, Clone, Copy, PartialEq)]
pub struct PidConfig<T> {
    pub kp: T,
    pub ki: T,
    pub kd: T,
}

impl<T> View for PidController<T> {
    type V = PidState<T>;

    closed spec fn view(&self) -> PidState<T> {
        PidState {
            kp: self.kp,
            ki: self.ki,
            kd: self.kd,
            integral: self.integral,
            previous_error: self.previous_error,
        }
    }
}

impl<T: Scalar> PidController<T> {
    pub fn new(kp: T, ki: T, kd: T) -> (r: Self)
        ensures
            r@ == pid_initial(kp, ki, kd),
    {
        Self { kp, ki, kd, integral: T::zero(), previous_error: None }
    }

    pub fn from_config(config: PidConfig<T>) -> (r: Self)
        ensures
            r@ == pid_initial(config.kp, config.ki, config.kd),
    {
        Self::new(config.kp, config.ki, config.kd)
    }

    /// Updates the controller from the current error and elapsed time.
    ///
    /// The derivative term is zero on the first update. A non-positive `dt`
    /// skips the integral and derivative terms.
    pub fn update(&mut self, error: T, dt: T) -> (r: T)
        ensures
            (final(self)@, r) == pid_step(old(self)@, error, dt),
    {
        integrate(&mut self.integral, error, dt);
        let derivative = differentiate(&mut self.previous_error, error, dt);
        self.kp.times(error).plus(self.ki.times(self.integral)).plus(self.kd.times(derivative))
    }

    /// The gain `kp`.
    pub fn kp(&self) -> (r: T)
        ensures
            r == self@.kp,
    {
        self.kp
    }

    /// Replaces the gain `kp`, keeping everything else.
    pub fn set_kp(&mut self, value: T)
        ensures
            final(self)@ == (PidState { kp: value, ki: old(self)@.ki, kd: old(self)@.kd, integral: old(self)@.integral, previous_error: old(self)@.previous_error }),
    {
        self.kp = value;
    }

    /// The gain `ki`.
    pub fn ki(&self) -> (r: T)
        ensures
            r == self@.ki,
    {
        self.ki
    }

    /// Replaces the gain `ki`, keeping everything else.
    pub fn set_ki(&mut self, value: T)
        ensures
            final(self)@ == (PidState { kp: old(self)@.kp, ki: value, kd: old(self)@.kd, integral: old(self)@.integral, previous_error: old(self)@.previous_error }),
    {
        self.ki = value;
    }

    /// The gain `kd`.
    pub fn kd(&self) -> (r: T)
        ensures
            r == self@.kd,
    {
        self.kd
    }

    /// Replaces the gain `kd`, keeping everything else.
    pub fn set_kd(&mut self, value: T)
        ensures
            final(self)@ == (PidState { kp: old(self)@.kp, ki: old(self)@.ki, kd: value, integral: old(self)@.integral, previous_error: old(self)@.previous_error }),
    {
        self.kd = value;
    }

    pub fn integral(&self) -> (r: T)
        ensures
            r == self@.integral,
    {
        self.integral
    }

    pub fn previous_error(&self) -> (r: Option<T>)
        ensures
            r == self@.previous_error,
    {
        self.previous_error
    }

    pub fn reset(&mut self)
        ensures
            final(self)@ == pid_initial(old(self)@.kp, old(self)@.ki, old(self)@.kd),
    {
        self.integral = T::zero();
        self.previous_error = None;
    }
}

/// What a PI controller holds: its gains and the accumulated integral.
pub struct PiState<T> {
    pub kp: T,
    pub ki: T,
    pub integral: T,
}

/// A fresh PI controller with the given gains.
pub open spec fn pi_initial<T: Scalar>(kp: T, ki: T) -> PiState<T> {
    PiState { kp, ki, integral: T::zero_spec() }
}

/// One PI update: the state afterwards and the output.
pub open spec fn pi_step<T: Scalar>(s: PiState<T>, error: T, dt: T) -> (PiState<T>, T) {
    let integral = integrated(s.integral, error, dt);
    (PiState { kp: s.kp, ki: s.ki, integral }, pi_output(s.kp, s.ki, error, integral))
}

/// A proportional-integral controller.
#[derive(Debug, Clone, Copy, PartialEq)]
pub struct PiController<T> {
    pub kp: T,
    pub ki: T,
    integral: T,
}

#[derive(Debug, Clone, Copy, PartialEq)]
pub struct PiConfig<T> {
    pub kp: T,
    pub ki: T,
}

impl<T> View for PiController<T> {
    type V = PiState<T>;

    closed spec fn view(&self) -> PiState<T> {
        PiState { kp: self.kp, ki: self.ki, integral: self.integral }
    }
}

impl<T: Scalar> PiController<T> {
    pub fn new(kp: T, ki: T) -> (r: Self)
        ensures
            r@ == pi_initial(kp, ki),
    {
        Self { kp, ki, integral: T::zero() }
    }

    pub fn from_config(config: PiConfig<T>) -> (r: Self)
        ensures
            r@ == pi_initial(config.kp, config.ki),
    {
        Self::new(config.kp, config.ki)
    }

    /// Updates the controller from the current error and elapsed time.
    ///
    /// A non-positive `dt` skips integration.
    pub fn update(&mut self, error: T, dt: T) -> (r: T)
        ensures
            (final(self)@, r) == pi_step(old(self)@, error, dt),
    {
        integrate(&mut self.integral, error, dt);
        self.kp.times(error).plus(self.ki.times(self.integral))
    }

    /// The gain `kp`.
    pub fn kp(&self) -> (r: T)
        ensures
            r == self@.kp,
    {
        self.kp
    }

    /// Replaces the gain `kp`, keeping everything else.
    pub fn set_kp(&mut self, value: T)
        ensures
            final(self)@ == (PiState { kp: value, ki: old(self)@.ki, integral: old(self)@.integral }),
    {
        self.kp = value;
    }

    /// The gain `ki`.
    pub fn ki(&self) -> (r: T)
        ensures
            r == self@.ki,
    {
        self.ki
    }

    /// Replaces the gain `ki`, keeping everything else.
    pub fn set_ki(&mut self, value: T)
        ensures
            final(self)@ == (PiState { kp: old(self)@.kp, ki: value, integral: old(self)@.integral }),
    {
        self.ki = value;
    }

    pub fn integral(&self) -> (r: T)
        ensures
            r == self@.integral,
    {
        self.integral
    }

    pub fn reset(&mut self)
        ensures
            final(self)@ == pi_initial(old(self)@.kp, old(self)@.ki),
    {
        self.integral = T::zero();
    }
}

/// What a PD controller holds: its gains and the error of the last update
/// since the last reset.
pub struct PdState<T> {
    pub kp: T,
    pub kd: T,
    pub previous_error: Option<T>,
}

/// A fresh PD controller with the given gains.
pub open spec fn pd_initial<T>(kp: T, kd: T) -> PdState<T> {
    PdState { kp, kd, previous_error: None }
}

/// One PD update: the state afterwards and the output.
pub open spec fn pd_step<T: Scalar>(s: PdState<T>, error: T, dt: T) -> (PdState<T>, T) {
    let d = derivative(s.previous_error, error, dt);
    (PdState { kp: s.kp, kd: s.kd, previous_error: Some(error) }, pd_output(s.kp, s.kd, error, d))
}

/// A proportional-derivative controller.
#[derive(Debug, Clone, Copy, PartialEq)]
pub struct PdController<T> {
    pub kp: T,
    pub kd: T,
    previous_error: Option<T>,
}

#[derive(Debug, Clone, Copy, PartialEq)]
pub struct PdConfig<T> {
    pub kp: T,
    pub kd: T,
}

impl<T> View for PdController<T> {
    type V = PdState<T>;

    closed spec fn view(&self) -> PdState<T> {
        PdState { kp: self.kp, kd: self.kd, previous_error: self.previous_error }
    }
}

impl<T: Scalar> PdController<T> {
    pub fn new(kp: T, kd: T) -> (r: Self)
        ensures
            r@ == pd_initial(kp, kd),
    {
        Self { kp, kd, previous_error: None }
    }

    pub fn from_config(config: PdConfig<T>) -> (r: Self)
        ensures
            r@ == pd_initial(config.kp, config.kd),
    {
        Self::new(config.kp, config.kd)
    }

    /// Updates the controller from the current error and elapsed time.
    ///
    /// The derivative term is zero on the first update and whenever `dt` is not
    /// positive.
    pub fn update(&mut self, error: T, dt: T) -> (r: T)
        ensures
            (final(self)@, r) == pd_step(old(self)@, error, dt),
    {
        let derivative = differentiate(&mut self.previous_error, error, dt);
        self.kp.times(error).plus(self.kd.times(derivative))
    }

    /// The gain `kp`.
    pub fn kp(&self) -> (r: T)
        ensures
            r == self@.kp,
    {
        self.kp
    }

    /// Replaces the gain `kp`, keeping everything else.
    pub fn set_kp(&mut self, value: T)
        ensures
            final(self)@ == (PdState { kp: value, kd: old(self)@.kd, previous_error: old(self)@.previous_error }),
    {
        self.kp = value;
    }

    /// The gain `kd`.
    pub fn kd(&self) -> (r: T)
        ensures
            r == self@.kd,
    {
        self.kd
    }

    /// Replaces the gain `kd`, keeping everything else.
    pub fn set_kd(&mut self, value: T)
        ensures
            final(self)@ == (PdState { kp: old(self)@.kp, kd: value, previous_error: old(self)@.previous_error }),
    {
        self.kd = value;
    }

    pub fn previous_error(&self) -> (r: Option<T>)
        ensures
            r == self@.previous_error,
    {
        self.previous_error
    }

    pub fn reset(&mut self)
        ensures
            final(self)@ == pd_initial(old(self)@.kp, old(self)@.kd),
    {
        self.previous_error = None;
    }
}

/// The first update of a fresh (or reset) PID controller has no derivative
/// term: its output is `kp * error + ki * integral + kd * 0`.
pub proof fn lemma_pid_first_update_has_no_derivative<T: Scalar>(kp: T, ki: T, kd: T, error: T, dt: T)
    ensures
        pid_step(pid_initial(kp, ki, kd), error, dt).1 == pid_output(
            kp,
            ki,
            kd,
            error,
            integrated(T::zero_spec(), error, dt),
            T::zero_spec(),
        ),
{
}

/// A PID update with a non-positive `dt` keeps the integral, has no
/// derivative term, and still records the error.
pub proof fn lemma_pid_nonpositive_dt_skips_integral_and_derivative<T: Scalar>(
    s: PidState<T>,
    error: T,
    dt: T,
)
    requires
        !T::greater_spec(dt, T::zero_spec()),
    ensures
        pid_step(s, error, dt).0.integral == s.integral,
        pid_step(s, error, dt).0.previous_error == Some(error),
        pid_step(s, error, dt).1 == pid_output(s.kp, s.ki, s.kd, error, s.integral, T::zero_spec()),
{
}

/// A PI update with a non-positive `dt` keeps the integral.
pub proof fn lemma_pi_nonpositive_dt_skips_integration<T: Scalar>(s: PiState<T>, error: T, dt: T)
    requires
        !T::greater_spec(dt, T::zero_spec()),
    ensures
        pi_step(s, error, dt).0 == s,
        pi_step(s, error, dt).1 == pi_output(s.kp, s.ki, error, s.integral),
{
}

/// The derivative term of a PD controller is zero on its first update and
/// whenever `dt` is not positive.
pub proof fn lemma_pd_derivative_vanishes<T: Scalar>(s: PdState<T>, error: T, dt: T)
    requires
        s.previous_error is None || !T::greater_spec(dt, T::zero_spec()),
    ensures
        pd_step(s, error, dt).1 == pd_output(s.kp, s.kd, error, T::zero_spec()),
{
}

/// Updating a PID controller and then resetting it leaves the controller
/// that `new` builds from the same gains.
pub proof fn lemma_pid_update_then_reset<T: Scalar>(s: PidState<T>, error: T, dt: T)
    ensures
        pid_initial(pid_step(s, error, dt).0.kp, pid_step(s, error, dt).0.ki, pid_step(s, error, dt).0.kd)
            == pid_initial(s.kp, s.ki, s.kd),
{
}

/// The integral after the updates `steps` (each an error and a `dt`), in
/// order, starting from `start`: `acc + error * dt` for each update with
/// `dt > 0`, summed from the left.
pub open spec fn accumulated<T: Scalar>(start: T, steps: Seq<(T, T)>) -> T
    decreases steps.len(),
{
    if steps.len() == 0 {
        start
    } else {
        let acc = accumulated(start, steps.drop_last());
        let (error, dt) = steps.last();
        if T::greater_spec(dt, T::zero_spec()) {
            T::plus_spec(acc, T::times_spec(error, dt))
        } else {
            acc
        }
    }
}

/// The PID state after the updates `steps` (each an error and a `dt`), in
/// order.
pub open spec fn pid_run<T: Scalar>(s: PidState<T>, steps: Seq<(T, T)>) -> PidState<T>
    decreases steps.len(),
{
    if steps.len() == 0 {
        s
    } else {
        pid_step(pid_run(s, steps.drop_last()), steps.last().0, steps.last().1).0
    }
}

/// The PI state after the updates `steps`, in order.
pub open spec fn pi_run<T: Scalar>(s: PiState<T>, steps: Seq<(T, T)>) -> PiState<T>
    decreases steps.len(),
{
    if steps.len() == 0 {
        s
    } else {
        pi_step(pi_run(s, steps.drop_last()), steps.last().0, steps.last().1).0
    }
}

/// The PD state after the updates `steps`, in order.
pub open spec fn pd_run<T: Scalar>(s: PdState<T>, steps: Seq<(T, T)>) -> PdState<T>
    decreases steps.len(),
{
    if steps.len() == 0 {
        s
    } else {
        pd_step(pd_run(s, steps.drop_last()), steps.last().0, steps.last().1).0
    }
}

/// After a sequence of updates of a PID controller with no reset between
/// them, the gains are unchanged, the integral is the left fold of
/// `acc + error * dt` over the updates with `dt > 0`, and the previous error
/// is that of the last update (or what it was, when there was none).
pub proof fn lemma_pid_updates<T: Scalar>(s: PidState<T>, steps: Seq<(T, T)>)
    ensures
        pid_run(s, steps).kp == s.kp,
        pid_run(s, steps).ki == s.ki,
        pid_run(s, steps).kd == s.kd,
        pid_run(s, steps).integral == accumulated(s.integral, steps),
        pid_run(s, steps).previous_error == (if steps.len() == 0 {
            s.previous_error
        } else {
            Some(steps.last().0)
        }),
    decreases steps.len(),
{
    if steps.len() > 0 {
        lemma_pid_updates(s, steps.drop_last());
    }
}

/// Starting from `new`: after updates `e_1, ..., e_n` the integral is the
/// fold of `acc + e_i * dt_i` over the updates with `dt_i > 0` starting at
/// zero, and the previous error is `None` for `n == 0`, else `Some(e_n)`.
pub proof fn lemma_pid_updates_from_new<T: Scalar>(kp: T, ki: T, kd: T, steps: Seq<(T, T)>)
    ensures
        pid_run(pid_initial(kp, ki, kd), steps).integral == accumulated(T::zero_spec(), steps),
        pid_run(pid_initial(kp, ki, kd), steps).previous_error == (if steps.len() == 0 {
            None
        } else {
            Some(steps.last().0)
        }),
{
    lemma_pid_updates(pid_initial(kp, ki, kd), steps);
}

/// After a sequence of updates of a PI controller with no reset between
/// them, the gains are unchanged and the integral is the left fold of
/// `acc + error * dt` over the updates with `dt > 0`.
pub proof fn lemma_pi_updates<T: Scalar>(s: PiState<T>, steps: Seq<(T, T)>)
    ensures
        pi_run(s, steps).kp == s.kp,
        pi_run(s, steps).ki == s.ki,
        pi_run(s, steps).integral == accumulated(s.integral, steps),
    decreases steps.len(),
{
    if steps.len() > 0 {
        lemma_pi_updates(s, steps.drop_last());
    }
}

/// After a sequence of updates of a PD controller with no reset between
/// them, the gains are unchanged and the previous error is that of the last
/// update (or what it was, when there was none).
pub proof fn lemma_pd_updates<T: Scalar>(s: PdState<T>, steps: Seq<(T, T)>)
    ensures
        pd_run(s, steps).kp == s.kp,
        pd_run(s, steps).kd == s.kd,
        pd_run(s, steps).previous_error == (if steps.len() == 0 {
            s.previous_error
        } else {
            Some(steps.last().0)
        }),
    decreases steps.len(),
{
    if steps.len() > 0 {
        lemma_pd_updates(s, steps.drop_last());
    }
}

fn integrate<T: Scalar>(integral: &mut T, error: T, dt: T)
    ensures
        *final(integral) == integrated(*old(integral), error, dt),
{
    if dt.greater(T::zero()) {
        *integral = integral.plus(error.times(dt));
    }
}

fn differentiate<T: Scalar>(previous_error: &mut Option<T>, error: T, dt: T) -> (r: T)
    ensures
        r == derivative(*old(previous_error), error, dt),
        *final(previous_error) == Some(error),
{
    let derivative = if dt.greater(T::zero()) {
        match *previous_error {
            Some(previous) => {
                let difference = error.minus(previous);
                proof {
                    T::lemma_positive_is_nonzero(dt);
                    T::lemma_nonzero_divides(difference, dt);
                }
                difference.divide(dt)
            },
            None => T::zero(),
        }
    } else {
        T::zero()
    };
    *previous_error = Some(error);
    derivative
}

} // verus!
