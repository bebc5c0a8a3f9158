use robokit::control::{PdConfig, PdController, PiConfig, PiController, PidConfig, PidController};

#[test]
fn pid_starts_empty() {
    let pid = PidController::new(2i64, 1, 3);
    assert_eq!(pid.integral(), 0);
    assert_eq!(pid.previous_error(), None);
    assert_eq!((pid.kp, pid.ki, pid.kd), (2, 1, 3));
}

#[test]
fn pid_first_update_has_no_derivative() {
    let mut pid = PidController::new(2i64, 1, 3);
    // integral 0 + 4 * 1 = 4; output 2 * 4 + 1 * 4 + 3 * 0.
    assert_eq!(pid.update(4, 1), 12);
    assert_eq!(pid.integral(), 4);
    assert_eq!(pid.previous_error(), Some(4));
}

#[test]
fn pid_sequence_of_updates() {
    let mut pid = PidController::new(2i64, 1, 3);
    assert_eq!(pid.update(4, 1), 12);
    // integral 4 + 6 * 2 = 16; derivative (6 - 4) / 2 = 1.
    assert_eq!(pid.update(6, 2), 2 * 6 + 16 + 3);
    assert_eq!(pid.integral(), 16);
    // dt = 0: no integration, no derivative.
    assert_eq!(pid.update(1, 0), 2 + 16);
    assert_eq!(pid.integral(), 16);
    assert_eq!(pid.previous_error(), Some(1));
    // dt < 0: the same.
    assert_eq!(pid.update(5, -1), 10 + 16);
    assert_eq!(pid.previous_error(), Some(5));
}

#[test]
fn pid_derivative_truncates_toward_zero() {
    let mut pid = PidController::new(0i64, 0, 1);
    pid.update(0, 1);
    assert_eq!(pid.update(5, 2), 2);
    assert_eq!(pid.update(0, 2), -2);
}

#[test]
fn pid_reset_matches_new() {
    let mut pid = PidController::new(2i64, 1, 3);
    pid.update(4, 1);
    pid.update(6, 2);
    pid.reset();
    assert_eq!(pid, PidController::new(2, 1, 3));
    assert_eq!(pid.integral(), 0);
    assert_eq!(pid.previous_error(), None);
    assert_eq!(pid.update(4, 1), 12);
}

#[test]
fn pid_from_config_matches_new() {
    let config = PidConfig { kp: 7i64, ki: -2, kd: 5 };
    assert_eq!(PidController::from_config(config), PidController::new(7, -2, 5));
}

#[test]
fn pid_arithmetic_wraps() {
    let mut pid = PidController::new(2i64, 0, 0);
    assert_eq!(pid.update(i64::MAX, 0), -2);
}

#[test]
fn pi_updates() {
    let mut pi = PiController::new(3i64, 2);
    assert_eq!(pi.integral(), 0);
    // integral 5 * 2 = 10; output 3 * 5 + 2 * 10.
    assert_eq!(pi.update(5, 2), 35);
    assert_eq!(pi.integral(), 10);
    // dt = 0 skips integration.
    assert_eq!(pi.update(1, 0), 3 + 20);
    assert_eq!(pi.integral(), 10);
    pi.reset();
    assert_eq!(pi.integral(), 0);
    assert_eq!(pi, PiController::new(3, 2));
}

#[test]
fn pi_from_config_matches_new() {
    let config = PiConfig { kp: 1i64, ki: 4 };
    assert_eq!(PiController::from_config(config), PiController::new(1, 4));
}

#[test]
fn pd_updates() {
    let mut pd = PdController::new(2i64, 5);
    assert_eq!(pd.previous_error(), None);
    assert_eq!(pd.update(4, 1), 8);
    // derivative (10 - 4) / 2 = 3.
    assert_eq!(pd.update(10, 2), 20 + 15);
    // dt = 0: derivative zero.
    assert_eq!(pd.update(7, 0), 14);
    assert_eq!(pd.previous_error(), Some(7));
    pd.reset();
    assert_eq!(pd.previous_error(), None);
    assert_eq!(pd.update(3, 1), 6);
}

#[test]
fn pd_from_config_matches_new() {
    let config = PdConfig { kp: 9i64, kd: 8 };
    assert_eq!(PdController::from_config(config), PdController::new(9, 8));
}

#[test]
fn gain_accessors() {
    let mut pid = PidController::new(2i64, 1, 3);
    assert_eq!((pid.kp(), pid.ki(), pid.kd()), (2, 1, 3));
    pid.update(4, 1);
    pid.set_kp(5);
    pid.set_ki(6);
    pid.set_kd(7);
    assert_eq!((pid.kp(), pid.ki(), pid.kd()), (5, 6, 7));
    assert_eq!(pid.integral(), 4);
    assert_eq!(pid.previous_error(), Some(4));
    let mut pi = PiController::new(1i64, 2);
    pi.set_kp(8);
    pi.set_ki(9);
    assert_eq!((pi.kp(), pi.ki()), (8, 9));
    let mut pd = PdController::new(1i64, 2);
    pd.set_kp(3);
    pd.set_kd(4);
    assert_eq!((pd.kp(), pd.kd()), (3, 4));
}

#[test]
fn pid_integral_folds_over_updates() {
    let steps = [(3i64, 2i64), (5, 0), (-1, 4), (7, -3), (2, 1)];
    let mut pid = PidController::new(1i64, 1, 1);
    let mut expected = 0i64;
    for (error, dt) in steps {
        pid.update(error, dt);
        if dt > 0 {
            expected += error * dt;
        }
    }
    assert_eq!(pid.integral(), expected);
    assert_eq!(expected, 6 - 4 + 2);
    assert_eq!(pid.previous_error(), Some(2));
    assert_eq!(PidController::new(1i64, 1, 1).previous_error(), None);
}
