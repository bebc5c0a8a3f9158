use robokit::ext::NumberExt;

#[test]
fn angle_diff_unsigned() {
    assert_eq!(10u16.angle_diff(350), 20);
    assert_eq!(350u32.angle_diff(10), 20);
    assert_eq!(370u64.angle_diff(0), 10);
    assert_eq!(0u128.angle_diff(180), 180);
    assert_eq!(0usize.angle_diff(181), 179);
    assert_eq!(u16::MAX.angle_diff(0), 15);
}

#[test]
fn angle_diff_signed() {
    assert_eq!((-90i16).angle_diff(90), 180);
    assert_eq!((-10i32).angle_diff(10), 20);
    assert_eq!((-170i64).angle_diff(170), 20);
    assert_eq!(720isize.angle_diff(-720), 0);
    assert_eq!(i16::MIN.angle_diff(i16::MAX), 15);
    assert_eq!(i64::MIN.angle_diff(i64::MAX), 15);
}

#[test]
fn angle_diff_i128_extremes() {
    // |MAX - MIN| = 2^128 - 1, which is 255 modulo 360.
    assert_eq!(i128::MIN.angle_diff(i128::MAX), 105);
    assert_eq!(i128::MAX.angle_diff(i128::MIN), 105);
    assert_eq!((-5i128).angle_diff(5), 10);
}

#[test]
fn angle_diff_symmetric_and_zero() {
    for (a, b) in [(3i32, 300), (-400, 25), (0, 0), (1000, -1000)] {
        assert_eq!(a.angle_diff(b), b.angle_diff(a));
        assert!(a.angle_diff(b) <= 180 && a.angle_diff(b) >= 0);
        assert_eq!(a.angle_diff(a), 0);
    }
}
