use robokit::geometry::{Axis, Rect, Vec2, Vec3};

#[test]
fn vec2_constructors() {
    assert_eq!(Vec2::new(1i64, 2), Vec2 { x: 1, y: 2 });
    assert_eq!(Vec2::<i64>::zero(), Vec2 { x: 0, y: 0 });
    assert_eq!(Vec2::<f32>::default(), Vec2 { x: 0.0, y: 0.0 });
}

#[test]
fn vec2_arithmetic() {
    let a = Vec2::new(6i64, 8);
    let b = Vec2::new(2i64, 4);
    assert_eq!(a + b, Vec2::new(8, 12));
    assert_eq!(a - b, Vec2::new(4, 4));
    assert_eq!(a * b, Vec2::new(12, 32));
    assert_eq!(a * 3, Vec2::new(18, 24));
    assert_eq!(a / b, Vec2::new(3, 2));
    assert_eq!(a / 2, Vec2::new(3, 4));
}

#[test]
fn vec3_constructors() {
    assert_eq!(Vec3::new(1i64, 2, 3), Vec3 { x: 1, y: 2, z: 3 });
    assert_eq!(Vec3::<i64>::zero(), Vec3 { x: 0, y: 0, z: 0 });
    assert_eq!(Vec3::<u8>::default(), Vec3 { x: 0, y: 0, z: 0 });
    assert_eq!(Vec3::new(1i64, 2, 3).xy(), Vec2::new(1, 2));
}

#[test]
fn vec3_arithmetic() {
    let a = Vec3::new(6i64, 8, 10);
    let b = Vec3::new(2i64, 4, 5);
    assert_eq!(a + b, Vec3::new(8, 12, 15));
    assert_eq!(a - b, Vec3::new(4, 4, 5));
    assert_eq!(a * b, Vec3::new(12, 32, 50));
    assert_eq!(a * 2, Vec3::new(12, 16, 20));
    assert_eq!(a / 2, Vec3::new(3, 4, 5));
}

#[test]
fn rect_and_axis() {
    let r = Rect { min: Vec2::new(0i64, 0), max: Vec2::new(3, 4) };
    assert_eq!(r.max.x - r.min.x, 3);
    assert_ne!(Axis::X, Axis::Y);
}

#[test]
fn millimeter_alias() {
    let distance: robokit::geometry::Mm = 32767;
    assert_eq!(distance, i16::MAX);
}
