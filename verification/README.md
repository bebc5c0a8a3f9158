# robokit

Control and estimation building blocks for a team of soccer robots, written
in Verus and verified.

- `scalar`: the `Scalar` trait that every numeric routine is generic over.
  Each operation has a spec function, so contracts state the exact sequence
  of operations a routine performs. `i64` (wrapping arithmetic, truncating
  division) implements it in the library.
- `matrix`, `operators`, `inverse`: fixed-size `Vector` and `Matrix` with
  transpose, identity, sums, products and Gauss-Jordan inversion with partial
  pivoting, all specified over sequence models.
- `control`: PID, PI and PD controllers.
- `kalman`: linear and extended Kalman filters; `symmetry` proves that the
  measurement update keeps an `i64` covariance symmetric.
- `geometry`: `Vec2`, `Vec3`, `Rect`, `Axis`.
- `ext`: angle differences of integer headings.
- `ai_types`: robots, teams, robot selectors, identifiers.
- `robot_sensor_wire`: the onboard sensor message and its fixed 1813-byte
  little-endian layout (`encode`, and `decode`, which rejects a zero robot identifier).

`app/` holds what stays outside the verifier: the postcard encoding of the
sensor message, `Real<F>` (floating-point numbers as a `Scalar`, through
`num_traits::Float`), the floating-point world and command types, float
angle differences, and the process-wide identifier counter.
