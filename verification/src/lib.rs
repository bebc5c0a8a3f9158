/// Numbers the library computes with.
pub mod scalar;
/// Fixed-size vectors and matrices.
pub mod matrix;
/// Arithmetic operators on vectors and matrices.
pub mod operators;
/// Matrix inversion.
pub mod inverse;
/// PID, PI and PD controllers.
pub mod control;
/// Kalman filters.
pub mod kalman;
/// Two- and three-dimensional vectors.
pub mod geometry;
/// Angle differences of integer headings.
pub mod ext;
/// The onboard sensor message.
pub mod robot_sensor_wire;
/// Robots, teams, selectors and identifiers.
pub mod ai_types;
/// Symmetry of the Kalman covariance.
pub mod symmetry;
/// Inversion with unit pivots.
pub mod unit_inverse;
