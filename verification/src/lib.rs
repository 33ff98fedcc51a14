//! A verified free-fly camera for an interactive 3D renderer.
//!
//! The camera model (position, orientation, projection parameters) and the
//! input controller (key flags, mouse accumulators, per-frame integration)
//! work over a Q31.32 fixed-point scalar type, so that every step of the
//! per-frame update is stated and proved exactly over the integers; only
//! the trigonometric routines are delegated to an outside fixed-point
//! library behind named, trusted contracts.

pub mod fx;
pub mod camera;
pub mod mat4;
pub mod trig;
pub mod vec3;
