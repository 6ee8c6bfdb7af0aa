//! A verified core for an iterated-function-system (IFS) point-cloud
//! generator: weighted affine maps over the plane, a deterministic
//! pseudo-random selection rule, and the "chaos game" loop that fills a
//! caller-supplied buffer with colored points.
//!
//! All plane coordinates, coefficients and weights are fixed-point values
//! with [`fixed::SCALE`] raw units to one; hue is the same fixed-point
//! fraction in `[0, 1]`. Rendering, windowing and UI live outside this
//! crate and consume the produced buffer as plain data.

pub mod fixed;
pub mod ifs;
pub mod laws;
pub mod rng;
pub mod state;
pub mod vertex;
