//! A small path tracer with a verified core.
//!
//! The renderer traces rays through a scene of spheres with diffuse,
//! metallic and refractive materials, estimates per-pixel radiance by
//! Monte-Carlo sampling, and quantizes the result to 8-bit channels.
//!
//! All geometry and color arithmetic is carried out in fixed-point:
//! a real quantity `q` is represented by the `i64` value `q * SCALE`
//! rounded toward zero, and every operation saturates at `FP_MAX`
//! instead of overflowing.  Contracts are stated over the exact
//! integer semantics of these operations, so the evaluator is verified
//! end to end: intersection, scattering, recursive radiance, sampling
//! and quantization.  Randomness is drawn from an explicit stream so
//! that concurrent pixel evaluations stay independent.

pub mod camera;
pub mod fixed;
pub mod hit;
pub mod material;
pub mod ray;
pub mod render;
pub mod rng;
pub mod size;
pub mod sphere;
pub mod vec;

pub use fixed::SCALE;
pub use fixed::FP_MAX;
