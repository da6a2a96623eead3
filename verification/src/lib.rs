//! A small Monte-Carlo path tracer whose geometry and colour arithmetic is
//! carried out in exact fixed-point arithmetic and verified with Verus.
//!
//! Scalars are `i64` values scaled by `fixed::SCALE`; every geometric
//! operation either returns a value that provably equals its mathematical
//! model, or reports a miss when an intermediate value would leave the
//! representable range.

pub mod camera;
pub mod command_line_options;
pub mod colour;
pub mod fixed;
pub mod hit;
pub mod intersectable;
pub mod material;
pub mod ppm_image;
pub mod ray;
pub mod renderer;
pub mod scene;
pub mod sphere;
pub mod vector;
pub mod viewport;
