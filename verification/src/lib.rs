//! A small Monte Carlo path tracer over 16.16 fixed-point arithmetic.
//!
//! Every real quantity (coordinates, colors, ray parameters) is an `i64`
//! holding the value scaled by 2^16. The scalar operations truncate toward
//! zero and saturate at the `i64` range, so they are total; their exact
//! behaviour is stated in the contracts and every algorithm of the tracer
//! is verified against them.

pub mod camera;
pub mod fixed;
pub mod hit;
pub mod material;
pub mod ray;
pub mod render;
pub mod sphere;
pub mod rng;
pub mod vec3;
