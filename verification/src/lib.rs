//! A small stochastic path tracer over saturating fixed-point arithmetic.
//!
//! Scalars are stored as `i64` values counting multiples of 2^-16, clipped to
//! a symmetric range so that every arithmetic operation is total. The library
//! covers camera ray generation, ray-sphere intersection, nearest-hit scene
//! queries, the diffuse/metal/dielectric scattering model, the depth-bounded
//! recursive color integrator, and the per-pixel sampling driver.

pub mod fixed;
pub mod rng;
pub mod materials;
pub mod objects;
pub mod ray;
pub mod render;
pub mod vec3;
