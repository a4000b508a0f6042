//! A Monte Carlo path tracer whose rendering core is verified: the spatial
//! index over the scene geometry, the ray/surface intersection protocol, the
//! material and scattering model, and the integrator that combines them into
//! per-pixel radiance estimates. All geometry lives on a fixed-point grid of
//! 1/65536 units, so every contract is exact integer arithmetic.

pub mod num;
pub mod vec3;
pub mod ray;
pub mod aabb;
pub mod texture;
pub mod onb;
pub mod sampler;
pub mod hit;
pub mod material;
pub mod primitives;
pub mod bvh;
pub mod mesh;
pub mod surface;
pub mod camera;
pub mod pathtracer;
pub mod cli;
pub mod volume;
pub mod pdf;
pub mod quat;
pub mod transform;
