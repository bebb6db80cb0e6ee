//! A stereoscopic path tracer over decimal fixed-point arithmetic.

pub mod bounds;
pub mod camera;
pub mod color;
pub mod hits;
pub mod material;
mod random;
pub mod ray;
pub mod render;
pub mod scalar;
pub mod sphere;
pub mod vec3;
