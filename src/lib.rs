//! A small ray tracer over fixed-point coordinates.
//!
//! Every real quantity is an integer count of `1 / SCALE` steps, so the whole
//! geometric pipeline (vector algebra, rays, sphere hits, shading and the
//! plain-text pixel map) is exact integer arithmetic with stated rounding.
use vstd::prelude::*;

pub mod arith;
pub mod vec3;
pub mod ray;
pub mod color;
pub mod sphere;
pub mod shade;
pub mod render;
pub mod ppm;
pub mod laws;
pub mod text;

verus! {

} // verus!
