//! A small verified ray tracer for scenes of spheres under point lights.
//!
//! All geometry and shading is carried out in fixed-point arithmetic:
//! a real quantity is held as an `i64` count of 1/65536 steps, so every
//! operation is exact integer arithmetic with truncation stated in the
//! contracts.  The engine renders a framebuffer of colors and assembles
//! the bytes of a binary pixmap; writing those bytes to disk is left to
//! the caller.

pub mod fx;
pub mod ppm;
pub mod render;
pub mod scene;
pub mod shade;
pub mod vec3;
