//! The integer core of a small ray tracer: texture addressing, closest-hit
//! selection, bounce control and the writing of rendered pixels.

pub mod color;
pub mod decoded;
pub mod hit;
pub mod pixels;
pub mod raytracer;
pub mod square;
pub mod texture;
