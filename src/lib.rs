//! The integer and boolean logic of a Monte Carlo path tracer.

pub mod framebuffer;
pub mod hit;
pub mod path;
pub mod render;
pub mod scatter;
pub mod surface;
