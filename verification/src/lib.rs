//! The discrete rules of a small recursive ray tracer: which surface a ray
//! meets first, when a light is shadowed, how deep the recursion may go,
//! how the ground is tiled, and how the finished picture is framed as bytes.
//!
//! The arithmetic on coordinates and colours is done by the caller. What
//! reaches this crate are the outcomes it has to decide on: distances along a
//! ray, tile numbers, recursion depths and colour samples.

pub mod axis;
pub mod bounce;
pub mod distance;
pub mod ground;
pub mod picture;
pub mod scene;
