//! Integer core of a ray-tracing renderer: pixel clamping, the supersampling
//! grid, the row partition that hands disjoint tiles to workers, assembly of
//! the final frame from per-worker tiles, and nearest-hit selection.
//!
//! The floating-point geometry (ray/primitive intersection and shading) lives
//! in the surrounding application; this crate holds everything the renderer
//! decides over plain integers, each function with a proved contract.

pub mod colour;
pub mod frame;
pub mod sampling;
pub mod tiling;
pub mod trace;
