//! A CPU-only software rasterizer core.
//!
//! Geometry is carried in fixed-point arithmetic: a coordinate is an `i64`
//! holding the real value scaled by `fixed::FX_ONE` (65536), so `FX_ONE`
//! stands for 1.0. Every stage of the pipeline — vector and matrix algebra,
//! the world/view/projection transforms, backface culling, flat shading,
//! the painter's-algorithm depth sort, and the Bresenham/scanline
//! rasterizer — is specified exactly over that representation and verified.

pub mod errors;
pub mod fixed;
pub mod laws;
pub mod linear_transforms;
pub mod magnitude;
pub mod matrices;
pub mod vectors;
pub mod pipeline;
pub mod polygons;
pub mod raster;
