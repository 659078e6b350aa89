//! Verified core of a small ray-casting renderer: the raster that receives the
//! pixels, and the traversal that fills it.
//!
//! A render walks every pixel of the viewport once, asks a caller-supplied
//! resolver for the 8-bit colour of that pixel, and stores it in an RGB raster
//! whose first row is the top of the picture. Viewport rows count upwards, so
//! the traversal mirrors them on the way into the raster.

pub mod frame;
pub mod render;
