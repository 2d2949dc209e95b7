//! A small CPU triangle rasterizer: exact integer coverage and barycentric
//! weights, a depth-tested framebuffer, and the pixel-map encoding of a frame.

pub mod canvas;
pub mod mesh;
pub mod raster;
pub mod texture;
