//! Turns a normalized vector document into an RGBA raster: path commands are
//! resolved against a cursor into absolute drawing operations, and the
//! coverage that a rasterizer computes for them is composited source-over.
pub mod paint;
pub mod path;
pub mod path_laws;
pub mod raster;
pub mod render;
