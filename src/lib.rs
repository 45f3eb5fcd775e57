//! Conway's Game of Life on a toroidal grid, with a rasterizer that paints
//! each cell as a solid square block of pixels.

pub mod cell;
pub mod raster;
pub mod seed;
pub mod universe;
