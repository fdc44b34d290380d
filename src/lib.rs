//! Approximates a target raster image by placing semi-transparent ellipses,
//! each chosen by random search and hill climbing to lower the squared pixel
//! distance between the canvas and the target.
pub mod color;
pub mod error;
pub mod metric;
pub mod model;
pub mod optimize;
pub mod paint;
pub mod random;
pub mod raster;
pub mod shape;
pub mod util;
