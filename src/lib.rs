//! Serving raster images with on-the-fly resizing and re-encoding, and a
//! cache of each transformation keyed by its parameters.

pub mod error;
pub mod float;
pub mod params;
pub mod path;
pub mod raster;
pub mod text;
pub mod handler;
