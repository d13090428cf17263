//! Overlap detection and composition of raster images: a windowed search for
//! the best-matching offset between two images, a compositor that fuses them
//! at that offset, and a planner that folds a whole set into one composite.

pub mod raster;
pub mod geometry;
pub mod edges;
pub mod error;
pub mod params;
pub mod padded_iter;
pub mod windows_iter;
pub mod scoring;
pub mod compose;
pub mod stitcher;
pub mod laws;
pub mod builder;
pub mod encode_format;
pub mod exports;
pub mod parsing;
pub mod overlap;
pub mod dhash;
