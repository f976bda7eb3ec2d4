//! A canvas-backed image manager: an ordered stack of named colour filters
//! over a base image, with incremental recomputation on removal and a
//! separate downsized preview cache for cheap interactive browsing.
//!
//! The pixel transforms themselves (colour mixes, resampling kernels) come
//! from the `photon_rs` crate; this library verifies the orchestration:
//! which image each committed layer holds, what the canvas shows after each
//! operation, and when cached previews are served or invalidated.

pub mod effects;
pub mod filter;
pub mod image;
pub mod laws;
pub mod manager;
pub mod preview;
pub mod stack;

pub use filter::FilterType;
pub use filter::get_filter_name;
pub use image::Image;
pub use manager::ImageManager;
