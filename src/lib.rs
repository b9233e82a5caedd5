//! Image pipeline for astronomical sensor frames: ingestion of raw samples,
//! quarter-resolution demosaic, area-average downsampling, per-channel
//! statistics and packaging for transport.
use vstd::prelude::*;

pub mod debayer;
pub mod downsample;
pub mod error;
pub mod frame;
pub mod grid;
mod parallel;
pub mod pattern;
pub mod stats;

pub use debayer::debayer_image;
pub use downsample::{downsample, downsample_rgb, target_size};
pub use error::ImageError;
pub use frame::{ImageProgress, RawImage, RawRGBImage, render_camera_frame};
pub use grid::{Grid2, Grid3};
pub use pattern::BayerPattern;
pub use stats::{Stat, calc_channel_stats, median};

verus! {

} // verus!
