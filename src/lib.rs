//! Adaptive binarization of grayscale document images.
//!
//! A grayscale image is enhanced, summarised by global statistics that pick the
//! blur radius and the sensitivity weight, and every pixel is then compared to
//! its value in a blurred copy of the enhanced image, which the caller supplies:
//! it becomes white (255) when it is at least that local baseline scaled by
//! `1 - weight`, and black (0) otherwise.
pub mod enhance;
pub mod gray;
pub mod params;
pub mod threshold;

pub use enhance::{enhance, enhance_and_derive};
pub use gray::GrayImage;
pub use params::{derive_params, image_stats, ImageStats, Params};
pub use threshold::{adaptive_threshold, threshold_pixel};
