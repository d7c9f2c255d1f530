//! Quantization and encoding pipeline for palette-mapped images.
//!
//! A reference image is reduced to a small grid of representative colors
//! (the palette); a captured image is downsampled and every pixel is
//! re-expressed as the normalized UV coordinate of the palette cell whose
//! color is perceptually closest, serialized as comma-separated text.

pub mod content_hash;
pub mod encoder;
pub mod img;
pub mod laws;
pub mod perceptual;
pub mod sampler;

pub use content_hash::calculate_image_hash;
pub use encoder::{encode_pixels, encode_uv_csv, nearest_palette_index, EncodeError};
pub use img::{Image, ImageError};
pub use sampler::{average_patch, sample_palette};
