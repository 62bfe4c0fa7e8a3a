//! A decoder for PNG images: from the bytes of a file to a raster of 8-bit
//! RGBA pixels.

mod arith;
pub mod chunk_type;
pub mod color;
pub mod color_type;
pub mod decoders;
pub mod deflate;
pub mod error;
pub mod filters;
pub mod helpers;
pub mod ihdr;
pub mod png;
pub mod state;

pub use crate::png::PngFile;
