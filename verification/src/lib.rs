//! Converter from raster images to a fixed-palette tiled format for an
//! 8-bit-indexed-color calculator display.
//!
//! The pipeline pads a decoded image onto a black canvas whose sides are
//! multiples of the tile size, quantizes it to a 256-entry palette with
//! reserved black and white entries, and derives per-tile and palette
//! containers with exact binary layouts.

use vstd::prelude::*;

pub mod canvas;
pub mod color;
pub mod container;
pub mod name;
pub mod quantize;
pub mod tile;

pub use canvas::{div_ceil, Image};
pub use color::GRGB1555;
pub use name::var_prefix_str;
pub use quantize::QuantizedImage;

verus! {

/// Why a conversion was refused or aborted.
#[derive(Debug)]
pub enum ConvertError {
    /// The variable prefix is not exactly two ASCII alphabetic characters.
    BadVarPrefix,
    /// The image is empty or too large for three-digit tile coordinates.
    BadDimensions,
    /// The source bytes could not be decoded as an image.
    Decode(String),
    /// The quantization engine failed to produce a palette.
    Quantize(String),
    /// A container could not be assembled around a payload.
    Container(String),
}

} // verus!
