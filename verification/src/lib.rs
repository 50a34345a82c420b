//! Conversion of full-colour rasters into indexed bitmaps for six-pigment
//! e-paper panels: palette and colour science, quantisation, dithering,
//! the EPBM wire format and a debug view of the result.
//!
//! All colour arithmetic is integer fixed point, so every result is exact
//! and reproducible on every machine.

pub mod palette;
pub mod error;
pub mod bitmap;
pub mod fixed;
pub mod gamma;
pub mod color;
pub mod quantize;
pub mod dither;
pub mod diffusion;
pub mod convert;
pub mod pattern;
pub mod visualize;
pub mod snap;
pub mod grey;
