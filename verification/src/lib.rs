//! Pixel-to-symbol transcoding: aspect-preserving resizing, nearest-palette
//! mosaics, braille and character-ramp text art, and stipple rendering.

pub mod braille;
pub mod effects;
pub mod image;
pub mod matrix;
pub mod models;
pub mod mosaic;
pub mod palette;
pub mod ramp;
pub mod resize;
pub mod stipple;
pub mod text;
