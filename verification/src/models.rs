//! The optional arguments that each transcoding style accepts.

use vstd::prelude::*;

verus! {

/// How many blocks to use along the longer side of a block mosaic.
#[derive(Clone, Copy, Debug)]
pub struct SizeOption {
    /// The largest number of blocks on a side.
    pub size: Option<u8>,
}

/// The arguments of the braille rendering.
#[derive(Clone, Copy, Debug)]
pub struct BrailleOption {
    /// Luminance below which a dot is raised.
    pub threshold: Option<u8>,
    /// Whether to raise the dots of light positions instead of dark ones.
    pub invert: Option<bool>,
    /// The largest length of a side of the sampled image.
    pub size: Option<u16>,
}

/// The arguments of the character-ramp rendering.
#[derive(Clone, Copy, Debug)]
pub struct AsciiOption {
    /// Whether to invert the pixel values first.
    pub invert: Option<bool>,
    /// The number of glyph columns.
    pub size: Option<u16>,
}

/// The arguments of the glyph-rain rendering.
#[derive(Clone, Copy, Debug)]
pub struct MatrixOption {
    /// The largest number of glyphs on a side.
    pub size: Option<u8>,
    /// Whether to draw digits only.
    pub num_only: Option<bool>,
}

/// The arguments of the stipple renderings.
#[derive(Clone, Copy, Debug)]
pub struct ShapesOption {
    /// The half-size of each primitive.
    pub block: Option<u8>,
    /// The number of primitives per frame.
    pub density: Option<u32>,
    /// Whether to render an animated sequence instead of a single frame.
    pub gif: Option<bool>,
}

/// The arguments of the two-tone rendering.
#[derive(Clone, Copy, Debug)]
pub struct SmoothOption {
    /// Whether to enlarge with interpolation instead of hard pixel edges.
    pub smooth: Option<bool>,
}

/// The arguments of a style that accepts none.
#[derive(Clone, Copy, Debug)]
pub struct NoArgs {}

} // verus!
