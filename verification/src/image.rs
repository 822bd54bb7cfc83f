//! Pixels, row-major pixel grids and single-channel bands.

use vstd::prelude::*;
use vstd::string::*;

verus! {

/// The largest width or height an image may have.
pub const MAX_DIM: u32 = 65535;

/// What can go wrong while transcoding.
#[derive(Clone, Copy, Debug, PartialEq, Eq, Structural)]
pub enum TranscodeError {
    /// The source image or a requested size is degenerate.
    InvalidInput,
    /// The palette holds no entry.
    EmptyPalette,
    /// The rendering backend could not produce an image.
    RenderFailure,
}

impl TranscodeError {
    /// The message of an error, as its characters.
    pub open spec fn spec_message(self) -> Seq<char> {
        match self {
            TranscodeError::InvalidInput => "the source image or a requested size is degenerate"@,
            TranscodeError::EmptyPalette => "the palette holds no entry"@,
            TranscodeError::RenderFailure => "the rendering backend could not produce an image"@,
        }
    }

    /// A human-readable message for the error.
    pub fn message(&self) -> (text: String)
        ensures
            text@ == self.spec_message(),
    {
        match self {
            TranscodeError::InvalidInput => String::from_str(
                "the source image or a requested size is degenerate",
            ),
            TranscodeError::EmptyPalette => String::from_str("the palette holds no entry"),
            TranscodeError::RenderFailure => String::from_str(
                "the rendering backend could not produce an image",
            ),
        }
    }
}

/// One pixel: four independent 8-bit channels.
#[derive(Clone, Copy, Debug, PartialEq, Eq, Structural)]
pub struct Rgba {
    pub r: u8,
    pub g: u8,
    pub b: u8,
    pub a: u8,
}

impl Rgba {
    /// The fully transparent pixel.
    pub open spec fn spec_transparent() -> Rgba {
        Rgba { r: 0, g: 0, b: 0, a: 0 }
    }

    /// The fully transparent pixel.
    #[verifier::when_used_as_spec(spec_transparent)]
    pub fn transparent() -> (px: Rgba)
        ensures
            px == Self::spec_transparent(),
    {
        Rgba { r: 0, g: 0, b: 0, a: 0 }
    }

    /// Opaque black.
    pub open spec fn spec_black() -> Rgba {
        Rgba { r: 0, g: 0, b: 0, a: 255 }
    }

    /// Opaque black.
    #[verifier::when_used_as_spec(spec_black)]
    pub fn black() -> (px: Rgba)
        ensures
            px == Self::spec_black(),
    {
        Rgba { r: 0, g: 0, b: 0, a: 255 }
    }

    /// Opaque white.
    pub open spec fn spec_white() -> Rgba {
        Rgba { r: 255, g: 255, b: 255, a: 255 }
    }

    /// Opaque white.
    #[verifier::when_used_as_spec(spec_white)]
    pub fn white() -> (px: Rgba)
        ensures
            px == Self::spec_white(),
    {
        Rgba { r: 255, g: 255, b: 255, a: 255 }
    }
}

/// The mean of the three colour channels, alpha ignored.
pub open spec fn spec_grayscale(px: Rgba) -> nat {
    ((px.r as nat + px.g as nat + px.b as nat) / 3) as nat
}

/// Grayscales a pixel: the integer mean of red, green and blue.
pub fn grayscale(px: Rgba) -> (gray: u32)
    ensures
        gray == spec_grayscale(px),
        gray <= 255,
{
    (px.r as u32 + px.b as u32 + px.g as u32) / 3
}

/// The mathematical content of an image: its size and its pixels row by row.
#[verifier::ext_equal]
pub struct Raster {
    pub width: nat,
    pub height: nat,
    pub pixels: Seq<Rgba>,
}

impl Raster {
    /// The pixel count matches the dimensions, and both sides are within bounds.
    pub open spec fn wf(self) -> bool {
        &&& self.width <= MAX_DIM
        &&& self.height <= MAX_DIM
        &&& self.pixels.len() == self.width * self.height
    }

    /// Whether `(x, y)` lies inside the grid.
    pub open spec fn contains(self, x: int, y: int) -> bool {
        0 <= x < self.width && 0 <= y < self.height
    }

    /// The pixel at column `x` of row `y`.
    pub open spec fn at(self, x: int, y: int) -> Rgba {
        self.pixels[y * self.width + x]
    }

    /// A grid of one colour.
    pub open spec fn filled(width: nat, height: nat, fill: Rgba) -> Raster {
        Raster { width, height, pixels: Seq::new(width * height, |i: int| fill) }
    }

    /// One channel of every pixel: 0 is red, 1 green, 2 blue, anything else alpha.
    pub open spec fn band(self, channel: int) -> BandView {
        BandView {
            width: self.width,
            height: self.height,
            values: Seq::new(
                self.pixels.len(),
                |i: int|
                    if channel == 0 {
                        self.pixels[i].r
                    } else if channel == 1 {
                        self.pixels[i].g
                    } else if channel == 2 {
                        self.pixels[i].b
                    } else {
                        self.pixels[i].a
                    },
            ),
        }
    }

    /// The grid whose pixels take their channels from four bands of one size.
    pub open spec fn from_bands(r: BandView, g: BandView, b: BandView, a: BandView) -> Raster {
        Raster {
            width: r.width,
            height: r.height,
            pixels: Seq::new(
                r.values.len(),
                |i: int| Rgba { r: r.values[i], g: g.values[i], b: b.values[i], a: a.values[i] },
            ),
        }
    }
}

/// Four bands have the same width and the same height.
pub open spec fn same_size(r: BandView, g: BandView, b: BandView, a: BandView) -> bool {
    &&& g.width == r.width && b.width == r.width && a.width == r.width
    &&& g.height == r.height && b.height == r.height && a.height == r.height
}

/// The row-major position of `(x, y)` lies inside a `width` by `height` grid.
pub proof fn lemma_index_in_grid(x: int, y: int, width: int, height: int)
    requires
        0 <= x < width,
        0 <= y < height,
    ensures
        0 <= y * width + x < width * height,
        y * width + x <= (height - 1) * width + (width - 1),
{
    assert(y * width <= (height - 1) * width) by (nonlinear_arith)
        requires
            0 <= y <= height - 1,
            0 < width,
    ;
    assert(0 <= y * width) by (nonlinear_arith)
        requires
            0 <= y,
            0 < width,
    ;
    assert((height - 1) * width + width == width * height) by (nonlinear_arith);
}

/// A grid within the dimension bound has fewer than 2^32 positions.
pub proof fn lemma_area_bound(width: int, height: int)
    requires
        0 <= width <= MAX_DIM,
        0 <= height <= MAX_DIM,
    ensures
        0 <= width * height <= 65535 * 65535,
{
    assert(0 <= width * height <= 65535 * 65535) by (nonlinear_arith)
        requires
            0 <= width <= 65535,
            0 <= height <= 65535,
    ;
}

/// Splitting a row-major position back into its column and row.
pub proof fn lemma_index_split(i: int, width: int)
    requires
        0 <= i,
        0 < width,
    ensures
        i == (i / width) * width + i % width,
        0 <= i % width < width,
        0 <= i / width,
{
    assert(i == width * (i / width) + i % width && 0 <= i % width < width && 0 <= i / width)
        by (nonlinear_arith)
        requires
            0 <= i,
            0 < width,
    ;
    assert((i / width) * width == width * (i / width)) by (nonlinear_arith);
}

/// A two-dimensional grid of pixels, row-major, origin top-left.
#[derive(Clone, Debug)]
pub struct Image {
    pub width: u32,
    pub height: u32,
    pub pixels: Vec<Rgba>,
}

impl View for Image {
    type V = Raster;

    open spec fn view(&self) -> Raster {
        Raster { width: self.width as nat, height: self.height as nat, pixels: self.pixels@ }
    }
}

impl Image {
    /// The pixel count matches the dimensions, and both sides are within bounds.
    pub open spec fn wf(&self) -> bool {
        self@.wf()
    }

    /// An image of one colour.
    pub fn filled(width: u32, height: u32, fill: Rgba) -> (res: Result<Image, TranscodeError>)
        ensures
            res is Err <==> (width > MAX_DIM || height > MAX_DIM),
            res matches Err(e) ==> e == TranscodeError::InvalidInput,
            res matches Ok(img) ==> img.wf() && img@ == Raster::filled(
                width as nat,
                height as nat,
                fill,
            ),
    {
        if width > MAX_DIM || height > MAX_DIM {
            return Err(TranscodeError::InvalidInput);
        }
        Ok(Image::blank(width, height, fill))
    }

    /// An image of one colour, for dimensions known to be within bounds.
    pub fn blank(width: u32, height: u32, fill: Rgba) -> (img: Image)
        requires
            width <= MAX_DIM,
            height <= MAX_DIM,
        ensures
            img.wf(),
            img@ == Raster::filled(width as nat, height as nat, fill),
    {
        assert(width * height <= 65535 * 65535) by (nonlinear_arith)
            requires
                width <= 65535,
                height <= 65535,
        ;
        let total: u64 = (width as u64) * (height as u64);
        let mut pixels: Vec<Rgba> = Vec::new();
        let mut i: u64 = 0;
        while i < total
            invariant
                i <= total,
                pixels@.len() == i,
                forall|k: int| 0 <= k < i ==> pixels@[k] == fill,
            decreases total - i,
        {
            pixels.push(fill);
            i = i + 1;
        }
        let img = Image { width, height, pixels };
        assert(img@.pixels =~= Raster::filled(width as nat, height as nat, fill).pixels);
        img
    }

    /// Builds an image from its pixels, row by row.
    pub fn from_pixels(width: u32, height: u32, pixels: Vec<Rgba>) -> (res: Result<
        Image,
        TranscodeError,
    >)
        ensures
            res is Err <==> (width > MAX_DIM || height > MAX_DIM || pixels@.len() != width
                * height),
            res matches Err(e) ==> e == TranscodeError::InvalidInput,
            res matches Ok(img) ==> img.wf() && img.width == width && img.height == height
                && img.pixels@ == pixels@,
    {
        if width > MAX_DIM || height > MAX_DIM {
            return Err(TranscodeError::InvalidInput);
        }
        assert(width * height <= 65535 * 65535) by (nonlinear_arith)
            requires
                width <= 65535,
                height <= 65535,
        ;
        let total: u64 = (width as u64) * (height as u64);
        if pixels.len() as u64 != total {
            return Err(TranscodeError::InvalidInput);
        }
        Ok(Image { width, height, pixels })
    }

    /// The image's width in pixels.
    pub fn width(&self) -> (w: u32)
        ensures
            w == self.width,
    {
        self.width
    }

    /// The image's height in pixels.
    pub fn height(&self) -> (h: u32)
        ensures
            h == self.height,
    {
        self.height
    }

    /// Width and height together.
    pub fn dimensions(&self) -> (d: (u32, u32))
        ensures
            d == (self.width, self.height),
    {
        (self.width, self.height)
    }

    /// The pixel at `(x, y)`.
    pub fn pixel(&self, x: u32, y: u32) -> (px: Rgba)
        requires
            self.wf(),
            x < self.width,
            y < self.height,
        ensures
            px == self@.at(x as int, y as int),
    {
        proof {
            lemma_index_in_grid(x as int, y as int, self.width as int, self.height as int);
            lemma_area_bound(self.width as int, self.height as int);
        }
        let idx: u64 = (y as u64) * (self.width as u64) + (x as u64);
        self.pixels[idx as usize]
    }

    /// The pixel at `(x, y)`, if it lies inside the image.
    pub fn get_pixel(&self, x: u32, y: u32) -> (res: Option<Rgba>)
        requires
            self.wf(),
        ensures
            res == if self@.contains(x as int, y as int) {
                Some(self@.at(x as int, y as int))
            } else {
                None
            },
    {
        if x < self.width && y < self.height {
            Some(self.pixel(x, y))
        } else {
            None
        }
    }

    /// Splits the image into its red, green, blue and alpha bands.
    pub fn bands(&self) -> (bands: (Band, Band, Band, Band))
        ensures
            bands.0@ == self@.band(0),
            bands.1@ == self@.band(1),
            bands.2@ == self@.band(2),
            bands.3@ == self@.band(3),
    {
        let mut r: Vec<u8> = Vec::new();
        let mut g: Vec<u8> = Vec::new();
        let mut b: Vec<u8> = Vec::new();
        let mut a: Vec<u8> = Vec::new();
        let n = self.pixels.len();
        let mut i: usize = 0;
        while i < n
            invariant
                n == self.pixels@.len(),
                i <= n,
                r@.len() == i,
                g@.len() == i,
                b@.len() == i,
                a@.len() == i,
                forall|k: int| 0 <= k < i ==> r@[k] == self.pixels@[k].r,
                forall|k: int| 0 <= k < i ==> g@[k] == self.pixels@[k].g,
                forall|k: int| 0 <= k < i ==> b@[k] == self.pixels@[k].b,
                forall|k: int| 0 <= k < i ==> a@[k] == self.pixels@[k].a,
            decreases n - i,
        {
            let px = self.pixels[i];
            r.push(px.r);
            g.push(px.g);
            b.push(px.b);
            a.push(px.a);
            i = i + 1;
        }
        let bands = (
            Band { width: self.width, height: self.height, values: r },
            Band { width: self.width, height: self.height, values: g },
            Band { width: self.width, height: self.height, values: b },
            Band { width: self.width, height: self.height, values: a },
        );
        assert(bands.0@.values =~= self@.band(0).values);
        assert(bands.1@.values =~= self@.band(1).values);
        assert(bands.2@.values =~= self@.band(2).values);
        assert(bands.3@.values =~= self@.band(3).values);
        bands
    }

    /// Assembles an image from four bands of one size.
    ///
    /// Fails with `InvalidInput` exactly when the bands differ in size.
    pub fn from_bands(r: &Band, g: &Band, b: &Band, a: &Band) -> (res: Result<
        Image,
        TranscodeError,
    >)
        requires
            r.wf(),
            g.wf(),
            b.wf(),
            a.wf(),
        ensures
            res is Err <==> !same_size(r@, g@, b@, a@),
            res matches Err(e) ==> e == TranscodeError::InvalidInput,
            res matches Ok(img) ==> img.wf() && img@ == Raster::from_bands(r@, g@, b@, a@),
    {
        if g.width != r.width || b.width != r.width || a.width != r.width || g.height != r.height
            || b.height != r.height || a.height != r.height {
            return Err(TranscodeError::InvalidInput);
        }
        let mut pixels: Vec<Rgba> = Vec::new();
        let n = r.values.len();
        let mut i: usize = 0;
        while i < n
            invariant
                n == r.values@.len(),
                n == g.values@.len(),
                n == b.values@.len(),
                n == a.values@.len(),
                i <= n,
                pixels@.len() == i,
                forall|k: int|
                    0 <= k < i ==> pixels@[k] == (Rgba {
                        r: r.values@[k],
                        g: g.values@[k],
                        b: b.values@[k],
                        a: a.values@[k],
                    }),
            decreases n - i,
        {
            pixels.push(Rgba { r: r.values[i], g: g.values[i], b: b.values[i], a: a.values[i] });
            i = i + 1;
        }
        let img = Image { width: r.width, height: r.height, pixels };
        assert(img@.pixels =~= Raster::from_bands(r@, g@, b@, a@).pixels);
        Ok(img)
    }

    /// A copy of this image.
    pub fn copy(&self) -> (img: Image)
        ensures
            img@ == self@,
    {
        let mut pixels: Vec<Rgba> = Vec::new();
        let n = self.pixels.len();
        let mut i: usize = 0;
        while i < n
            invariant
                n == self.pixels@.len(),
                i <= n,
                pixels@.len() == i,
                forall|k: int| 0 <= k < i ==> pixels@[k] == self.pixels@[k],
            decreases n - i,
        {
            pixels.push(self.pixels[i]);
            i = i + 1;
        }
        assert(pixels@ =~= self.pixels@);
        Image { width: self.width, height: self.height, pixels }
    }
}

/// The mathematical content of a band: its size and its intensities row by row.
#[verifier::ext_equal]
pub struct BandView {
    pub width: nat,
    pub height: nat,
    pub values: Seq<u8>,
}

impl BandView {
    /// The value count matches the dimensions, and both sides are within bounds.
    pub open spec fn wf(self) -> bool {
        &&& self.width <= MAX_DIM
        &&& self.height <= MAX_DIM
        &&& self.values.len() == self.width * self.height
    }

    /// The intensity at column `x` of row `y`.
    pub open spec fn at(self, x: int, y: int) -> u8 {
        self.values[y * self.width + x]
    }
}

/// A single-channel image: one 8-bit intensity per position.
#[derive(Clone, Debug)]
pub struct Band {
    pub width: u32,
    pub height: u32,
    pub values: Vec<u8>,
}

impl View for Band {
    type V = BandView;

    open spec fn view(&self) -> BandView {
        BandView { width: self.width as nat, height: self.height as nat, values: self.values@ }
    }
}

impl Band {
    /// The value count matches the dimensions, and both sides are within bounds.
    pub open spec fn wf(&self) -> bool {
        self@.wf()
    }

    /// A band of one intensity.
    pub fn filled(width: u32, height: u32, value: u8) -> (res: Result<Band, TranscodeError>)
        ensures
            res is Err <==> (width > MAX_DIM || height > MAX_DIM),
            res matches Err(e) ==> e == TranscodeError::InvalidInput,
            res matches Ok(band) ==> band.wf() && band.width == width && band.height == height
                && forall|i: int| 0 <= i < band.values@.len() ==> band.values@[i] == value,
    {
        if width > MAX_DIM || height > MAX_DIM {
            return Err(TranscodeError::InvalidInput);
        }
        assert(width * height <= 65535 * 65535) by (nonlinear_arith)
            requires
                width <= 65535,
                height <= 65535,
        ;
        let total: u64 = (width as u64) * (height as u64);
        let mut values: Vec<u8> = Vec::new();
        let mut i: u64 = 0;
        while i < total
            invariant
                i <= total,
                values@.len() == i,
                forall|k: int| 0 <= k < i ==> values@[k] == value,
            decreases total - i,
        {
            values.push(value);
            i = i + 1;
        }
        Ok(Band { width, height, values })
    }

    /// Builds a band from its intensities, row by row.
    pub fn from_values(width: u32, height: u32, values: Vec<u8>) -> (res: Result<
        Band,
        TranscodeError,
    >)
        ensures
            res is Err <==> (width > MAX_DIM || height > MAX_DIM || values@.len() != width
                * height),
            res matches Err(e) ==> e == TranscodeError::InvalidInput,
            res matches Ok(band) ==> band.wf() && band.width == width && band.height == height
                && band.values@ == values@,
    {
        if width > MAX_DIM || height > MAX_DIM {
            return Err(TranscodeError::InvalidInput);
        }
        assert(width * height <= 65535 * 65535) by (nonlinear_arith)
            requires
                width <= 65535,
                height <= 65535,
        ;
        let total: u64 = (width as u64) * (height as u64);
        if values.len() as u64 != total {
            return Err(TranscodeError::InvalidInput);
        }
        Ok(Band { width, height, values })
    }
}

} // verus!
