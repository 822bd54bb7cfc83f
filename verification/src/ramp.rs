//! Character-ramp text art: every pixel becomes the glyph of its luminance.

use crate::image::{Band, BandView, Image, Raster, Rgba, TranscodeError};
use crate::models::AsciiOption;
use crate::resize::{
    ascii_resize, ascii_resize_rejects, glyph_rows, resampled_raster, ResizeAlgorithm,
};
use crate::text::{draw_text, push_char, text_canvas, text_renders};
use vstd::prelude::*;
use vstd::string::*;

verus! {

/// How a luminance selects a glyph of a ramp.
#[derive(Clone, Copy, Debug, PartialEq, Eq, Structural)]
pub enum RampMapping {
    /// The ramp is spread evenly over the luminance range, ends on ends.
    /// This is the mapping of the default rendering.
    Linear,
    /// The luminance is taken modulo the ramp's length, except that black
    /// selects the last glyph.
    Modular,
}

/// The position in a ramp of `len` glyphs that `intensity` selects.
pub open spec fn ramp_index(intensity: nat, len: nat, mapping: RampMapping) -> nat
    recommends
        intensity <= 255,
        len >= 1,
{
    match mapping {
        RampMapping::Linear => intensity * len / 256,
        RampMapping::Modular => if intensity == 0 {
            (len - 1) as nat
        } else {
            intensity % len
        },
    }
}

/// Every selected position lies inside the ramp.
pub proof fn lemma_ramp_index_in_range(intensity: nat, len: nat, mapping: RampMapping)
    requires
        intensity <= 255,
        len >= 1,
    ensures
        ramp_index(intensity, len, mapping) < len,
{
    match mapping {
        RampMapping::Linear => {
            assert(intensity * len / 256 < len) by (nonlinear_arith)
                requires
                    intensity <= 255,
                    len >= 1,
            ;
        },
        RampMapping::Modular => {
            if intensity != 0 {
                assert(intensity % len < len) by (nonlinear_arith)
                    requires
                        len >= 1,
                ;
            }
        },
    }
}

/// Under the linear mapping, black selects the first glyph of a ramp and
/// white the last, and a luminance and its inverse select positions that
/// mirror each other about the middle of the ramp, to within one step.
pub proof fn lemma_inverse_selects_opposite_end(intensity: nat, len: nat)
    requires
        intensity <= 255,
        1 <= len <= 256,
    ensures
        ramp_index(0, len, RampMapping::Linear) == 0,
        ramp_index(255, len, RampMapping::Linear) == len - 1,
        ({
            let plain = ramp_index(intensity, len, RampMapping::Linear);
            let inverse = ramp_index((255 - intensity) as nat, len, RampMapping::Linear);
            plain + inverse == len - 1 || plain + inverse == len - 2
        }),
{
    let a = (intensity * len) as int;
    let b = ((255 - intensity) * len) as int;
    assert(a + b == 255 * len) by (nonlinear_arith)
        requires
            a == intensity * len,
            b == (255 - intensity) * len,
    ;
    assert(0 <= a && 0 <= b) by (nonlinear_arith)
        requires
            a == intensity * len,
            b == (255 - intensity) * len,
            0 <= intensity <= 255,
            len >= 1,
    ;
    assert(0 * len == 0);
    assert(255 * len == 256 * (len - 1) + (256 - len));
}

/// Looks up the position in a ramp of `len` glyphs that `intensity` selects.
pub fn select_glyph(intensity: u8, len: usize, mapping: RampMapping) -> (index: usize)
    requires
        len >= 1,
    ensures
        index == ramp_index(intensity as nat, len as nat, mapping),
        index < len,
{
    proof {
        lemma_ramp_index_in_range(intensity as nat, len as nat, mapping);
    }
    match mapping {
        RampMapping::Linear => {
            assert(intensity * len <= 255 * len) by (nonlinear_arith)
                requires
                    intensity <= 255,
                    len >= 0,
            ;
            ((intensity as u128) * (len as u128) / 256) as usize
        },
        RampMapping::Modular => {
            if intensity == 0 {
                len - 1
            } else {
                (intensity as usize) % len
            }
        },
    }
}

/// The pixel with every channel, alpha included, replaced by its complement.
pub open spec fn inverted_pixel(px: Rgba) -> Rgba {
    Rgba {
        r: (255 - px.r) as u8,
        g: (255 - px.g) as u8,
        b: (255 - px.b) as u8,
        a: (255 - px.a) as u8,
    }
}

/// Inverts a pixel.
pub fn invert_pixel(px: Rgba) -> (out: Rgba)
    ensures
        out == inverted_pixel(px),
{
    Rgba { r: 255 - px.r, g: 255 - px.g, b: 255 - px.b, a: 255 - px.a }
}

/// The perceived luminance of a colour.
pub uninterp spec fn luminance(r: u8, g: u8, b: u8) -> u8;

/// Converts a colour to luminance through `ril::L::from`. The contract claims
/// that the result depends on nothing but red, green and blue.
#[verifier::external_body]
pub(crate) fn pixel_luminance(px: Rgba) -> (l: u8)
    ensures
        l == luminance(px.r, px.g, px.b),
{
    ril::L::from(ril::Rgba::new(px.r, px.g, px.b, px.a)).value()
}

/// The luminance band of an image, after inversion if `invert` is set.
pub open spec fn luminance_band(image: Raster, invert: bool) -> BandView {
    BandView {
        width: image.width,
        height: image.height,
        values: Seq::new(
            image.pixels.len(),
            |i: int|
                {
                    let px = if invert {
                        inverted_pixel(image.pixels[i])
                    } else {
                        image.pixels[i]
                    };
                    luminance(px.r, px.g, px.b)
                },
        ),
    }
}

/// Converts an image to its luminance band, inverting it first if asked.
pub fn to_luminance(image: &Image, invert: bool) -> (band: Band)
    ensures
        band@ == luminance_band(image@, invert),
{
    let mut values: Vec<u8> = Vec::new();
    let n = image.pixels.len();
    let mut i: usize = 0;
    while i < n
        invariant
            n == image.pixels@.len(),
            i <= n,
            values@.len() == i,
            forall|k: int| 0 <= k < i ==> values@[k] == luminance_band(image@, invert).values[k],
        decreases n - i,
    {
        let px = if invert {
            invert_pixel(image.pixels[i])
        } else {
            image.pixels[i]
        };
        values.push(pixel_luminance(px));
        i = i + 1;
    }
    let band = Band { width: image.width, height: image.height, values };
    assert(band@.values =~= luminance_band(image@, invert).values);
    band
}

/// The text of the first `n` intensities of a band, row by row: for each the
/// glyph it selects, and a newline after the last intensity of every row.
pub open spec fn ramp_text_upto(
    gray: BandView,
    ramp: Seq<Seq<char>>,
    mapping: RampMapping,
    n: nat,
) -> Seq<char>
    decreases n,
{
    if n == 0 {
        Seq::empty()
    } else {
        let glyph = ramp[ramp_index(gray.values[n - 1] as nat, ramp.len(), mapping) as int];
        let line_end = if n % gray.width == 0 {
            seq!['\n']
        } else {
            Seq::empty()
        };
        ramp_text_upto(gray, ramp, mapping, (n - 1) as nat) + glyph + line_end
    }
}

/// The text of a band: every intensity as its glyph, every row ended by a newline.
pub open spec fn ramp_text(gray: BandView, ramp: Seq<Seq<char>>, mapping: RampMapping) -> Seq<
    char,
> {
    ramp_text_upto(gray, ramp, mapping, gray.values.len())
}

/// Encodes a band of intensities as text: each intensity becomes the glyph
/// it selects in `ramp`, and each row ends with a newline.
pub fn encode_ramp(gray: &Band, ramp: &Vec<String>, mapping: RampMapping) -> (text: String)
    requires
        gray.wf(),
        ramp@.len() >= 1,
    ensures
        text@ == ramp_text(gray@, crate::braille::row_view(ramp@), mapping),
{
    let ghost glyphs = crate::braille::row_view(ramp@);
    let mut text = String::new();
    let n = gray.values.len();
    let width = gray.width as usize;
    let mut i: usize = 0;
    let mut column: usize = 0;
    assert(gray.width == 0 ==> gray.width * gray.height == 0) by (nonlinear_arith);
    while i < n
        invariant
            gray.wf(),
            ramp@.len() >= 1,
            glyphs == crate::braille::row_view(ramp@),
            n == gray.values@.len(),
            width == gray.width,
            i <= n,
            i < n ==> width > 0,
            width > 0 ==> column == i % width,
            text@ == ramp_text_upto(gray@, glyphs, mapping, i as nat),
        decreases n - i,
    {
        let index = select_glyph(gray.values[i], ramp.len(), mapping);
        text.append(ramp[index].as_str());
        column = column + 1;
        let ghost line_end: Seq<char> = if (i + 1) % (width as int) == 0 {
            seq!['\n']
        } else {
            Seq::empty()
        };
        proof {
            let w = width as int;
            let q = i as int / w;
            let r = i as int % w;
            vstd::arithmetic::div_mod::lemma_fundamental_div_mod(i as int, w);
            if r + 1 == w {
                assert(i + 1 == (q + 1) * w + 0) by (nonlinear_arith)
                    requires
                        i == w * q + r,
                        r + 1 == w,
                ;
                vstd::arithmetic::div_mod::lemma_fundamental_div_mod_converse(
                    i + 1,
                    w,
                    q + 1,
                    0,
                );
            } else {
                assert(i + 1 == q * w + (r + 1)) by (nonlinear_arith)
                    requires
                        i == w * q + r,
                ;
                vstd::arithmetic::div_mod::lemma_fundamental_div_mod_converse(
                    i + 1,
                    w,
                    q,
                    r + 1,
                );
            }
            assert(glyphs[index as int] == ramp@[index as int]@);
        }
        if column == width {
            push_char(&mut text, '\n');
            column = 0;
            assert(text@ =~= ramp_text_upto(gray@, glyphs, mapping, i as nat) + glyphs[index as int]
                + line_end);
        } else {
            assert(text@ =~= ramp_text_upto(gray@, glyphs, mapping, i as nat) + glyphs[index as int]
                + line_end);
        }
        i = i + 1;
    }
    text
}

/// The glyphs of the default ramp, from the darkest to the lightest, each one character.
pub open spec fn ascii_glyphs() -> Seq<char> {
    "@#S%?*+;:,. "@
}

/// The default ramp: twelve glyphs from dense to sparse.
pub fn ascii_ramp() -> (ramp: Vec<String>)
    ensures
        ramp@.len() == 12,
        ascii_glyphs().len() == 12,
        forall|i: int| 0 <= i < 12 ==> (#[trigger] ramp@[i])@ == seq![ascii_glyphs()[i]],
{
    let glyphs = "@#S%?*+;:,. ";
    proof {
        reveal_strlit("@#S%?*+;:,. ");
    }
    let mut ramp: Vec<String> = Vec::new();
    let mut i: usize = 0;
    while i < 12
        invariant
            glyphs@ == ascii_glyphs(),
            glyphs@.len() == 12,
            i <= 12,
            ramp@.len() == i,
            forall|k: int| 0 <= k < i ==> (#[trigger] ramp@[k])@ == seq![ascii_glyphs()[k]],
        decreases 12 - i,
    {
        let mut glyph = String::new();
        push_char(&mut glyph, glyphs.get_char(i));
        assert(glyph@ =~= seq![ascii_glyphs()[i as int]]);
        ramp.push(glyph);
        i = i + 1;
    }
    ramp
}

/// The number of glyph columns of the character rendering.
pub open spec fn ascii_columns(option: AsciiOption) -> nat {
    match option.size {
        Some(size) => size as nat,
        None => 130,
    }
}

/// Whether the character rendering inverts the image first.
pub open spec fn ascii_invert(option: AsciiOption) -> bool {
    match option.invert {
        Some(invert) => invert,
        None => false,
    }
}

/// The image that the character rendering reads its intensities from.
pub open spec fn ascii_source(image: Raster, option: AsciiOption) -> Raster {
    resampled_raster(
        image,
        ascii_columns(option),
        glyph_rows(image.width, image.height, ascii_columns(option)),
        ResizeAlgorithm::Bicubic,
    )
}

/// The text of the character rendering of an image that is not rejected.
pub open spec fn ascii_text_of(image: Raster, option: AsciiOption) -> Seq<char> {
    ramp_text(
        luminance_band(ascii_source(image, option), ascii_invert(option)),
        Seq::new(12, |i: int| seq![ascii_glyphs()[i]]),
        RampMapping::Linear,
    )
}

/// The text of the character rendering of an image: the image is resized to
/// the requested number of columns (130 unless given), inverted if asked,
/// reduced to luminance, and encoded with the default ramp under the linear
/// mapping.
///
/// Fails with `InvalidInput` exactly when the source has a zero side, or the
/// column or row count is zero or exceeds the dimension bound.
pub fn ascii_text(image: Image, option: AsciiOption) -> (res: Result<String, TranscodeError>)
    requires
        image.wf(),
    ensures
        res is Err <==> ascii_resize_rejects(image@, ascii_columns(option)),
        res matches Err(e) ==> e == TranscodeError::InvalidInput,
        res matches Ok(text) ==> text@ == ascii_text_of(image@, option),
{
    let columns: u32 = match option.size {
        Some(size) => size as u32,
        None => 130,
    };
    let invert: bool = match option.invert {
        Some(invert) => invert,
        None => false,
    };
    let source = match ascii_resize(image, columns) {
        Ok(source) => source,
        Err(e) => {
            return Err(e);
        },
    };
    let gray = to_luminance(&source, invert);
    let ramp = ascii_ramp();
    assert(crate::braille::row_view(ramp@) =~= Seq::new(12, |i: int| seq![ascii_glyphs()[i]]));
    Ok(encode_ramp(&gray, &ramp, RampMapping::Linear))
}

/// The error, if any, with which [`ascii`] answers.
pub open spec fn ascii_error(image: Raster, font: ril::Font, option: AsciiOption) -> Option<
    TranscodeError,
> {
    if ascii_resize_rejects(image, ascii_columns(option)) {
        Some(TranscodeError::InvalidInput)
    } else if !text_renders(font, ascii_text_of(image, option)) {
        Some(TranscodeError::RenderFailure)
    } else {
        None
    }
}

/// Builds an image out of punctuation characters: the text of
/// [`ascii_text`], written in black on a white canvas as large as the text's
/// bounding box in `font`.
///
/// Fails with `InvalidInput` when [`ascii_text`] does, and with
/// `RenderFailure` when the bounding box of the text has a zero side or one
/// beyond the dimension bound.
pub fn ascii(image: Image, font: &ril::Font, option: AsciiOption) -> (res: Result<
    Image,
    TranscodeError,
>)
    requires
        image.wf(),
    ensures
        res.err() == ascii_error(image@, *font, option),
        res matches Ok(canvas) ==> canvas.wf() && canvas@ == text_canvas(
            *font,
            ascii_text_of(image@, option),
        ),
{
    match ascii_text(image, option) {
        Ok(text) => draw_text(font, text),
        Err(e) => Err(e),
    }
}

} // verus!
