//! The pass-through effects: two-tone, hue rotation, and the filters of the
//! raster-effects backend.

use crate::image::{Image, Raster, Rgba, TranscodeError, MAX_DIM};
use crate::models::{NoArgs, SmoothOption};
use crate::ramp::{luminance, pixel_luminance};
use crate::resize::{
    lemma_fitted_dimensions, resize_rejects, resize_to, resize_to_alg, resized_raster,
    ResizeAlgorithm,
};
use vstd::prelude::*;

verus! {

/// The two-tone version of a pixel: opaque white where the luminance is above
/// the middle of the range, opaque black elsewhere.
pub open spec fn two_tone_pixel(px: Rgba) -> Rgba {
    if luminance(px.r, px.g, px.b) > 127 {
        Rgba::spec_white()
    } else {
        Rgba::spec_black()
    }
}

/// The two-tone version of an image.
pub open spec fn two_tone(image: Raster) -> Raster {
    Raster {
        width: image.width,
        height: image.height,
        pixels: Seq::new(image.pixels.len(), |i: int| two_tone_pixel(image.pixels[i])),
    }
}

/// Reduces an image to opaque black and white.
pub fn to_two_tone(image: &Image) -> (out: Image)
    ensures
        out@ == two_tone(image@),
{
    let mut pixels: Vec<Rgba> = Vec::new();
    let n = image.pixels.len();
    let mut i: usize = 0;
    while i < n
        invariant
            n == image.pixels@.len(),
            i <= n,
            pixels@.len() == i,
            forall|k: int| 0 <= k < i ==> pixels@[k] == two_tone_pixel(image.pixels@[k]),
        decreases n - i,
    {
        if pixel_luminance(image.pixels[i]) > 127 {
            pixels.push(Rgba::white());
        } else {
            pixels.push(Rgba::black());
        }
        i = i + 1;
    }
    let out = Image { width: image.width, height: image.height, pixels };
    assert(out@.pixels =~= two_tone(image@).pixels);
    out
}

/// The filter with which the two-tone rendering enlarges.
pub open spec fn enlarging_filter(option: SmoothOption) -> ResizeAlgorithm {
    match option.smooth {
        Some(true) => ResizeAlgorithm::Bilinear,
        _ => ResizeAlgorithm::Nearest,
    }
}

/// Renders an image in black and white pixels: the source is reduced so that
/// its longer side is 80 pixels, enlarged again to 400 with hard pixel edges
/// (interpolated if `smooth` is set), and reduced to two tones.
///
/// Fails with `InvalidInput` exactly when the source has a zero side.
pub fn black_white(image: Image, option: SmoothOption) -> (res: Result<Image, TranscodeError>)
    requires
        image.wf(),
    ensures
        res is Err <==> resize_rejects(image@, 80),
        res matches Err(e) ==> e == TranscodeError::InvalidInput,
        res matches Ok(out) ==> out.wf() && out@ == two_tone(
            resized_raster(
                resized_raster(image@, 80, ResizeAlgorithm::Bilinear),
                400,
                enlarging_filter(option),
            ),
        ),
{
    let filter = match option.smooth {
        Some(true) => ResizeAlgorithm::Bilinear,
        _ => ResizeAlgorithm::Nearest,
    };
    let ghost given = image@;
    let small = match resize_to(image, 80) {
        Ok(small) => small,
        Err(e) => {
            return Err(e);
        },
    };
    proof {
        lemma_fitted_dimensions(given.width, given.height, 80);
    }
    let large = resize_to_alg(small, 400, filter).unwrap();
    Ok(to_two_tone(&large))
}

/// Rotates the hue of every pixel through `ril::Image::hue_rotated`. The
/// contract claims that the image keeps its size and every pixel its alpha.
/// Nothing is claimed of the colours: the rotation goes through the
/// platform's sine and cosine, whose last digits are not the same on every
/// machine.
#[verifier::external_body]
fn hue_rotated(image: &Image, degrees: i32) -> (out: Image)
    requires
        image.wf(),
        image.width >= 1,
        image.height >= 1,
    ensures
        out.wf(),
        out.width == image.width,
        out.height == image.height,
        forall|i: int|
            0 <= i < out.pixels@.len() ==> (#[trigger] out.pixels@[i]).a == image.pixels@[i].a,
{
    let data: Vec<ril::Rgba> =
        image.pixels.iter().map(|p| ril::Rgba::new(p.r, p.g, p.b, p.a)).collect();
    let rotated = ril::Image::from_pixels(image.width, data).hue_rotated(degrees);
    let pixels = rotated.data.iter().map(|p| Rgba { r: p.r, g: p.g, b: p.b, a: p.a }).collect();
    Image { width: image.width, height: image.height, pixels }
}

/// The number of frames of a hue rotation: one every ten degrees.
pub const HUE_FRAMES: usize = 36;

/// `frame` has the size of `source` and the alpha of `source` at every pixel.
pub open spec fn keeps_shape_and_alpha(frame: Raster, source: Raster) -> bool {
    &&& frame.wf()
    &&& frame.width == source.width
    &&& frame.height == source.height
    &&& forall|i: int|
        0 <= i < frame.pixels.len() ==> (#[trigger] frame.pixels[i]).a == source.pixels[i].a
}

/// Rotates the hue of an image once around: the source is resized so that
/// its longer side is 360 pixels, and for every tenth degree from 0 to 350 a
/// frame with the hue rotated by that angle is produced.
///
/// Fails with `InvalidInput` exactly when the source has a zero side.
pub fn hue_rotate(image: Image, _arguments: NoArgs) -> (res: Result<Vec<Image>, TranscodeError>)
    requires
        image.wf(),
    ensures
        res is Err <==> resize_rejects(image@, 360),
        res matches Err(e) ==> e == TranscodeError::InvalidInput,
        res matches Ok(frames) ==> {
            &&& frames@.len() == HUE_FRAMES
            &&& forall|i: int|
                0 <= i < frames@.len() ==> keeps_shape_and_alpha(
                    (#[trigger] frames@[i])@,
                    resized_raster(image@, 360, ResizeAlgorithm::Bilinear),
                )
        },
{
    let ghost given = image@;
    let source = match resize_to(image, 360) {
        Ok(source) => source,
        Err(e) => {
            return Err(e);
        },
    };
    proof {
        lemma_fitted_dimensions(given.width, given.height, 360);
    }
    let mut frames: Vec<Image> = Vec::new();
    let mut step: usize = 0;
    while step < HUE_FRAMES
        invariant
            source.wf(),
            source.width >= 1,
            source.height >= 1,
            step <= HUE_FRAMES,
            frames@.len() == step,
            forall|i: int|
                0 <= i < step ==> keeps_shape_and_alpha((#[trigger] frames@[i])@, source@),
        decreases HUE_FRAMES - step,
    {
        let degrees: i32 = (step as i32) * 10;
        frames.push(hue_rotated(&source, degrees));
        step = step + 1;
    }
    Ok(frames)
}

/// An image of the effects backend, `photon_rs::PhotonImage`: carried
/// through as it is, and known only by its bytes and dimensions below.
#[verifier::external_type_specification]
#[verifier::external_body]
pub struct ExPhotonImage(photon_rs::PhotonImage);

/// The raw bytes of an image of the effects backend: red, green, blue and
/// alpha of every pixel, row by row.
pub uninterp spec fn photon_bytes(image: photon_rs::PhotonImage) -> Seq<u8>;

/// The width of an image of the effects backend.
pub uninterp spec fn photon_width(image: photon_rs::PhotonImage) -> nat;

/// The height of an image of the effects backend.
pub uninterp spec fn photon_height(image: photon_rs::PhotonImage) -> nat;

/// Whether an image of the effects backend has four bytes for each of its
/// pixels, and at least one pixel.
pub open spec fn photon_wf(image: photon_rs::PhotonImage) -> bool {
    &&& photon_width(image) >= 1
    &&& photon_height(image) >= 1
    &&& photon_bytes(image).len() == 4 * photon_width(image) * photon_height(image)
}

/// Builds an image of the effects backend through `PhotonImage::new`, which
/// stores the bytes and the dimensions as they are given.
#[verifier::external_body]
fn photon_new(bytes: Vec<u8>, width: u32, height: u32) -> (out: photon_rs::PhotonImage)
    ensures
        photon_bytes(out) == bytes@,
        photon_width(out) == width,
        photon_height(out) == height,
{
    photon_rs::PhotonImage::new(bytes, width, height)
}

/// `PhotonImage::get_width` reads the stored width.
pub assume_specification[ photon_rs::PhotonImage::get_width ](
    image: &photon_rs::PhotonImage,
) -> (width: u32)
    ensures
        width == photon_width(*image),
;

/// `PhotonImage::get_raw_pixels` hands out a copy of the stored bytes.
pub assume_specification[ photon_rs::PhotonImage::get_raw_pixels ](
    image: &photon_rs::PhotonImage,
) -> (bytes: Vec<u8>)
    ensures
        bytes@ == photon_bytes(*image),
;

/// The bytes of a sequence of pixels: red, green, blue and alpha of each in turn.
pub open spec fn flat_bytes(pixels: Seq<Rgba>) -> Seq<u8> {
    Seq::new(
        4 * pixels.len(),
        |i: int|
            if i % 4 == 0 {
                pixels[i / 4].r
            } else if i % 4 == 1 {
                pixels[i / 4].g
            } else if i % 4 == 2 {
                pixels[i / 4].b
            } else {
                pixels[i / 4].a
            },
    )
}

/// The pixels that a sequence of bytes spells, four bytes to the pixel; bytes
/// left over at the end are ignored.
pub open spec fn packed_pixels(bytes: Seq<u8>) -> Seq<Rgba> {
    Seq::new(
        (bytes.len() / 4) as nat,
        |i: int|
            Rgba { r: bytes[4 * i], g: bytes[4 * i + 1], b: bytes[4 * i + 2], a: bytes[4 * i + 3] },
    )
}

/// Converts an image to an image of the effects backend.
pub fn to_photon(image: &Image) -> (out: photon_rs::PhotonImage)
    requires
        image.wf(),
    ensures
        photon_bytes(out) == flat_bytes(image@.pixels),
        photon_width(out) == image.width,
        photon_height(out) == image.height,
{
    let mut bytes: Vec<u8> = Vec::new();
    let n = image.pixels.len();
    let mut i: usize = 0;
    while i < n
        invariant
            n == image.pixels@.len(),
            i <= n,
            bytes@.len() == 4 * i,
            forall|k: int| 0 <= k < 4 * i ==> bytes@[k] == flat_bytes(image@.pixels)[k],
        decreases n - i,
    {
        let px = image.pixels[i];
        bytes.push(px.r);
        bytes.push(px.g);
        bytes.push(px.b);
        bytes.push(px.a);
        i = i + 1;
    }
    assert(bytes@ =~= flat_bytes(image@.pixels));
    photon_new(bytes, image.width, image.height)
}

/// Whether [`to_ril`] rejects an image of the effects backend.
pub open spec fn photon_rejected(image: photon_rs::PhotonImage) -> bool {
    ||| photon_width(image) == 0
    ||| photon_width(image) > MAX_DIM
    ||| (photon_bytes(image).len() / 4) % photon_width(image) != 0
    ||| (photon_bytes(image).len() / 4) / photon_width(image) > MAX_DIM
}

/// Converts an image of the effects backend to an image: its bytes taken
/// four to the pixel, the pixels shaped into rows of the backend's width.
///
/// Fails with `InvalidInput` exactly when the width is zero, the pixels do
/// not fill whole rows, or a side exceeds the dimension bound.
pub fn to_ril(image: &photon_rs::PhotonImage) -> (res: Result<Image, TranscodeError>)
    ensures
        res is Err <==> photon_rejected(*image),
        res matches Err(e) ==> e == TranscodeError::InvalidInput,
        res matches Ok(out) ==> {
            &&& out.wf()
            &&& out.width == photon_width(*image)
            &&& out.height == (photon_bytes(*image).len() / 4) / photon_width(*image)
            &&& out.pixels@ == packed_pixels(photon_bytes(*image))
        },
{
    let width = image.get_width();
    let bytes = image.get_raw_pixels();
    let count = bytes.len() / 4;
    if width == 0 || width > MAX_DIM || count % (width as usize) != 0 {
        return Err(TranscodeError::InvalidInput);
    }
    let height = count / (width as usize);
    if height > MAX_DIM as usize {
        return Err(TranscodeError::InvalidInput);
    }
    let mut pixels: Vec<Rgba> = Vec::new();
    let mut i: usize = 0;
    while i < count
        invariant
            count == bytes@.len() / 4,
            4 * count <= bytes@.len() <= usize::MAX,
            i <= count,
            pixels@.len() == i,
            forall|k: int| 0 <= k < i ==> pixels@[k] == packed_pixels(bytes@)[k],
        decreases count - i,
    {
        pixels.push(
            Rgba { r: bytes[4 * i], g: bytes[4 * i + 1], b: bytes[4 * i + 2], a: bytes[4 * i + 3] },
        );
        i = i + 1;
    }
    assert(pixels@ =~= packed_pixels(bytes@));
    proof {
        vstd::arithmetic::div_mod::lemma_fundamental_div_mod(count as int, width as int);
        assert(width * height == count) by (nonlinear_arith)
            requires
                count == width * (count as int / width as int) + count as int % width as int,
                count as int % width as int == 0,
                height == count as int / width as int,
        ;
    }
    Ok(Image { width, height: height as u32, pixels })
}

/// The bytes of an image after the emboss filter of the effects backend.
pub uninterp spec fn embossed(bytes: Seq<u8>, width: nat, height: nat) -> Seq<u8>;

/// The bytes of an image after the first edge filter of the effects backend.
pub uninterp spec fn edge_traced(bytes: Seq<u8>, width: nat, height: nat) -> Seq<u8>;

/// The bytes of an image after the sharpening filter of the effects backend.
pub uninterp spec fn sharpened(bytes: Seq<u8>, width: nat, height: nat) -> Seq<u8>;

/// The bytes of an image after the frosted-glass effect of the effects backend.
pub uninterp spec fn frosted(bytes: Seq<u8>, width: nat, height: nat) -> Seq<u8>;

/// Applies `photon_rs::conv::emboss`. The contract claims that the image
/// keeps its dimensions and its number of bytes, and that the bytes
/// afterwards depend on nothing but the bytes before and the dimensions.
#[verifier::external_body]
fn apply_emboss(image: &mut photon_rs::PhotonImage)
    requires
        photon_wf(*old(image)),
    ensures
        photon_width(*final(image)) == photon_width(*old(image)),
        photon_height(*final(image)) == photon_height(*old(image)),
        photon_bytes(*final(image)).len() == photon_bytes(*old(image)).len(),
        photon_bytes(*final(image)) == embossed(
            photon_bytes(*old(image)),
            photon_width(*old(image)),
            photon_height(*old(image)),
        ),
{
    photon_rs::conv::emboss(image);
}

/// Applies `photon_rs::conv::edge_one`. The contract claims that the image
/// keeps its dimensions and its number of bytes, and that the bytes
/// afterwards depend on nothing but the bytes before and the dimensions.
#[verifier::external_body]
fn apply_edge_one(image: &mut photon_rs::PhotonImage)
    requires
        photon_wf(*old(image)),
    ensures
        photon_width(*final(image)) == photon_width(*old(image)),
        photon_height(*final(image)) == photon_height(*old(image)),
        photon_bytes(*final(image)).len() == photon_bytes(*old(image)).len(),
        photon_bytes(*final(image)) == edge_traced(
            photon_bytes(*old(image)),
            photon_width(*old(image)),
            photon_height(*old(image)),
        ),
{
    photon_rs::conv::edge_one(image);
}

/// Applies `photon_rs::conv::sharpen`. The contract claims that the image
/// keeps its dimensions and its number of bytes, and that the bytes
/// afterwards depend on nothing but the bytes before and the dimensions.
#[verifier::external_body]
fn apply_sharpen(image: &mut photon_rs::PhotonImage)
    requires
        photon_wf(*old(image)),
    ensures
        photon_width(*final(image)) == photon_width(*old(image)),
        photon_height(*final(image)) == photon_height(*old(image)),
        photon_bytes(*final(image)).len() == photon_bytes(*old(image)).len(),
        photon_bytes(*final(image)) == sharpened(
            photon_bytes(*old(image)),
            photon_width(*old(image)),
            photon_height(*old(image)),
        ),
{
    photon_rs::conv::sharpen(image);
}

/// Applies `photon_rs::effects::frosted_glass`. The contract claims that the
/// image keeps its dimensions and its number of bytes, and that the bytes
/// afterwards depend on nothing but the bytes before and the dimensions.
#[verifier::external_body]
fn apply_frosted_glass(image: &mut photon_rs::PhotonImage)
    requires
        photon_wf(*old(image)),
    ensures
        photon_width(*final(image)) == photon_width(*old(image)),
        photon_height(*final(image)) == photon_height(*old(image)),
        photon_bytes(*final(image)).len() == photon_bytes(*old(image)).len(),
        photon_bytes(*final(image)) == frosted(
            photon_bytes(*old(image)),
            photon_width(*old(image)),
            photon_height(*old(image)),
        ),
{
    photon_rs::effects::frosted_glass(image);
}

/// The image that `bytes` spell at the size of `source`.
pub open spec fn filtered(source: Raster, bytes: Seq<u8>) -> Raster {
    Raster { width: source.width, height: source.height, pixels: packed_pixels(bytes) }
}

/// An image with at least one pixel converts to a well-formed image of the
/// effects backend, and a well-formed image of the effects backend within
/// the dimension bound converts back.
proof fn lemma_photon_round_trip(source: Raster, image: photon_rs::PhotonImage)
    requires
        source.wf(),
        source.width >= 1,
        source.height >= 1,
        photon_width(image) == source.width,
        photon_height(image) == source.height,
        photon_bytes(image).len() == 4 * source.pixels.len(),
    ensures
        photon_wf(image),
        !photon_rejected(image),
        (photon_bytes(image).len() / 4) / photon_width(image) == source.height,
{
    let w = source.width as int;
    let h = source.height as int;
    let count = source.pixels.len() as int;
    assert(4 * source.width * source.height == 4 * (source.width * source.height))
        by (nonlinear_arith);
    assert((4 * count) / 4 == count);
    assert(count == h * w + 0) by (nonlinear_arith)
        requires
            count == w * h,
    ;
    vstd::arithmetic::div_mod::lemma_fundamental_div_mod_converse(count, w, h, 0);
}

/// The image of the frosted-glass effect on `source`.
pub open spec fn frost_of(source: Raster) -> Raster {
    filtered(source, frosted(flat_bytes(source.pixels), source.width, source.height))
}

/// Gives an image a frosted-glass look: the source is resized so that its
/// longer side is 360 pixels, and the effect is applied.
///
/// Fails with `InvalidInput` exactly when the source has a zero side.
pub fn frost(image: Image, _arguments: NoArgs) -> (res: Result<Image, TranscodeError>)
    requires
        image.wf(),
    ensures
        res is Err <==> resize_rejects(image@, 360),
        res matches Err(e) ==> e == TranscodeError::InvalidInput,
        res matches Ok(out) ==> out.wf() && out@ == frost_of(
            resized_raster(image@, 360, ResizeAlgorithm::Bilinear),
        ),
{
    let ghost given = image@;
    let source = match resize_to(image, 360) {
        Ok(source) => source,
        Err(e) => {
            return Err(e);
        },
    };
    let mut photon = to_photon(&source);
    proof {
        lemma_fitted_dimensions(given.width, given.height, 360);
        lemma_photon_round_trip(source@, photon);
    }
    apply_frosted_glass(&mut photon);
    proof {
        lemma_photon_round_trip(source@, photon);
    }
    let out = to_ril(&photon).unwrap();
    assert(out@ =~= frost_of(source@));
    Ok(out)
}

/// The image of the emboss filter on `source`.
pub open spec fn emboss_of(source: Raster) -> Raster {
    filtered(source, embossed(flat_bytes(source.pixels), source.width, source.height))
}

/// Embosses an image: the source is resized so that its longer side is 360
/// pixels, and the filter is applied.
///
/// Fails with `InvalidInput` exactly when the source has a zero side.
pub fn emboss(image: Image, _arguments: NoArgs) -> (res: Result<Image, TranscodeError>)
    requires
        image.wf(),
    ensures
        res is Err <==> resize_rejects(image@, 360),
        res matches Err(e) ==> e == TranscodeError::InvalidInput,
        res matches Ok(out) ==> out.wf() && out@ == emboss_of(
            resized_raster(image@, 360, ResizeAlgorithm::Bilinear),
        ),
{
    let ghost given = image@;
    let source = match resize_to(image, 360) {
        Ok(source) => source,
        Err(e) => {
            return Err(e);
        },
    };
    let mut photon = to_photon(&source);
    proof {
        lemma_fitted_dimensions(given.width, given.height, 360);
        lemma_photon_round_trip(source@, photon);
    }
    apply_emboss(&mut photon);
    proof {
        lemma_photon_round_trip(source@, photon);
    }
    let out = to_ril(&photon).unwrap();
    assert(out@ =~= emboss_of(source@));
    Ok(out)
}

/// The image of the edge filter followed by sharpening on `source`.
pub open spec fn edge_of(source: Raster) -> Raster {
    filtered(
        source,
        sharpened(
            edge_traced(flat_bytes(source.pixels), source.width, source.height),
            source.width,
            source.height,
        ),
    )
}

/// Traces the edges of an image: the source is resized so that its longer
/// side is 360 pixels, the edge filter is applied, and the result sharpened.
///
/// Fails with `InvalidInput` exactly when the source has a zero side.
pub fn edge(image: Image, _arguments: NoArgs) -> (res: Result<Image, TranscodeError>)
    requires
        image.wf(),
    ensures
        res is Err <==> resize_rejects(image@, 360),
        res matches Err(e) ==> e == TranscodeError::InvalidInput,
        res matches Ok(out) ==> out.wf() && out@ == edge_of(
            resized_raster(image@, 360, ResizeAlgorithm::Bilinear),
        ),
{
    let ghost given = image@;
    let source = match resize_to(image, 360) {
        Ok(source) => source,
        Err(e) => {
            return Err(e);
        },
    };
    let mut photon = to_photon(&source);
    proof {
        lemma_fitted_dimensions(given.width, given.height, 360);
        lemma_photon_round_trip(source@, photon);
    }
    apply_edge_one(&mut photon);
    proof {
        lemma_photon_round_trip(source@, photon);
    }
    apply_sharpen(&mut photon);
    proof {
        lemma_photon_round_trip(source@, photon);
    }
    let out = to_ril(&photon).unwrap();
    assert(out@ =~= edge_of(source@));
    Ok(out)
}

} // verus!
