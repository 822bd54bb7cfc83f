//! Aspect-preserving scale-to-fit.

use crate::image::{Image, Raster, Rgba, TranscodeError, MAX_DIM};
use vstd::prelude::*;

verus! {

/// The resampling filter used when an image changes size.
#[derive(Clone, Copy, Debug, PartialEq, Eq, Structural)]
pub enum ResizeAlgorithm {
    /// Nearest neighbour: keeps hard pixel edges.
    Nearest,
    /// Linear interpolation.
    Bilinear,
    /// Catmull-Rom cubic interpolation.
    Bicubic,
}

/// `a / b`, rounded up.
pub open spec fn ceil_div(a: nat, b: nat) -> nat
    recommends
        b > 0,
{
    ((a + b - 1) / (b as int)) as nat
}

/// The size that fits a `width` by `height` source into a square of side
/// `size`: the longer side becomes `size`, the shorter one keeps the aspect
/// ratio, rounded up.
pub open spec fn fitted_dimensions(width: nat, height: nat, size: nat) -> (nat, nat)
    recommends
        width > 0,
        height > 0,
{
    if width > height {
        (size, ceil_div(size * height, width))
    } else {
        (ceil_div(size * width, height), size)
    }
}

/// Rounding up a scaled side: the result is the least integer that is not
/// below `size * short / long`.
pub proof fn lemma_ceil_div_scaled(size: nat, short: nat, long: nat)
    requires
        0 < long,
        short <= long,
    ensures
        ceil_div(size * short, long) <= size,
        size * short <= ceil_div(size * short, long) * long < size * short + long,
        (size >= 1 && short >= 1) ==> ceil_div(size * short, long) >= 1,
{
    let a = size * short;
    let q = ceil_div(a, long);
    assert(a <= size * long) by (nonlinear_arith)
        requires
            a == size * short,
            short <= long,
    ;
    assert(a <= q * long < a + long && q <= size) by (nonlinear_arith)
        requires
            q == (a + long - 1) / (long as int),
            0 < long,
            0 <= a <= size * long,
    ;
    if size >= 1 && short >= 1 {
        assert(a >= 1) by (nonlinear_arith)
            requires
                a == size * short,
                size >= 1,
                short >= 1,
        ;
        assert(q >= 1) by (nonlinear_arith)
            requires
                q == (a + long - 1) / (long as int),
                0 < long,
                a >= 1,
        ;
    }
}

/// The fitted size has `size` as its longer side, and its shorter side is
/// within one pixel of the exact aspect ratio of the source: it is the exact
/// proportional length rounded up.
pub proof fn lemma_fitted_dimensions(width: nat, height: nat, size: nat)
    requires
        width >= 1,
        height >= 1,
    ensures
        ({
            let (w, h) = fitted_dimensions(width, height, size);
            &&& w <= size && h <= size
            &&& w == size || h == size
            &&& size >= 1 ==> w >= 1 && h >= 1
            &&& width > height ==> w == size && size * height <= h * width < size * height
                + width
            &&& width <= height ==> h == size && size * width <= w * height < size * width
                + height
        }),
{
    if width > height {
        lemma_ceil_div_scaled(size, height, width);
    } else {
        lemma_ceil_div_scaled(size, width, height);
    }
}

/// Computes the fitted size of a `width` by `height` source for a target side `size`.
pub fn fit_dimensions(width: u32, height: u32, size: u32) -> (dims: (u32, u32))
    requires
        width >= 1,
        height >= 1,
    ensures
        (dims.0 as nat, dims.1 as nat) == fitted_dimensions(
            width as nat,
            height as nat,
            size as nat,
        ),
{
    proof {
        lemma_fitted_dimensions(width as nat, height as nat, size as nat);
    }
    if width > height {
        assert(size * height <= 0xffff_ffff * 0xffff_ffff) by (nonlinear_arith)
            requires
                size <= 0xffff_ffff,
                height <= 0xffff_ffff,
        ;
        let scaled: u64 = (size as u64) * (height as u64);
        let short: u64 = (scaled + (width as u64 - 1)) / (width as u64);
        (size, short as u32)
    } else {
        assert(size * width <= 0xffff_ffff * 0xffff_ffff) by (nonlinear_arith)
            requires
                size <= 0xffff_ffff,
                width <= 0xffff_ffff,
        ;
        let scaled: u64 = (size as u64) * (width as u64);
        let short: u64 = (scaled + (height as u64 - 1)) / (height as u64);
        (short as u32, size)
    }
}

/// The pixels that resampling `source` to `width` by `height` with
/// `algorithm` yields, row by row.
pub uninterp spec fn resampled(
    source: Raster,
    width: nat,
    height: nat,
    algorithm: ResizeAlgorithm,
) -> Seq<Rgba>;

/// Resamples through `ril::Image::resized`. The contract claims that the
/// result has the requested dimensions with one pixel per position, and that
/// its pixels depend on nothing but the source, the dimensions and the filter.
#[verifier::external_body]
fn resample(image: &Image, width: u32, height: u32, algorithm: ResizeAlgorithm) -> (out: Image)
    requires
        image.wf(),
        image.width >= 1,
        image.height >= 1,
        1 <= width <= MAX_DIM,
        1 <= height <= MAX_DIM,
    ensures
        out.wf(),
        out.width == width,
        out.height == height,
        out.pixels@ == resampled(image@, width as nat, height as nat, algorithm),
{
    let data: Vec<ril::Rgba> =
        image.pixels.iter().map(|p| ril::Rgba::new(p.r, p.g, p.b, p.a)).collect();
    let filter = match algorithm {
        ResizeAlgorithm::Nearest => ril::ResizeAlgorithm::Nearest,
        ResizeAlgorithm::Bilinear => ril::ResizeAlgorithm::Bilinear,
        ResizeAlgorithm::Bicubic => ril::ResizeAlgorithm::Bicubic,
    };
    let resized = ril::Image::from_pixels(image.width, data).resized(width, height, filter);
    let pixels = resized.data.iter().map(|p| Rgba { r: p.r, g: p.g, b: p.b, a: p.a }).collect();
    Image { width, height, pixels }
}

/// The image that [`resample_to`] returns on a source it accepts.
pub open spec fn resampled_raster(
    source: Raster,
    width: nat,
    height: nat,
    algorithm: ResizeAlgorithm,
) -> Raster {
    Raster { width, height, pixels: resampled(source, width, height, algorithm) }
}

/// Resamples an image to exactly `width` by `height`.
///
/// Fails with `InvalidInput` exactly when the source or the target has a zero
/// side, or the target exceeds the dimension bound.
pub fn resample_to(image: &Image, width: u32, height: u32, algorithm: ResizeAlgorithm) -> (res:
    Result<Image, TranscodeError>)
    requires
        image.wf(),
    ensures
        res is Err <==> (image.width == 0 || image.height == 0 || width == 0 || height == 0
            || width > MAX_DIM || height > MAX_DIM),
        res matches Err(e) ==> e == TranscodeError::InvalidInput,
        res matches Ok(out) ==> out.wf() && out@ == resampled_raster(
            image@,
            width as nat,
            height as nat,
            algorithm,
        ),
{
    if image.width == 0 || image.height == 0 || width == 0 || height == 0 || width > MAX_DIM
        || height > MAX_DIM {
        return Err(TranscodeError::InvalidInput);
    }
    Ok(resample(image, width, height, algorithm))
}

/// Whether [`resize_to_alg`] rejects a source of this size for this target.
pub open spec fn resize_rejects(source: Raster, size: nat) -> bool {
    source.width == 0 || source.height == 0 || size == 0 || size > MAX_DIM
}

/// The image that [`resize_to_alg`] returns on a source it accepts.
pub open spec fn resized_raster(source: Raster, size: nat, algorithm: ResizeAlgorithm) -> Raster {
    let (w, h) = fitted_dimensions(source.width, source.height, size);
    resampled_raster(source, w, h, algorithm)
}

/// Resizes an image so that its longer side is `size`, keeping the aspect
/// ratio, with the given resampling filter.
///
/// Fails with `InvalidInput` exactly when the source has a zero side, or
/// `size` is zero or exceeds the dimension bound.
pub fn resize_to_alg(image: Image, size: u32, alg: ResizeAlgorithm) -> (res: Result<
    Image,
    TranscodeError,
>)
    requires
        image.wf(),
    ensures
        res is Err <==> resize_rejects(image@, size as nat),
        res matches Err(e) ==> e == TranscodeError::InvalidInput,
        res matches Ok(out) ==> out.wf() && out@ == resized_raster(image@, size as nat, alg),
{
    if image.width == 0 || image.height == 0 || size == 0 || size > MAX_DIM {
        return Err(TranscodeError::InvalidInput);
    }
    proof {
        lemma_fitted_dimensions(image.width as nat, image.height as nat, size as nat);
    }
    let (width, height) = fit_dimensions(image.width, image.height, size);
    Ok(resample(&image, width, height, alg))
}

/// Same as [`resize_to_alg`], with bilinear resampling.
pub fn resize_to(image: Image, size: u32) -> (res: Result<Image, TranscodeError>)
    requires
        image.wf(),
    ensures
        res is Err <==> resize_rejects(image@, size as nat),
        res matches Err(e) ==> e == TranscodeError::InvalidInput,
        res matches Ok(out) ==> out.wf() && out@ == resized_raster(
            image@,
            size as nat,
            ResizeAlgorithm::Bilinear,
        ),
{
    resize_to_alg(image, size, ResizeAlgorithm::Bilinear)
}

/// The number of text rows for `cols` columns of glyphs twice as tall as
/// wide: `(height / width) * (cols / 2)`, rounded to the nearest integer,
/// halves upward.
pub open spec fn glyph_rows(width: nat, height: nat, cols: nat) -> nat
    recommends
        width > 0,
{
    (((height * cols + width) as int) / ((2 * width) as int)) as nat
}

/// Whether [`ascii_resize`] rejects a source of this size for this many columns.
pub open spec fn ascii_resize_rejects(source: Raster, cols: nat) -> bool {
    ||| source.width == 0
    ||| source.height == 0
    ||| cols == 0
    ||| cols > MAX_DIM
    ||| glyph_rows(source.width, source.height, cols) == 0
    ||| glyph_rows(source.width, source.height, cols) > MAX_DIM
}

/// Resizes an image for character art: `cols` columns wide, and as many rows
/// as keep the aspect ratio when every glyph is twice as tall as wide.
/// Resampling is bicubic.
///
/// Fails with `InvalidInput` exactly when the source has a zero side, or the
/// column or row count is zero or exceeds the dimension bound.
pub fn ascii_resize(image: Image, cols: u32) -> (res: Result<Image, TranscodeError>)
    requires
        image.wf(),
    ensures
        res is Err <==> ascii_resize_rejects(image@, cols as nat),
        res matches Err(e) ==> e == TranscodeError::InvalidInput,
        res matches Ok(out) ==> out.wf() && out@ == resampled_raster(
            image@,
            cols as nat,
            glyph_rows(image@.width, image@.height, cols as nat),
            ResizeAlgorithm::Bicubic,
        ),
{
    if image.width == 0 || image.height == 0 || cols == 0 || cols > MAX_DIM {
        return Err(TranscodeError::InvalidInput);
    }
    assert(image.height * cols <= 65535 * 65535) by (nonlinear_arith)
        requires
            image.height <= 65535,
            cols <= 65535,
    ;
    let scaled: u64 = (image.height as u64) * (cols as u64) + (image.width as u64);
    let rows: u64 = scaled / (2 * (image.width as u64));
    if rows == 0 || rows > MAX_DIM as u64 {
        return Err(TranscodeError::InvalidInput);
    }
    Ok(resample(&image, cols, rows as u32, ResizeAlgorithm::Bicubic))
}

} // verus!
