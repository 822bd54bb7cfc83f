//! Glyph rain: every visible pixel becomes a randomly picked glyph in the
//! pixel's colour, on black.

use crate::image::{lemma_index_split, Image, Raster, Rgba, TranscodeError, MAX_DIM};
use crate::models::MatrixOption;
use crate::resize::{
    lemma_fitted_dimensions, resize_rejects, resize_to, resized_raster, ResizeAlgorithm,
};
use crate::stipple::random_in_range;
use crate::text::push_char;
use vstd::prelude::*;
use vstd::string::*;

verus! {

/// The side length of the cell that each glyph is drawn into.
pub const GLYPH_CELL: u32 = 30;

/// The number of frames of a glyph rain.
pub const MATRIX_FRAMES: usize = 5;

/// The glyphs that a pick selects from: the ten digits first, then letters,
/// punctuation and white space.
pub open spec fn glyph_sample() -> Seq<char> {
    "0123456789abcdefghijklmnopqrstuvwxyzABCDEFGHIJKLMNOPQRSTUVWXYZ!\"#$%&'()*+,-./:;<=>?@[\\]^_`{|}~ \t\n\r\x0b\x0c"@
}

/// How many glyphs a pick selects from: the digits alone, or the whole sample.
pub open spec fn pick_range(num_only: bool) -> nat {
    if num_only {
        10
    } else {
        100
    }
}

/// The number of glyphs to pick from.
pub fn pick_limit(num_only: bool) -> (limit: u32)
    ensures
        limit == pick_range(num_only),
{
    if num_only {
        10
    } else {
        100
    }
}

/// The glyph that a pick selects.
pub fn matrix_glyph(pick: u32) -> (glyph: String)
    requires
        pick < 100,
    ensures
        glyph_sample().len() == 100,
        glyph@ == seq![glyph_sample()[pick as int]],
{
    let sample =
        "0123456789abcdefghijklmnopqrstuvwxyzABCDEFGHIJKLMNOPQRSTUVWXYZ!\"#$%&'()*+,-./:;<=>?@[\\]^_`{|}~ \t\n\r\x0b\x0c";
    proof {
        reveal_strlit(
            "0123456789abcdefghijklmnopqrstuvwxyzABCDEFGHIJKLMNOPQRSTUVWXYZ!\"#$%&'()*+,-./:;<=>?@[\\]^_`{|}~ \t\n\r\x0b\x0c",
        );
    }
    let mut glyph = String::new();
    push_char(&mut glyph, sample.get_char(pick as usize));
    assert(glyph@ =~= seq![glyph_sample()[pick as int]]);
    glyph
}

/// One glyph to draw: where its cell begins, what it spells, and its colour.
#[derive(Clone, Debug)]
pub struct Placement {
    pub x: u32,
    pub y: u32,
    pub glyph: String,
    pub color: Rgba,
}

/// The mathematical content of a placement.
pub struct PlacementView {
    pub x: nat,
    pub y: nat,
    pub glyph: Seq<char>,
    pub color: Rgba,
}

impl View for Placement {
    type V = PlacementView;

    open spec fn view(&self) -> PlacementView {
        PlacementView {
            x: self.x as nat,
            y: self.y as nat,
            glyph: self.glyph@,
            color: self.color,
        }
    }
}

/// The placements of a list, as their contents.
pub open spec fn placement_views(placements: Seq<Placement>) -> Seq<PlacementView> {
    Seq::new(placements.len(), |i: int| placements[i]@)
}

/// The placement of the pixel at row-major position `i`, given its pick.
pub open spec fn placement_at(image: Raster, picks: Seq<u32>, i: int) -> PlacementView {
    PlacementView {
        x: ((i % (image.width as int)) * GLYPH_CELL) as nat,
        y: ((i / (image.width as int)) * GLYPH_CELL) as nat,
        glyph: seq![glyph_sample()[picks[i] as int]],
        color: image.pixels[i],
    }
}

/// The placements of the first `n` pixels of an image, row by row: one for
/// every pixel with alpha above zero, none for the others.
pub open spec fn placements_upto(image: Raster, picks: Seq<u32>, n: nat) -> Seq<PlacementView>
    decreases n,
{
    if n == 0 {
        Seq::empty()
    } else if image.pixels[n - 1].a > 0 {
        placements_upto(image, picks, (n - 1) as nat).push(placement_at(image, picks, n - 1))
    } else {
        placements_upto(image, picks, (n - 1) as nat)
    }
}

/// Whether [`glyph_placements`] rejects its arguments.
pub open spec fn placements_reject(image: Raster, picks: Seq<u32>, num_only: bool) -> bool {
    ||| image.width * GLYPH_CELL > MAX_DIM
    ||| image.height * GLYPH_CELL > MAX_DIM
    ||| picks.len() != image.pixels.len()
    ||| exists|i: int| 0 <= i < picks.len() && #[trigger] picks[i] >= pick_range(num_only)
}

/// Plans one frame of glyph rain: for every pixel with alpha above zero, in
/// row-major order, the glyph that the pixel's pick selects, placed at the
/// pixel's coordinates times the cell size, in the pixel's colour.
///
/// Fails with `InvalidInput` exactly when the canvas would exceed the
/// dimension bound, the picks are not one per pixel, or a pick is out of
/// range.
pub fn glyph_placements(image: &Image, picks: &Vec<u32>, num_only: bool) -> (res: Result<
    Vec<Placement>,
    TranscodeError,
>)
    requires
        image.wf(),
    ensures
        res is Err <==> placements_reject(image@, picks@, num_only),
        res matches Err(e) ==> e == TranscodeError::InvalidInput,
        res matches Ok(placements) ==> {
            &&& placement_views(placements@) == placements_upto(
                image@,
                picks@,
                image@.pixels.len(),
            )
            &&& forall|k: int|
                0 <= k < placements@.len() ==> (#[trigger] placements@[k]).x <= MAX_DIM
                    && placements@[k].y <= MAX_DIM
        },
{
    if image.width as u64 * GLYPH_CELL as u64 > MAX_DIM as u64 || image.height as u64
        * GLYPH_CELL as u64 > MAX_DIM as u64 {
        return Err(TranscodeError::InvalidInput);
    }
    if picks.len() != image.pixels.len() {
        return Err(TranscodeError::InvalidInput);
    }
    let limit = pick_limit(num_only);
    let n = image.pixels.len();
    let width = image.width as usize;
    let mut placements: Vec<Placement> = Vec::new();
    let mut i: usize = 0;
    assert(image.width == 0 ==> image.width * image.height == 0) by (nonlinear_arith);
    while i < n
        invariant
            image.wf(),
            image.width * GLYPH_CELL <= MAX_DIM,
            image.height * GLYPH_CELL <= MAX_DIM,
            n == image.pixels@.len(),
            n == picks@.len(),
            n > 0 ==> width > 0,
            width == image.width,
            limit == pick_range(num_only),
            i <= n,
            forall|k: int| 0 <= k < i ==> #[trigger] picks@[k] < limit,
            placement_views(placements@) == placements_upto(image@, picks@, i as nat),
            forall|k: int|
                0 <= k < placements@.len() ==> (#[trigger] placements@[k]).x <= MAX_DIM
                    && placements@[k].y <= MAX_DIM,
        decreases n - i,
    {
        let pick = picks[i];
        if pick >= limit {
            return Err(TranscodeError::InvalidInput);
        }
        let px = image.pixels[i];
        if px.a > 0 {
            proof {
                lemma_index_split(i as int, width as int);
                assert(i / width < image.height) by (nonlinear_arith)
                    requires
                        i < image.width * image.height,
                        i == (i / width) * width + i % width,
                        0 <= i % width,
                        width == image.width,
                        width > 0,
                ;
                assert((i % width) * 30 <= MAX_DIM && (i / width) * 30 <= MAX_DIM)
                    by (nonlinear_arith)
                    requires
                        0 <= i % width < image.width,
                        0 <= i / width < image.height,
                        image.width * 30 <= MAX_DIM,
                        image.height * 30 <= MAX_DIM,
                ;
            }
            let x = ((i % width) as u32) * GLYPH_CELL;
            let y = ((i / width) as u32) * GLYPH_CELL;
            let placement = Placement { x, y, glyph: matrix_glyph(pick), color: px };
            assert(placement@ == placement_at(image@, picks@, i as int));
            let ghost before = placement_views(placements@);
            placements.push(placement);
            assert(placement_views(placements@) =~= before.push(placement@));
        }
        i = i + 1;
    }
    Ok(placements)
}

/// A drawing surface without alpha owned by the rendering backend, a
/// `ril::Image` of `ril::Rgb` pixels: known only by its dimensions below.
#[verifier::external_body]
pub struct GlyphCanvas {
    inner: ril::Image<ril::Rgb>,
}

/// The pixels of a glyph canvas, row by row, each taken as opaque.
pub uninterp spec fn glyph_canvas_pixels(canvas: GlyphCanvas) -> Seq<Rgba>;

/// The width of a glyph canvas.
pub uninterp spec fn glyph_canvas_width(canvas: GlyphCanvas) -> nat;

/// The height of a glyph canvas.
pub uninterp spec fn glyph_canvas_height(canvas: GlyphCanvas) -> nat;

/// The content of a glyph canvas.
pub open spec fn glyph_canvas_raster(canvas: GlyphCanvas) -> Raster {
    Raster {
        width: glyph_canvas_width(canvas),
        height: glyph_canvas_height(canvas),
        pixels: glyph_canvas_pixels(canvas),
    }
}

/// Whether every pixel of a sequence is opaque.
pub open spec fn all_opaque(pixels: Seq<Rgba>) -> bool {
    forall|i: int| 0 <= i < pixels.len() ==> (#[trigger] pixels[i]).a == 255
}

/// A colour with its alpha set to opaque.
pub open spec fn opaque(color: Rgba) -> Rgba {
    Rgba { r: color.r, g: color.g, b: color.b, a: 255 }
}

/// Makes a canvas of the given size through `ril::Image::new`, every pixel
/// of the colour `ground` without its alpha.
#[verifier::external_body]
fn glyph_canvas(width: u32, height: u32, ground: Rgba) -> (canvas: GlyphCanvas)
    requires
        1 <= width <= MAX_DIM,
        1 <= height <= MAX_DIM,
    ensures
        glyph_canvas_raster(canvas) == Raster::filled(
            width as nat,
            height as nat,
            opaque(ground),
        ),
{
    let fill = ril::Rgb::new(ground.r, ground.g, ground.b);
    GlyphCanvas { inner: ril::Image::new(width, height, fill) }
}

/// The pixels of `canvas` after `glyph` was drawn on it in `font`, laid out
/// from `(x, y)` without wrapping, in the red, green and blue of `color`.
pub uninterp spec fn glyph_drawn(
    canvas: Raster,
    font: ril::Font,
    glyph: Seq<char>,
    x: nat,
    y: nat,
    color: Rgba,
) -> Seq<Rgba>;

/// Draws one glyph through `ril::Image::draw` of a `ril::TextLayout` placed at
/// `(x, y)`, in the colour's red, green and blue. The contract claims that
/// the canvas keeps its size and its number of pixels, all opaque, and that
/// its pixels afterwards depend on nothing but its content before, the font,
/// the glyph, the position and the colour.
#[verifier::external_body]
fn draw_glyph(canvas: &mut GlyphCanvas, font: &ril::Font, glyph: &str, x: u32, y: u32, color: Rgba)
    requires
        x <= MAX_DIM,
        y <= MAX_DIM,
    ensures
        glyph_canvas_width(*final(canvas)) == glyph_canvas_width(*old(canvas)),
        glyph_canvas_height(*final(canvas)) == glyph_canvas_height(*old(canvas)),
        glyph_canvas_pixels(*final(canvas)).len() == glyph_canvas_pixels(*old(canvas)).len(),
        all_opaque(glyph_canvas_pixels(*final(canvas))),
        glyph_canvas_pixels(*final(canvas)) == glyph_drawn(
            glyph_canvas_raster(*old(canvas)),
            *font,
            glyph@,
            x as nat,
            y as nat,
            color,
        ),
{
    let layout = ril::TextLayout::new()
        .with_wrap(ril::WrapStyle::None)
        .with_position(x, y)
        .with_basic_text(font, glyph, ril::Rgb::new(color.r, color.g, color.b));
    canvas.inner.draw(&layout);
}

/// Copies the pixels out of a glyph canvas, reading `ril::Image::data` and
/// giving each pixel alpha through `ril::Rgba::from_rgb`.
#[verifier::external_body]
fn glyph_canvas_image(canvas: &GlyphCanvas) -> (out: Image)
    ensures
        out@ == glyph_canvas_raster(*canvas),
{
    let opaque = canvas.inner.data.iter().map(|p| ril::Rgba::from_rgb(*p));
    let pixels = opaque.map(|p| Rgba { r: p.r, g: p.g, b: p.b, a: p.a }).collect();
    Image { width: canvas.inner.width(), height: canvas.inner.height(), pixels }
}

/// `frame` has the shape of a glyph-rain frame of `source`: the cell size
/// times as wide and as high, and opaque throughout.
pub open spec fn is_matrix_frame(frame: Raster, source: Raster) -> bool {
    &&& frame.wf()
    &&& frame.width == source.width * GLYPH_CELL
    &&& frame.height == source.height * GLYPH_CELL
    &&& all_opaque(frame.pixels)
}

/// The canvas `ground` after the glyphs of `placements` were drawn on it in
/// `font`, one after the other.
pub open spec fn rained(ground: Raster, font: ril::Font, placements: Seq<PlacementView>) -> Raster
    decreases placements.len(),
{
    if placements.len() == 0 {
        ground
    } else {
        let before = rained(ground, font, placements.drop_last());
        let last = placements.last();
        Raster {
            width: before.width,
            height: before.height,
            pixels: glyph_drawn(before, font, last.glyph, last.x, last.y, last.color),
        }
    }
}

/// The frame of glyph rain of an image for given picks: a black canvas the
/// cell size times as large as the image, on which the glyph of every
/// visible pixel was drawn at the pixel's cell, in the pixel's colour, in
/// row-major order.
pub open spec fn matrix_frame_of(image: Raster, font: ril::Font, picks: Seq<u32>) -> Raster {
    rained(
        Raster::filled(
            (image.width * GLYPH_CELL) as nat,
            (image.height * GLYPH_CELL) as nat,
            Rgba::spec_black(),
        ),
        font,
        placements_upto(image, picks, image.pixels.len()),
    )
}

/// Whether an image has no pixel with alpha above zero.
pub open spec fn fully_transparent(image: Raster) -> bool {
    forall|i: int| 0 <= i < image.pixels.len() ==> (#[trigger] image.pixels[i]).a == 0
}

/// An image without a visible pixel has no placements.
pub proof fn lemma_no_placements(image: Raster, picks: Seq<u32>, n: nat)
    requires
        fully_transparent(image),
        n <= image.pixels.len(),
    ensures
        placements_upto(image, picks, n).len() == 0,
    decreases n,
{
    if n > 0 {
        lemma_no_placements(image, picks, (n - 1) as nat);
    }
}

/// The frame of an image without a visible pixel is black throughout,
/// whatever the picks.
pub proof fn lemma_hidden_image_rains_nothing(image: Raster, font: ril::Font, picks: Seq<u32>)
    requires
        fully_transparent(image),
    ensures
        matrix_frame_of(image, font, picks) == Raster::filled(
            (image.width * GLYPH_CELL) as nat,
            (image.height * GLYPH_CELL) as nat,
            Rgba::spec_black(),
        ),
{
    lemma_no_placements(image, picks, image.pixels.len());
}

/// A pick below ten selects the digit of its value.
pub proof fn lemma_low_picks_are_digits(pick: nat)
    requires
        pick < 10,
    ensures
        glyph_sample()[pick as int] == (('0' as u8) + pick) as char,
{
    reveal_strlit(
        "0123456789abcdefghijklmnopqrstuvwxyzABCDEFGHIJKLMNOPQRSTUVWXYZ!\"#$%&'()*+,-./:;<=>?@[\\]^_`{|}~ \t\n\r\x0b\x0c",
    );
}

/// Whether [`matrix_frame`] rejects its arguments.
pub open spec fn matrix_frame_rejects(image: Raster, picks: Seq<u32>, num_only: bool) -> bool {
    image.width == 0 || image.height == 0 || placements_reject(image, picks, num_only)
}

/// Renders one frame of glyph rain from given picks: a black canvas the cell
/// size times as large as the image, with the planned glyphs drawn in order.
///
/// Fails with `InvalidInput` exactly when the image has a zero side or
/// [`glyph_placements`] rejects the arguments.
pub fn matrix_frame(image: &Image, font: &ril::Font, picks: &Vec<u32>, num_only: bool) -> (res:
    Result<Image, TranscodeError>)
    requires
        image.wf(),
    ensures
        res is Err <==> matrix_frame_rejects(image@, picks@, num_only),
        res matches Err(e) ==> e == TranscodeError::InvalidInput,
        res matches Ok(frame) ==> is_matrix_frame(frame@, image@) && frame@ == matrix_frame_of(
            image@,
            *font,
            picks@,
        ),
{
    if image.width == 0 || image.height == 0 {
        return Err(TranscodeError::InvalidInput);
    }
    let placements = match glyph_placements(image, picks, num_only) {
        Ok(placements) => placements,
        Err(e) => {
            return Err(e);
        },
    };
    proof {
        crate::image::lemma_area_bound(
            (image.width * GLYPH_CELL) as int,
            (image.height * GLYPH_CELL) as int,
        );
    }
    let width = image.width * GLYPH_CELL;
    let height = image.height * GLYPH_CELL;
    let mut canvas = glyph_canvas(width, height, Rgba::black());
    let ghost ground = glyph_canvas_raster(canvas);
    let ghost plan = placement_views(placements@);
    let mut i: usize = 0;
    assert(plan.take(0) =~= Seq::empty());
    while i < placements.len()
        invariant
            i <= placements@.len(),
            plan == placement_views(placements@),
            forall|k: int|
                0 <= k < placements@.len() ==> (#[trigger] placements@[k]).x <= MAX_DIM
                    && placements@[k].y <= MAX_DIM,
            glyph_canvas_width(canvas) == width,
            glyph_canvas_height(canvas) == height,
            glyph_canvas_pixels(canvas).len() == width * height,
            all_opaque(glyph_canvas_pixels(canvas)),
            glyph_canvas_raster(canvas) == rained(ground, *font, plan.take(i as int)),
        decreases placements@.len() - i,
    {
        let placement = &placements[i];
        proof {
            let next = plan.take(i + 1);
            assert(next.drop_last() =~= plan.take(i as int));
            assert(next.last() == placements@[i as int]@);
        }
        draw_glyph(
            &mut canvas,
            font,
            placement.glyph.as_str(),
            placement.x,
            placement.y,
            placement.color,
        );
        i = i + 1;
    }
    assert(plan.take(placements@.len() as int) =~= plan);
    Ok(glyph_canvas_image(&canvas))
}

/// The number of glyphs on the longer side of a glyph rain.
pub open spec fn matrix_size(option: MatrixOption) -> nat {
    match option.size {
        Some(size) => size as nat,
        None => 80,
    }
}

/// Whether a glyph rain draws digits only.
pub open spec fn matrix_digits(option: MatrixOption) -> bool {
    match option.num_only {
        Some(num_only) => num_only,
        None => false,
    }
}

/// `frame` is a frame of glyph rain of `source`: there are picks, one for
/// every pixel and each within the range of the alphabet, of which it is the
/// frame.
pub open spec fn is_rain_frame(
    frame: Raster,
    source: Raster,
    font: ril::Font,
    num_only: bool,
) -> bool {
    &&& is_matrix_frame(frame, source)
    &&& exists|picks: Seq<u32>|
        {
            &&& picks.len() == source.pixels.len()
            &&& forall|k: int| 0 <= k < picks.len() ==> #[trigger] picks[k] < pick_range(num_only)
            &&& frame == #[trigger] matrix_frame_of(source, font, picks)
        }
}

/// Builds an animated glyph rain: the source is resized so that its longer
/// side has the requested number of glyphs (80 unless given), and five
/// frames are rendered, each with picks of its own for every pixel: any
/// glyph of the sample, or a digit where digits only are asked for.
///
/// Fails with `InvalidInput` exactly when the source has a zero side or the
/// requested size is zero.
pub fn matrix(image: Image, font: &ril::Font, option: MatrixOption) -> (res: Result<
    Vec<Image>,
    TranscodeError,
>)
    requires
        image.wf(),
    ensures
        res is Err <==> resize_rejects(image@, matrix_size(option)),
        res matches Err(e) ==> e == TranscodeError::InvalidInput,
        res matches Ok(frames) ==> {
            &&& frames@.len() == MATRIX_FRAMES
            &&& forall|i: int|
                0 <= i < frames@.len() ==> is_rain_frame(
                    (#[trigger] frames@[i])@,
                    resized_raster(image@, matrix_size(option), ResizeAlgorithm::Bilinear),
                    *font,
                    matrix_digits(option),
                )
        },
{
    let size: u32 = match option.size {
        Some(size) => size as u32,
        None => 80,
    };
    let num_only: bool = match option.num_only {
        Some(num_only) => num_only,
        None => false,
    };
    let ghost given = image@;
    let source = match resize_to(image, size) {
        Ok(source) => source,
        Err(e) => {
            return Err(e);
        },
    };
    proof {
        lemma_fitted_dimensions(given.width, given.height, size as nat);
        assert(source.width * 30 <= 255 * 30 && source.height * 30 <= 255 * 30)
            by (nonlinear_arith)
            requires
                source.width <= 255,
                source.height <= 255,
        ;
    }
    let limit = pick_limit(num_only);
    let n = source.pixels.len();
    let mut frames: Vec<Image> = Vec::new();
    let mut f: usize = 0;
    while f < MATRIX_FRAMES
        invariant
            source.wf(),
            source.width >= 1,
            source.height >= 1,
            source.width * GLYPH_CELL <= MAX_DIM,
            source.height * GLYPH_CELL <= MAX_DIM,
            n == source.pixels@.len(),
            limit == pick_range(num_only),
            f <= MATRIX_FRAMES,
            frames@.len() == f,
            forall|i: int|
                0 <= i < f ==> is_rain_frame((#[trigger] frames@[i])@, source@, *font, num_only),
        decreases MATRIX_FRAMES - f,
    {
        let mut picks: Vec<u32> = Vec::new();
        let mut i: usize = 0;
        while i < n
            invariant
                limit == pick_range(num_only),
                i <= n,
                picks@.len() == i,
                forall|k: int| 0 <= k < i ==> #[trigger] picks@[k] < limit,
            decreases n - i,
        {
            picks.push(random_in_range(0, limit));
            i = i + 1;
        }
        let frame = matrix_frame(&source, font, &picks, num_only).unwrap();
        assert(is_rain_frame(frame@, source@, *font, num_only)) by {
            assert(frame@ == matrix_frame_of(source@, *font, picks@));
        }
        frames.push(frame);
        f = f + 1;
    }
    Ok(frames)
}

} // verus!
