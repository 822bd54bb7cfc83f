//! Stipple rendering: a frame is built from primitives drawn at sampled
//! points, each in the colour of the source at its point.

use crate::image::{lemma_area_bound, Image, Raster, Rgba, TranscodeError, MAX_DIM};
use crate::models::ShapesOption;
use crate::resize::{resize_rejects, resize_to, resized_raster, ResizeAlgorithm};
use rand::Rng;
use vstd::prelude::*;

verus! {

/// The primitive that a stipple frame is made of.
#[derive(Clone, Copy, Debug, PartialEq, Eq, Structural)]
pub enum ShapeMethod {
    /// A line from one corner of the bounding box to the opposite one.
    Line,
    /// A filled ellipse with a thin black outline.
    Ball,
    /// A filled rectangle.
    Square,
}

/// The longest side a primitive's bounding box can have.
pub const MAX_BOX: u32 = 510;

/// The bounding box of a primitive of half-size `size` centred at `(x, y)`:
/// left, top, right, bottom, the first two cut off at zero.
pub open spec fn primitive_box(x: nat, y: nat, size: nat) -> (nat, nat, nat, nat) {
    (
        if x >= size {
            (x - size) as nat
        } else {
            0
        },
        if y >= size {
            (y - size) as nat
        } else {
            0
        },
        x + size,
        y + size,
    )
}

/// Computes the bounding box of a primitive.
pub fn bounding_box(x: u32, y: u32, size: u8) -> (bbox: (u32, u32, u32, u32))
    requires
        x <= MAX_DIM,
        y <= MAX_DIM,
    ensures
        (bbox.0 as nat, bbox.1 as nat, bbox.2 as nat, bbox.3 as nat) == primitive_box(
            x as nat,
            y as nat,
            size as nat,
        ),
{
    let size = size as u32;
    (
        if x >= size {
            x - size
        } else {
            0
        },
        if y >= size {
            y - size
        } else {
            0
        },
        x + size,
        y + size,
    )
}

/// A drawing surface owned by the rendering backend, a `ril::Image` of
/// `ril::Rgba` pixels: known only by its pixels and dimensions below.
#[verifier::external_body]
pub struct Canvas {
    inner: ril::Image<ril::Rgba>,
}

/// The pixels of a canvas, row by row.
pub uninterp spec fn canvas_pixels(canvas: Canvas) -> Seq<Rgba>;

/// The width of a canvas.
pub uninterp spec fn canvas_width(canvas: Canvas) -> nat;

/// The height of a canvas.
pub uninterp spec fn canvas_height(canvas: Canvas) -> nat;

/// The content of a canvas.
pub open spec fn canvas_raster(canvas: Canvas) -> Raster {
    Raster {
        width: canvas_width(canvas),
        height: canvas_height(canvas),
        pixels: canvas_pixels(canvas),
    }
}

/// The pixels of `canvas` after a one-pixel line from `(x1, y1)` to
/// `(x2, y2)` in the colour `fill` was drawn on it.
pub uninterp spec fn line_drawn(
    canvas: Raster,
    x1: nat,
    y1: nat,
    x2: nat,
    y2: nat,
    fill: Rgba,
) -> Seq<Rgba>;

/// The pixels of `canvas` after an ellipse inscribed in the box from
/// `(x1, y1)` to `(x2, y2)`, filled with `fill` and outlined in the colour
/// `border`, `thickness` pixels wide on its outside, was drawn on it.
pub uninterp spec fn ball_drawn(
    canvas: Raster,
    x1: nat,
    y1: nat,
    x2: nat,
    y2: nat,
    fill: Rgba,
    border: Rgba,
    thickness: nat,
) -> Seq<Rgba>;

/// The thickness of the outline of a ball.
pub const BALL_BORDER: u32 = 1;

/// Whether the position `(cx, cy)` lies outside the box from `(x1, y1)` to
/// `(x2, y2)` widened by `margin` on every side.
pub open spec fn outside_box(
    cx: int,
    cy: int,
    x1: nat,
    y1: nat,
    x2: nat,
    y2: nat,
    margin: nat,
) -> bool {
    cx + margin < x1 || cx > x2 + margin || cy + margin < y1 || cy > y2 + margin
}

/// Every pixel of a canvas `width` wide that lies outside the box widened by
/// `margin` is in `after` what it was in `before`.
pub open spec fn kept_outside(
    before: Seq<Rgba>,
    after: Seq<Rgba>,
    width: nat,
    x1: nat,
    y1: nat,
    x2: nat,
    y2: nat,
    margin: nat,
) -> bool {
    forall|i: int|
        0 <= i < after.len() && width > 0 && outside_box(
            i % (width as int),
            i / (width as int),
            x1,
            y1,
            x2,
            y2,
            margin,
        ) ==> #[trigger] after[i] == before[i]
}

/// The pixels of `canvas` after the rectangle from `(x1, y1)` to `(x2, y2)`,
/// right and bottom excluded, was filled with `fill`.
pub open spec fn square_drawn(
    canvas: Raster,
    x1: nat,
    y1: nat,
    x2: nat,
    y2: nat,
    fill: Rgba,
) -> Seq<Rgba> {
    Seq::new(
        canvas.pixels.len(),
        |i: int|
            if canvas.width > 0 && x1 <= i % (canvas.width as int) < x2 && y1 <= i / (
            canvas.width as int) < y2 {
                fill
            } else {
                canvas.pixels[i]
            },
    )
}

/// Makes a canvas through `ril::Image::new`: of the given size, every pixel
/// of the colour `fill`.
#[verifier::external_body]
fn new_canvas(width: u32, height: u32, fill: Rgba) -> (canvas: Canvas)
    requires
        1 <= width <= MAX_DIM,
        1 <= height <= MAX_DIM,
    ensures
        canvas_raster(canvas) == Raster::filled(width as nat, height as nat, fill),
{
    let color = ril::Rgba::new(fill.r, fill.g, fill.b, fill.a);
    Canvas { inner: ril::Image::new(width, height, color) }
}

/// Whether a box has corners that the rendering backend can take.
pub open spec fn box_in_reach(x1: u32, y1: u32, x2: u32, y2: u32) -> bool {
    &&& x1 <= x2 <= 2 * MAX_DIM
    &&& y1 <= y2 <= 2 * MAX_DIM
    &&& x2 - x1 <= MAX_BOX
    &&& y2 - y1 <= MAX_BOX
}

/// Draws a `ril::Line` of thickness one. The contract claims that the canvas
/// keeps its size, that its pixels afterwards depend on nothing but its
/// content before, the end points and the colour, and that every pixel more
/// than one position outside the box of the end points stays as it was.
#[verifier::external_body]
fn draw_line(canvas: &mut Canvas, x1: u32, y1: u32, x2: u32, y2: u32, fill: Rgba)
    requires
        box_in_reach(x1, y1, x2, y2),
    ensures
        canvas_width(*final(canvas)) == canvas_width(*old(canvas)),
        canvas_height(*final(canvas)) == canvas_height(*old(canvas)),
        canvas_pixels(*final(canvas)).len() == canvas_pixels(*old(canvas)).len(),
        canvas_pixels(*final(canvas)) == line_drawn(
            canvas_raster(*old(canvas)),
            x1 as nat,
            y1 as nat,
            x2 as nat,
            y2 as nat,
            fill,
        ),
        kept_outside(
            canvas_pixels(*old(canvas)),
            canvas_pixels(*final(canvas)),
            canvas_width(*old(canvas)),
            x1 as nat,
            y1 as nat,
            x2 as nat,
            y2 as nat,
            1,
        ),
{
    let color = ril::Rgba::new(fill.r, fill.g, fill.b, fill.a);
    canvas.inner.draw(&ril::Line::new((x1, y1), (x2, y2), color));
}

/// Draws a `ril::Ellipse` made from a bounding box, with a fill and with a
/// `ril::Border` of the given colour and thickness on its outside. The
/// contract claims that the canvas keeps its size, that its pixels afterwards
/// depend on nothing but its content before, the box, the colours and the
/// thickness, and that every pixel further outside the box than the border
/// is thick stays as it was.
#[verifier::external_body]
fn draw_ball(
    canvas: &mut Canvas,
    x1: u32,
    y1: u32,
    x2: u32,
    y2: u32,
    fill: Rgba,
    border: Rgba,
    thickness: u32,
)
    requires
        box_in_reach(x1, y1, x2, y2),
        x2 - x1 >= 2 || y2 - y1 >= 2,
        1 <= thickness <= MAX_BOX,
    ensures
        canvas_width(*final(canvas)) == canvas_width(*old(canvas)),
        canvas_height(*final(canvas)) == canvas_height(*old(canvas)),
        canvas_pixels(*final(canvas)).len() == canvas_pixels(*old(canvas)).len(),
        canvas_pixels(*final(canvas)) == ball_drawn(
            canvas_raster(*old(canvas)),
            x1 as nat,
            y1 as nat,
            x2 as nat,
            y2 as nat,
            fill,
            border,
            thickness as nat,
        ),
        kept_outside(
            canvas_pixels(*old(canvas)),
            canvas_pixels(*final(canvas)),
            canvas_width(*old(canvas)),
            x1 as nat,
            y1 as nat,
            x2 as nat,
            y2 as nat,
            thickness as nat,
        ),
{
    let color = ril::Rgba::new(fill.r, fill.g, fill.b, fill.a);
    let edge = ril::Rgba::new(border.r, border.g, border.b, border.a);
    let ball = ril::Ellipse::from_bounding_box(x1, y1, x2, y2)
        .with_border(ril::Border::new(edge, thickness))
        .with_fill(color);
    canvas.inner.draw(&ball);
}

/// Draws a filled `ril::Rectangle` made from a bounding box: every pixel of
/// the canvas inside the box, right and bottom excluded, takes the fill
/// colour, and every other pixel stays.
#[verifier::external_body]
fn draw_square(canvas: &mut Canvas, x1: u32, y1: u32, x2: u32, y2: u32, fill: Rgba)
    requires
        box_in_reach(x1, y1, x2, y2),
        x2 > x1 || y2 > y1,
    ensures
        canvas_width(*final(canvas)) == canvas_width(*old(canvas)),
        canvas_height(*final(canvas)) == canvas_height(*old(canvas)),
        canvas_pixels(*final(canvas)) == square_drawn(
            canvas_raster(*old(canvas)),
            x1 as nat,
            y1 as nat,
            x2 as nat,
            y2 as nat,
            fill,
        ),
{
    let color = ril::Rgba::new(fill.r, fill.g, fill.b, fill.a);
    canvas.inner.draw(&ril::Rectangle::from_bounding_box(x1, y1, x2, y2).with_fill(color));
}

/// Copies the pixels out of a canvas, reading `ril::Image::data`.
#[verifier::external_body]
fn canvas_image(canvas: &Canvas) -> (out: Image)
    ensures
        out@ == canvas_raster(*canvas),
{
    let pixels =
        canvas.inner.data.iter().map(|p| Rgba { r: p.r, g: p.g, b: p.b, a: p.a }).collect();
    Image { width: canvas.inner.width(), height: canvas.inner.height(), pixels }
}

/// Draws one number from `low..high` through `rand::Rng::gen_range` on the
/// thread's generator. The contract claims only that the number lies in the
/// range.
#[verifier::external_body]
pub(crate) fn random_in_range(low: u32, high: u32) -> (n: u32)
    requires
        low < high,
    ensures
        low <= n < high,
{
    rand::thread_rng().gen_range(low..high)
}

/// The canvas after one primitive of the given kind was drawn into the box
/// `bbox` in the colour `fill`; a ball has a black outline one pixel wide.
pub open spec fn drawn(
    canvas: Raster,
    method: ShapeMethod,
    bbox: (nat, nat, nat, nat),
    fill: Rgba,
) -> Raster {
    Raster {
        width: canvas.width,
        height: canvas.height,
        pixels: match method {
            ShapeMethod::Line => line_drawn(canvas, bbox.0, bbox.1, bbox.2, bbox.3, fill),
            ShapeMethod::Ball => ball_drawn(
                canvas,
                bbox.0,
                bbox.1,
                bbox.2,
                bbox.3,
                fill,
                Rgba::spec_black(),
                BALL_BORDER as nat,
            ),
            ShapeMethod::Square => square_drawn(canvas, bbox.0, bbox.1, bbox.2, bbox.3, fill),
        },
    }
}

/// The stipple frame of `source` for a sequence of points: a transparent
/// canvas of the source's size on which, for each point in turn, one
/// primitive of half-size `size` centred at the point was drawn in the colour
/// that the source has there.
pub open spec fn stippled(
    source: Raster,
    method: ShapeMethod,
    size: nat,
    points: Seq<(u32, u32)>,
) -> Raster
    decreases points.len(),
{
    if points.len() == 0 {
        Raster::filled(source.width, source.height, Rgba::spec_transparent())
    } else {
        let (x, y) = points.last();
        drawn(
            stippled(source, method, size, points.drop_last()),
            method,
            primitive_box(x as nat, y as nat, size),
            source.at(x as int, y as int),
        )
    }
}

/// Whether the position `(cx, cy)` is more than the half-size plus one away
/// from `point` along a row or along a column.
pub open spec fn clear_of(point: (u32, u32), size: nat, cx: int, cy: int) -> bool {
    ||| cx > point.0 + size + 1
    ||| cx + size + 1 < point.0
    ||| cy > point.1 + size + 1
    ||| cy + size + 1 < point.1
}

/// Whether the position `(cx, cy)` is clear of every point.
pub open spec fn clear_of_all(points: Seq<(u32, u32)>, size: nat, cx: int, cy: int) -> bool {
    forall|k: int| 0 <= k < points.len() ==> clear_of(#[trigger] points[k], size, cx, cy)
}

/// Every pixel of `frame` that is clear of every point is fully transparent:
/// no primitive reaches further than one position beyond its box.
pub open spec fn far_pixels_clear(frame: Raster, points: Seq<(u32, u32)>, size: nat) -> bool {
    forall|i: int|
        0 <= i < frame.pixels.len() && frame.width > 0 && clear_of_all(
            points,
            size,
            i % (frame.width as int),
            i / (frame.width as int),
        ) ==> #[trigger] frame.pixels[i] == Rgba::spec_transparent()
}

/// Whether `point` is an interior point of a `width` by `height` grid: at
/// least one pixel away from the left and the top edge, and inside.
pub open spec fn is_interior(point: (u32, u32), width: nat, height: nat) -> bool {
    1 <= point.0 < width && 1 <= point.1 < height
}

/// Whether every point of the sequence is an interior point.
pub open spec fn all_interior(points: Seq<(u32, u32)>, width: nat, height: nat) -> bool {
    forall|i: int| 0 <= i < points.len() ==> is_interior(#[trigger] points[i], width, height)
}

/// Whether a primitive of this kind and half-size has no extent to draw.
pub open spec fn primitive_degenerate(method: ShapeMethod, size: nat) -> bool {
    size == 0 && method != ShapeMethod::Line
}

/// Whether [`render_stipple_frame`] rejects its arguments.
pub open spec fn frame_rejects(
    source: Raster,
    method: ShapeMethod,
    size: nat,
    points: Seq<(u32, u32)>,
) -> bool {
    ||| source.width == 0
    ||| source.height == 0
    ||| points.len() > 0 && primitive_degenerate(method, size)
    ||| !all_interior(points, source.width, source.height)
}

/// A stipple frame keeps the size of its source and has one pixel per position.
pub proof fn lemma_stippled_size(
    source: Raster,
    method: ShapeMethod,
    size: nat,
    points: Seq<(u32, u32)>,
)
    ensures
        stippled(source, method, size, points).width == source.width,
        stippled(source, method, size, points).height == source.height,
    decreases points.len(),
{
    if points.len() > 0 {
        lemma_stippled_size(source, method, size, points.drop_last());
    }
}

/// Without a single draw, the frame is a fully transparent canvas of the
/// source's size.
pub proof fn lemma_no_draws_is_transparent(source: Raster, method: ShapeMethod, size: nat)
    ensures
        stippled(source, method, size, Seq::empty()) == Raster::filled(
            source.width,
            source.height,
            Rgba::spec_transparent(),
        ),
{
}

/// Renders one stipple frame from given points: on a transparent canvas of
/// the source's size, one primitive per point, in the order of the points,
/// each in the colour of the source at its point.
///
/// Fails with `InvalidInput` exactly when the source has a zero side, a
/// point is not an interior point of the source, or there is a point to draw
/// and the primitive is a ball or a square of half-size zero.
pub fn render_stipple_frame(
    image: &Image,
    method: ShapeMethod,
    size: u8,
    points: &Vec<(u32, u32)>,
) -> (res: Result<Image, TranscodeError>)
    requires
        image.wf(),
    ensures
        res is Err <==> frame_rejects(image@, method, size as nat, points@),
        res matches Err(e) ==> e == TranscodeError::InvalidInput,
        res matches Ok(frame) ==> {
            &&& frame.wf()
            &&& frame@ == stippled(image@, method, size as nat, points@)
            &&& far_pixels_clear(frame@, points@, size as nat)
        },
{
    if image.width == 0 || image.height == 0 {
        return Err(TranscodeError::InvalidInput);
    }
    let degenerate = size == 0 && method != ShapeMethod::Line;
    if points.len() > 0 && degenerate {
        return Err(TranscodeError::InvalidInput);
    }
    let mut canvas = new_canvas(image.width, image.height, Rgba::transparent());
    let mut i: usize = 0;
    assert(points@.take(0) =~= Seq::empty());
    proof {
        lemma_area_bound(image.width as int, image.height as int);
    }
    while i < points.len()
        invariant
            image.wf(),
            image.width >= 1,
            image.height >= 1,
            degenerate == primitive_degenerate(method, size as nat),
            points@.len() > 0 ==> !degenerate,
            i <= points@.len(),
            all_interior(points@.take(i as int), image@.width, image@.height),
            canvas_raster(canvas) == stippled(image@, method, size as nat, points@.take(i as int)),
            canvas_pixels(canvas).len() == image.width * image.height,
            canvas_width(canvas) == image.width,
            far_pixels_clear(canvas_raster(canvas), points@.take(i as int), size as nat),
        decreases points@.len() - i,
    {
        let (x, y) = points[i];
        if x < 1 || x >= image.width || y < 1 || y >= image.height {
            proof {
                assert(!is_interior(points@[i as int], image@.width, image@.height));
            }
            return Err(TranscodeError::InvalidInput);
        }
        let fill = image.pixel(x, y);
        let (x1, y1, x2, y2) = bounding_box(x, y, size);
        let ghost before = canvas_raster(canvas);
        match method {
            ShapeMethod::Line => draw_line(&mut canvas, x1, y1, x2, y2, fill),
            ShapeMethod::Ball => draw_ball(
                &mut canvas,
                x1,
                y1,
                x2,
                y2,
                fill,
                Rgba::black(),
                BALL_BORDER,
            ),
            ShapeMethod::Square => draw_square(&mut canvas, x1, y1, x2, y2, fill),
        }
        proof {
            let next = points@.take(i + 1);
            assert(next.drop_last() =~= points@.take(i as int));
            assert(next.last() == (x, y));
            assert(canvas_raster(canvas) == drawn(
                before,
                method,
                primitive_box(x as nat, y as nat, size as nat),
                fill,
            ));
            assert forall|k: int| 0 <= k < next.len() implies is_interior(
                #[trigger] next[k],
                image@.width,
                image@.height,
            ) by {
                if k < i {
                    assert(points@.take(i as int)[k] == next[k]);
                }
            }
            let after = canvas_raster(canvas);
            let w = image.width as int;
            assert(kept_outside(
                before.pixels,
                after.pixels,
                before.width,
                x1 as nat,
                y1 as nat,
                x2 as nat,
                y2 as nat,
                1,
            ));
            assert forall|j: int|
                0 <= j < after.pixels.len() && clear_of_all(
                    next,
                    size as nat,
                    j % w,
                    j / w,
                ) implies #[trigger] after.pixels[j] == Rgba::spec_transparent() by {
                let earlier = points@.take(i as int);
                assert forall|k: int| 0 <= k < earlier.len() implies clear_of(
                    #[trigger] earlier[k],
                    size as nat,
                    j % w,
                    j / w,
                ) by {
                    assert(earlier[k] == next[k]);
                }
                assert(before.pixels[j] == Rgba::spec_transparent());
                assert(clear_of(next[i as int], size as nat, j % w, j / w));
                assert(outside_box(j % w, j / w, x1 as nat, y1 as nat, x2 as nat, y2 as nat, 1));
            }
        }
        i = i + 1;
    }
    proof {
        assert(points@.take(points@.len() as int) =~= points@);
        lemma_stippled_size(image@, method, size as nat, points@);
    }
    Ok(canvas_image(&canvas))
}

/// The half-size of the primitives that [`gen_shape_frame`] draws.
pub open spec fn shape_size(size: Option<u8>) -> nat {
    match size {
        Some(size) => size as nat,
        None => 10,
    }
}

/// The number of primitives that [`gen_shape_frame`] draws.
pub open spec fn shape_density(density: Option<u32>) -> nat {
    match density {
        Some(density) => density as nat,
        None => 10000,
    }
}

/// Whether [`gen_shape_frame`] rejects its arguments.
pub open spec fn shape_frame_rejects(
    source: Raster,
    method: ShapeMethod,
    size: nat,
    density: nat,
) -> bool {
    ||| source.width == 0
    ||| source.height == 0
    ||| density > 0 && (source.width < 2 || source.height < 2 || primitive_degenerate(
        method,
        size,
    ))
}

/// `frame` is a stipple frame of `source` with exactly `density` primitives,
/// drawn at interior points, outside the reach of which it is transparent.
pub open spec fn is_stipple_frame(
    frame: Raster,
    source: Raster,
    method: ShapeMethod,
    size: nat,
    density: nat,
) -> bool {
    exists|points: Seq<(u32, u32)>|
        {
            &&& points.len() == density
            &&& all_interior(points, source.width, source.height)
            &&& frame == #[trigger] stippled(source, method, size, points)
            &&& far_pixels_clear(frame, points, size)
        }
}

/// A stipple frame with no primitive at all is a fully transparent canvas of
/// the size of its source.
pub proof fn lemma_frame_without_draws(
    frame: Raster,
    source: Raster,
    method: ShapeMethod,
    size: nat,
)
    requires
        is_stipple_frame(frame, source, method, size, 0),
    ensures
        frame == Raster::filled(source.width, source.height, Rgba::spec_transparent()),
{
    let points = choose|points: Seq<(u32, u32)>|
        {
            &&& points.len() == 0
            &&& all_interior(points, source.width, source.height)
            &&& frame == #[trigger] stippled(source, method, size, points)
            &&& far_pixels_clear(frame, points, size)
        };
    assert(points =~= Seq::empty());
}

/// Generates one stipple frame: `density` primitives (10000 unless given) of
/// half-size `size` (10 unless given), each centred at a uniformly sampled
/// interior point of the image and drawn in the image's colour there.
///
/// Fails with `InvalidInput` exactly when the source has a zero side, or
/// there is something to draw and the source has no interior point or the
/// primitive is a ball or a square of half-size zero.
pub fn gen_shape_frame(
    image: &Image,
    method: ShapeMethod,
    size: Option<u8>,
    density: Option<u32>,
) -> (res: Result<Image, TranscodeError>)
    requires
        image.wf(),
    ensures
        res is Err <==> shape_frame_rejects(
            image@,
            method,
            shape_size(size),
            shape_density(density),
        ),
        res matches Err(e) ==> e == TranscodeError::InvalidInput,
        res matches Ok(frame) ==> frame.wf() && is_stipple_frame(
            frame@,
            image@,
            method,
            shape_size(size),
            shape_density(density),
        ),
{
    let size: u8 = match size {
        Some(size) => size,
        None => 10,
    };
    let density: u32 = match density {
        Some(density) => density,
        None => 10000,
    };
    let mut points: Vec<(u32, u32)> = Vec::new();
    if density > 0 {
        if image.width < 2 || image.height < 2 {
            return Err(TranscodeError::InvalidInput);
        }
        if size == 0 && method != ShapeMethod::Line {
            return Err(TranscodeError::InvalidInput);
        }
        let mut i: u32 = 0;
        while i < density
            invariant
                image.width >= 2,
                image.height >= 2,
                i <= density,
                points@.len() == i,
                all_interior(points@, image@.width, image@.height),
            decreases density - i,
        {
            let x = random_in_range(1, image.width);
            let y = random_in_range(1, image.height);
            points.push((x, y));
            i = i + 1;
        }
    }
    render_stipple_frame(image, method, size, &points)
}

/// The number of frames that a stipple rendering has: three for an animated
/// sequence, which is the default, and one otherwise.
pub open spec fn frame_count(option: ShapesOption) -> nat {
    match option.gif {
        Some(false) => 1,
        _ => 3,
    }
}

/// Whether a stipple rendering rejects its source and arguments.
pub open spec fn stipple_rejects(source: Raster, method: ShapeMethod, option: ShapesOption) -> bool {
    resize_rejects(source, 360) || shape_frame_rejects(
        resized_raster(source, 360, ResizeAlgorithm::Bilinear),
        method,
        shape_size(option.block),
        shape_density(option.density),
    )
}

/// Renders a stipple composition: the source is resized so that its longer
/// side is 360 pixels, and as many frames as requested are generated from
/// it, each from samples of its own.
///
/// Fails with `InvalidInput` exactly when the source has a zero side, or
/// there is something to draw and the resized source has no interior point
/// or the primitive is a ball or a square of half-size zero.
pub fn render_stipple(image: Image, method: ShapeMethod, option: ShapesOption) -> (res: Result<
    Vec<Image>,
    TranscodeError,
>)
    requires
        image.wf(),
    ensures
        res is Err <==> stipple_rejects(image@, method, option),
        res matches Err(e) ==> e == TranscodeError::InvalidInput,
        res matches Ok(frames) ==> {
            &&& frames@.len() == frame_count(option)
            &&& forall|i: int|
                0 <= i < frames@.len() ==> (#[trigger] frames@[i]).wf() && is_stipple_frame(
                    frames@[i]@,
                    resized_raster(image@, 360, ResizeAlgorithm::Bilinear),
                    method,
                    shape_size(option.block),
                    shape_density(option.density),
                )
        },
{
    let ghost given = image@;
    let source = match resize_to(image, 360) {
        Ok(source) => source,
        Err(e) => {
            return Err(e);
        },
    };
    let count: usize = match option.gif {
        Some(false) => 1,
        _ => 3,
    };
    let mut frames: Vec<Image> = Vec::new();
    let mut i: usize = 0;
    while i < count
        invariant
            source.wf(),
            given == image@,
            !resize_rejects(given, 360),
            source@ == resized_raster(given, 360, ResizeAlgorithm::Bilinear),
            i <= count,
            frames@.len() == i,
            i > 0 ==> !shape_frame_rejects(
                source@,
                method,
                shape_size(option.block),
                shape_density(option.density),
            ),
            forall|k: int|
                0 <= k < i ==> (#[trigger] frames@[k]).wf() && is_stipple_frame(
                    frames@[k]@,
                    source@,
                    method,
                    shape_size(option.block),
                    shape_density(option.density),
                ),
        decreases count - i,
    {
        match gen_shape_frame(&source, method, option.block, option.density) {
            Ok(frame) => {
                frames.push(frame);
            },
            Err(e) => {
                return Err(e);
            },
        }
        i = i + 1;
    }
    Ok(frames)
}

/// Builds a picture out of diagonal lines.
pub fn lines(image: Image, option: ShapesOption) -> (res: Result<Vec<Image>, TranscodeError>)
    requires
        image.wf(),
    ensures
        res is Err <==> stipple_rejects(image@, ShapeMethod::Line, option),
        res matches Err(e) ==> e == TranscodeError::InvalidInput,
        res matches Ok(frames) ==> {
            &&& frames@.len() == frame_count(option)
            &&& forall|i: int|
                0 <= i < frames@.len() ==> (#[trigger] frames@[i]).wf() && is_stipple_frame(
                    frames@[i]@,
                    resized_raster(image@, 360, ResizeAlgorithm::Bilinear),
                    ShapeMethod::Line,
                    shape_size(option.block),
                    shape_density(option.density),
                )
        },
{
    render_stipple(image, ShapeMethod::Line, option)
}

/// Builds a picture out of outlined balls.
pub fn balls(image: Image, option: ShapesOption) -> (res: Result<Vec<Image>, TranscodeError>)
    requires
        image.wf(),
    ensures
        res is Err <==> stipple_rejects(image@, ShapeMethod::Ball, option),
        res matches Err(e) ==> e == TranscodeError::InvalidInput,
        res matches Ok(frames) ==> {
            &&& frames@.len() == frame_count(option)
            &&& forall|i: int|
                0 <= i < frames@.len() ==> (#[trigger] frames@[i]).wf() && is_stipple_frame(
                    frames@[i]@,
                    resized_raster(image@, 360, ResizeAlgorithm::Bilinear),
                    ShapeMethod::Ball,
                    shape_size(option.block),
                    shape_density(option.density),
                )
        },
{
    render_stipple(image, ShapeMethod::Ball, option)
}

/// Builds a picture out of squares.
pub fn squares(image: Image, option: ShapesOption) -> (res: Result<Vec<Image>, TranscodeError>)
    requires
        image.wf(),
    ensures
        res is Err <==> stipple_rejects(image@, ShapeMethod::Square, option),
        res matches Err(e) ==> e == TranscodeError::InvalidInput,
        res matches Ok(frames) ==> {
            &&& frames@.len() == frame_count(option)
            &&& forall|i: int|
                0 <= i < frames@.len() ==> (#[trigger] frames@[i]).wf() && is_stipple_frame(
                    frames@[i]@,
                    resized_raster(image@, 360, ResizeAlgorithm::Bilinear),
                    ShapeMethod::Square,
                    shape_size(option.block),
                    shape_density(option.density),
                )
        },
{
    render_stipple(image, ShapeMethod::Square, option)
}

} // verus!
