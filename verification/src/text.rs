//! Assembling a grid of glyphs into text, and rendering text onto a canvas.

use crate::braille::grid_view;
use crate::image::{Image, Raster, Rgba, TranscodeError, MAX_DIM};
use vstd::prelude::*;
use vstd::string::*;

verus! {

/// A font of the rendering backend, `ril::Font`: carried through as it is.
#[verifier::external_type_specification]
#[verifier::external_body]
pub struct ExFont(ril::Font);

/// Appends one character through `String::push`: the text grows by exactly
/// that character at its end.
#[verifier::external_body]
pub(crate) fn push_char(text: &mut String, c: char)
    ensures
        final(text)@ == old(text)@.push(c),
{
    text.push(c);
}

/// Whether `code` is a Unicode scalar value.
pub open spec fn is_scalar_value(code: u32) -> bool {
    code <= 0xD7FF || 0xE000 <= code <= 0x10FFFF
}

/// Converts a code point through `char::from_u32`: the character with that
/// code for a scalar value, nothing for any other number.
#[verifier::external_body]
pub(crate) fn char_from_code(code: u32) -> (res: Option<char>)
    ensures
        res == if is_scalar_value(code) {
            Some(code as char)
        } else {
            None
        },
{
    char::from_u32(code)
}

/// The cells of a row, one after the other.
pub open spec fn concat_cells(row: Seq<Seq<char>>) -> Seq<char>
    decreases row.len(),
{
    if row.len() == 0 {
        Seq::empty()
    } else {
        concat_cells(row.drop_last()) + row.last()
    }
}

/// The rows of a grid, each spelled out cell by cell, with a newline between
/// one row and the next.
pub open spec fn join_rows(grid: Seq<Seq<Seq<char>>>) -> Seq<char>
    decreases grid.len(),
{
    if grid.len() == 0 {
        Seq::empty()
    } else if grid.len() == 1 {
        concat_cells(grid[0])
    } else {
        join_rows(grid.drop_last()) + seq!['\n'] + concat_cells(grid.last())
    }
}

/// Spells out one row of cells.
pub fn row_text(row: &Vec<String>) -> (text: String)
    ensures
        text@ == concat_cells(crate::braille::row_view(row@)),
{
    let ghost cells = crate::braille::row_view(row@);
    let mut text = String::new();
    let mut i: usize = 0;
    assert(cells.take(0) =~= Seq::empty());
    while i < row.len()
        invariant
            i <= row@.len(),
            cells == crate::braille::row_view(row@),
            text@ == concat_cells(cells.take(i as int)),
        decreases row@.len() - i,
    {
        assert(cells.take(i + 1).drop_last() =~= cells.take(i as int));
        assert(cells.take(i + 1).last() == row@[i as int]@);
        text.append(row[i].as_str());
        i = i + 1;
    }
    assert(cells.take(row@.len() as int) =~= cells);
    text
}

/// Joins the rows of a grid into one block of text, a newline between rows.
pub fn grid_text(grid: &Vec<Vec<String>>) -> (text: String)
    ensures
        text@ == join_rows(grid_view(grid@)),
{
    let ghost rows = grid_view(grid@);
    let mut text = String::new();
    let mut r: usize = 0;
    proof {
        reveal_strlit("\n");
        assert(rows.take(0) =~= Seq::empty());
    }
    while r < grid.len()
        invariant
            r <= grid@.len(),
            rows == grid_view(grid@),
            "\n"@ == seq!['\n'],
            text@ == join_rows(rows.take(r as int)),
        decreases grid@.len() - r,
    {
        assert(rows.take(r + 1).drop_last() =~= rows.take(r as int));
        assert(rows.take(r + 1).last() == crate::braille::row_view(grid@[r as int]@));
        if r > 0 {
            text.append("\n");
        } else {
            assert(rows.take(1)[0] == rows.take(1).last());
            assert(text@ + concat_cells(rows.take(1)[0]) =~= concat_cells(rows.take(1)[0]));
        }
        let line = row_text(&grid[r]);
        text.append(line.as_str());
        r = r + 1;
    }
    assert(rows.take(grid@.len() as int) =~= rows);
    text
}

/// The width and height of the bounding box of `text` set in `font`, laid out
/// from the origin without wrapping.
pub uninterp spec fn text_extent(font: ril::Font, text: Seq<char>) -> (u32, u32);

/// The pixels, row by row, of a `width` by `height` canvas of the colour
/// `ground` after `text` was drawn on it in `font` from the origin, without
/// wrapping, in the colour `ink`.
pub uninterp spec fn text_pixels(
    font: ril::Font,
    text: Seq<char>,
    width: nat,
    height: nat,
    ink: Rgba,
    ground: Rgba,
) -> Seq<Rgba>;

/// Measures text through `ril::TextLayout::dimensions`, laid out unwrapped at
/// the origin. The contract claims that the two numbers depend on nothing but
/// the font and the text.
#[verifier::external_body]
fn measure_text(font: &ril::Font, text: &str, ink: Rgba) -> (extent: (u32, u32))
    ensures
        extent == text_extent(*font, text@),
{
    ril::TextLayout::new()
        .with_wrap(ril::WrapStyle::None)
        .with_position(0, 0)
        .with_basic_text(font, text, ril::Rgba::new(ink.r, ink.g, ink.b, ink.a))
        .dimensions()
}

/// Draws text on a canvas of the given size and colour through
/// `ril::Image::draw` of a `ril::TextLayout`. The contract claims that the
/// canvas keeps the size it was made with, and that its pixels depend on
/// nothing but the font, the text, the size and the two colours.
#[verifier::external_body]
fn render_text(
    font: &ril::Font,
    text: &str,
    width: u32,
    height: u32,
    ink: Rgba,
    ground: Rgba,
) -> (out: Image)
    requires
        1 <= width <= MAX_DIM,
        1 <= height <= MAX_DIM,
    ensures
        out.wf(),
        out.width == width,
        out.height == height,
        out.pixels@ == text_pixels(*font, text@, width as nat, height as nat, ink, ground),
{
    let layout = ril::TextLayout::new()
        .with_wrap(ril::WrapStyle::None)
        .with_position(0, 0)
        .with_basic_text(font, text, ril::Rgba::new(ink.r, ink.g, ink.b, ink.a));
    let fill = ril::Rgba::new(ground.r, ground.g, ground.b, ground.a);
    let mut canvas = ril::Image::new(width, height, fill);
    canvas.draw(&layout);
    let pixels = canvas.data.iter().map(|p| Rgba { r: p.r, g: p.g, b: p.b, a: p.a }).collect();
    Image { width, height, pixels }
}

/// Whether a measured extent can be the size of a canvas.
pub open spec fn extent_fits(extent: (u32, u32)) -> bool {
    1 <= extent.0 <= MAX_DIM && 1 <= extent.1 <= MAX_DIM
}

/// Decides the canvas size for text of a measured extent.
///
/// Fails with `RenderFailure` exactly when the extent has a zero side or
/// exceeds the dimension bound.
pub fn text_canvas_size(extent: (u32, u32)) -> (res: Result<(u32, u32), TranscodeError>)
    ensures
        res == if extent_fits(extent) {
            Ok::<(u32, u32), TranscodeError>(extent)
        } else {
            Err::<(u32, u32), TranscodeError>(TranscodeError::RenderFailure)
        },
{
    if extent.0 == 0 || extent.1 == 0 || extent.0 > MAX_DIM || extent.1 > MAX_DIM {
        Err(TranscodeError::RenderFailure)
    } else {
        Ok(extent)
    }
}

/// Whether `font` gives `text` a bounding box that a canvas can have.
pub open spec fn text_renders(font: ril::Font, text: Seq<char>) -> bool {
    extent_fits(text_extent(font, text))
}

/// The canvas of `text` written in `font`: as large as the text's bounding
/// box, white, with the text in black.
pub open spec fn text_canvas(font: ril::Font, text: Seq<char>) -> Raster {
    let (width, height) = text_extent(font, text);
    Raster {
        width: width as nat,
        height: height as nat,
        pixels: text_pixels(
            font,
            text,
            width as nat,
            height as nat,
            Rgba::spec_black(),
            Rgba::spec_white(),
        ),
    }
}

/// Writes text in black on a white canvas that is as large as the text's
/// bounding box.
///
/// Fails with `RenderFailure` exactly when the bounding box has a zero side
/// or one beyond the dimension bound.
pub fn draw_text(font: &ril::Font, text: String) -> (res: Result<Image, TranscodeError>)
    ensures
        res is Err <==> !text_renders(*font, text@),
        res matches Err(e) ==> e == TranscodeError::RenderFailure,
        res matches Ok(canvas) ==> canvas.wf() && canvas@ == text_canvas(*font, text@),
{
    let extent = measure_text(font, text.as_str(), Rgba::black());
    match text_canvas_size(extent) {
        Ok((width, height)) => Ok(
            render_text(font, text.as_str(), width, height, Rgba::black(), Rgba::white()),
        ),
        Err(e) => Err(e),
    }
}

} // verus!
