//! Block mosaics: every visible source pixel becomes one square tile.

use crate::image::{Band, Image, Raster, Rgba, TranscodeError, MAX_DIM};
use crate::models::SizeOption;
use crate::palette::{is_nearest, nearest_index, Palette};
use crate::resize::{resize_rejects, resize_to, resized_raster, ResizeAlgorithm};
use vstd::arithmetic::div_mod::lemma_fundamental_div_mod_converse;
use vstd::prelude::*;

verus! {

/// The side length of a brick tile.
pub const LEGO_SIZE: u32 = 30;

/// `v` confined to the range of a channel value.
pub open spec fn clamp_channel(v: int) -> int {
    if v < 0 {
        0
    } else if v > 255 {
        255
    } else {
        v
    }
}

/// The intensity that recolouring maps `p` to for the target value `v`:
/// shadows go a fixed step below `v`, highlights a fixed step above, and
/// midtones keep their offset from the template's neutral gray.
pub open spec fn remap_value(p: u8, v: int) -> int {
    if p < 33 {
        clamp_channel(v - 100)
    } else if p > 233 {
        clamp_channel(v + 100)
    } else {
        clamp_channel(v - 133 + p)
    }
}

/// Recolouring is monotonic in the target value for every template
/// intensity, its result is always a channel value, and at the ends of the
/// target range a midtone is cut off at the ends of the channel range.
pub proof fn lemma_remap_value(p: u8, v1: int, v2: int)
    requires
        v1 <= v2,
    ensures
        remap_value(p, v1) <= remap_value(p, v2),
        0 <= remap_value(p, v1) <= 255,
        33 <= p <= 233 ==> remap_value(p, 0) == (if p <= 133 {
            0
        } else {
            p - 133
        }),
        33 <= p <= 233 ==> remap_value(p, 255) == (if p >= 133 {
            255
        } else {
            p + 122
        }),
{
}

/// Recolours one template intensity towards `value`.
pub fn remap_intensity(p: u8, value: i32) -> (out: u8)
    requires
        0 <= value <= 255,
    ensures
        out == remap_value(p, value as int),
{
    let p = p as i32;
    let raw = if p < 33 {
        value - 100
    } else if p > 233 {
        value + 100
    } else {
        value - 133 + p
    };
    if raw < 0 {
        0
    } else if raw > 255 {
        255
    } else {
        raw as u8
    }
}

/// Recolours a texture band towards `value`, keeping the template's shading.
pub fn colorize_lego_band(image: Band, value: i32) -> (out: Band)
    requires
        0 <= value <= 255,
    ensures
        out.width == image.width,
        out.height == image.height,
        out.values@.len() == image.values@.len(),
        forall|i: int|
            0 <= i < image.values@.len() ==> out.values@[i] == remap_value(
                #[trigger] image.values@[i],
                value as int,
            ),
{
    let mut values: Vec<u8> = Vec::new();
    let n = image.values.len();
    let mut i: usize = 0;
    while i < n
        invariant
            0 <= value <= 255,
            n == image.values@.len(),
            i <= n,
            values@.len() == i,
            forall|k: int|
                0 <= k < i ==> values@[k] == remap_value(
                    #[trigger] image.values@[k],
                    value as int,
                ),
        decreases n - i,
    {
        values.push(remap_intensity(image.values[i], value));
        i = i + 1;
    }
    Band { width: image.width, height: image.height, values }
}

/// The canvas pixel at `(x, y)` of a mosaic: the pixel of the tile of the
/// source pixel whose cell holds `(x, y)`, or transparent where that source
/// pixel is fully transparent. `tile_at` gives the tile of the source pixel at
/// each row-major position.
pub open spec fn mosaic_pixel(
    source: Raster,
    cell: nat,
    tile_at: spec_fn(int) -> Raster,
    x: int,
    y: int,
) -> Rgba {
    let si = (y / cell as int) * source.width + x / cell as int;
    if source.pixels[si].a > 0 {
        tile_at(si).at(x % cell as int, y % cell as int)
    } else {
        Rgba::spec_transparent()
    }
}

/// The mosaic of `source`: `cell` times as wide and as high, every source
/// pixel enlarged to its tile.
pub open spec fn mosaic_raster(source: Raster, cell: nat, tile_at: spec_fn(int) -> Raster) -> Raster {
    let w = source.width * cell;
    let h = source.height * cell;
    Raster {
        width: w,
        height: h,
        pixels: Seq::new(
            w * h,
            |k: int| mosaic_pixel(source, cell, tile_at, k % w as int, k / w as int),
        ),
    }
}

/// Where the canvas pixel at offset `(tx, ty)` inside the cell of source
/// pixel `(sx, sy)` lies, and how to read the cell and the offset off it
/// again.
pub proof fn lemma_cell_position(width: int, cell: int, sx: int, sy: int, tx: int, ty: int)
    requires
        0 <= sx < width,
        0 <= sy,
        0 <= tx < cell,
        0 <= ty < cell,
    ensures
        ({
            let cw = width * cell;
            let x = sx * cell + tx;
            let y = sy * cell + ty;
            let k = y * cw + x;
            &&& 0 <= x < cw
            &&& 0 <= y
            &&& 0 <= k
            &&& k % cw == x
            &&& k / cw == y
            &&& x / cell == sx
            &&& x % cell == tx
            &&& y / cell == sy
            &&& y % cell == ty
            &&& ty * cell + tx < cell * cell
        }),
{
    let cw = width * cell;
    let x = sx * cell + tx;
    let y = sy * cell + ty;
    let k = y * cw + x;
    assert(0 <= sx * cell && sx * cell + cell <= cw) by (nonlinear_arith)
        requires
            0 <= sx < width,
            0 < cell,
            cw == width * cell,
    ;
    assert(0 <= sy * cell) by (nonlinear_arith)
        requires
            0 <= sy,
            0 < cell,
    ;
    assert(0 <= y * cw) by (nonlinear_arith)
        requires
            0 <= y,
            0 <= cw,
    ;
    assert(ty * cell + tx < cell * cell) by (nonlinear_arith)
        requires
            0 <= tx < cell,
            0 <= ty < cell,
    ;
    lemma_fundamental_div_mod_converse(k, cw, y, x);
    lemma_fundamental_div_mod_converse(x, cell, sx, tx);
    lemma_fundamental_div_mod_converse(y, cell, sy, ty);
}

/// Whether [`composite_mosaic`] rejects a source of this size for this cell size.
pub open spec fn mosaic_rejects(source: Raster, cell: nat) -> bool {
    ||| source.width == 0
    ||| source.height == 0
    ||| cell == 0
    ||| source.width * cell > MAX_DIM
    ||| source.height * cell > MAX_DIM
}

/// The tile that `choice` selects among `tiles` for each source position.
pub open spec fn chosen_tile(tiles: Seq<Image>, choice: Seq<usize>) -> spec_fn(int) -> Raster {
    |si: int| tiles[choice[si] as int]@
}

/// `choice` names, for every visible pixel of `source`, a `cell` by `cell`
/// tile among `tiles` whose content is what `tile_at` gives for that pixel.
pub open spec fn tiles_cover(
    source: Raster,
    cell: nat,
    tiles: Seq<Image>,
    choice: Seq<usize>,
    tile_at: spec_fn(int) -> Raster,
) -> bool {
    &&& choice.len() == source.pixels.len()
    &&& forall|i: int|
        0 <= i < choice.len() && (#[trigger] source.pixels[i]).a > 0 ==> {
            &&& choice[i] < tiles.len()
            &&& tiles[choice[i] as int].wf()
            &&& tiles[choice[i] as int].width == cell
            &&& tiles[choice[i] as int].height == cell
            &&& tiles[choice[i] as int]@ == tile_at(i)
        }
}

/// Tiles a canvas `cell` times the size of `source`, initially transparent:
/// every source pixel with alpha above zero gets the tile that `choice` names
/// for its row-major position, pasted at the pixel's coordinates times
/// `cell`; fully transparent pixels leave their cell transparent.
///
/// Fails with `InvalidInput` exactly when the source has a zero side, `cell`
/// is zero, or the canvas would exceed the dimension bound.
pub fn composite_mosaic(source: &Image, cell: u32, tiles: &Vec<Image>, choice: &Vec<usize>) -> (res:
    Result<Image, TranscodeError>)
    requires
        source.wf(),
        tiles_cover(source@, cell as nat, tiles@, choice@, chosen_tile(tiles@, choice@)),
    ensures
        res is Err <==> mosaic_rejects(source@, cell as nat),
        res matches Err(e) ==> e == TranscodeError::InvalidInput,
        res matches Ok(out) ==> out.wf() && out@ == mosaic_raster(
            source@,
            cell as nat,
            chosen_tile(tiles@, choice@),
        ),
{
    composite_with(source, cell, tiles, choice, Ghost(chosen_tile(tiles@, choice@)))
}

/// The compositor behind [`composite_mosaic`], stated over any description
/// `tile_at` of the tiles that `choice` selects.
fn composite_with(
    source: &Image,
    cell: u32,
    tiles: &Vec<Image>,
    choice: &Vec<usize>,
    Ghost(tile_at): Ghost<spec_fn(int) -> Raster>,
) -> (res: Result<Image, TranscodeError>)
    requires
        source.wf(),
        tiles_cover(source@, cell as nat, tiles@, choice@, tile_at),
    ensures
        res is Err <==> mosaic_rejects(source@, cell as nat),
        res matches Err(e) ==> e == TranscodeError::InvalidInput,
        res matches Ok(out) ==> out.wf() && out@ == mosaic_raster(source@, cell as nat, tile_at),
{
    if source.width == 0 || source.height == 0 || cell == 0 {
        return Err(TranscodeError::InvalidInput);
    }
    assert(source.width * cell <= 65535 * 0xffff_ffff) by (nonlinear_arith)
        requires
            source.width <= 65535,
            cell <= 0xffff_ffff,
    ;
    assert(source.height * cell <= 65535 * 0xffff_ffff) by (nonlinear_arith)
        requires
            source.height <= 65535,
            cell <= 0xffff_ffff,
    ;
    let wide: u64 = (source.width as u64) * (cell as u64);
    let high: u64 = (source.height as u64) * (cell as u64);
    if wide > MAX_DIM as u64 || high > MAX_DIM as u64 {
        return Err(TranscodeError::InvalidInput);
    }
    let width = source.width;
    let height = source.height;
    let ghost cw = wide as int;
    let mut pixels: Vec<Rgba> = Vec::new();
    let mut sy: u32 = 0;
    assert(sy * cell * cw == 0) by (nonlinear_arith)
        requires
            sy == 0,
    ;
    while sy < height
        invariant
            source.wf(),
            width == source.width,
            height == source.height,
            1 <= cell,
            cw == width * cell,
            cw <= MAX_DIM,
            tiles_cover(source@, cell as nat, tiles@, choice@, tile_at),
            sy <= height,
            pixels@.len() == sy * cell * cw,
            forall|k: int|
                0 <= k < pixels@.len() ==> #[trigger] pixels@[k] == mosaic_pixel(
                    source@,
                    cell as nat,
                    tile_at,
                    k % cw,
                    k / cw,
                ),
        decreases height - sy,
    {
        let mut ty: u32 = 0;
        while ty < cell
            invariant
                source.wf(),
                width == source.width,
                height == source.height,
                1 <= cell,
                cw == width * cell,
                cw <= MAX_DIM,
            tiles_cover(source@, cell as nat, tiles@, choice@, tile_at),
                sy < height,
                ty <= cell,
                pixels@.len() == (sy * cell + ty) * cw,
                forall|k: int|
                    0 <= k < pixels@.len() ==> #[trigger] pixels@[k] == mosaic_pixel(
                        source@,
                        cell as nat,
                        tile_at,
                        k % cw,
                        k / cw,
                    ),
            decreases cell - ty,
        {
            let mut sx: u32 = 0;
            while sx < width
                invariant
                    source.wf(),
                    width == source.width,
                    height == source.height,
                    1 <= cell,
                    cw == width * cell,
                    cw <= MAX_DIM,
            tiles_cover(source@, cell as nat, tiles@, choice@, tile_at),
                    sy < height,
                    ty < cell,
                    sx <= width,
                    pixels@.len() == (sy * cell + ty) * cw + sx * cell,
                    forall|k: int|
                        0 <= k < pixels@.len() ==> #[trigger] pixels@[k] == mosaic_pixel(
                            source@,
                            cell as nat,
                            tile_at,
                            k % cw,
                            k / cw,
                        ),
                decreases width - sx,
            {
                proof {
                    crate::image::lemma_index_in_grid(
                        sx as int,
                        sy as int,
                        width as int,
                        height as int,
                    );
                    crate::image::lemma_area_bound(width as int, height as int);
                }
                let si: usize = ((sy as u64) * (width as u64) + (sx as u64)) as usize;
                let src = source.pixels[si];
                let visible = src.a > 0;
                let mut tx: u32 = 0;
                while tx < cell
                    invariant
                        source.wf(),
                        width == source.width,
                        height == source.height,
                        1 <= cell,
                        cw == width * cell,
                        cw <= MAX_DIM,
            tiles_cover(source@, cell as nat, tiles@, choice@, tile_at),
                        sy < height,
                        ty < cell,
                        sx < width,
                        si == sy * width + sx,
                        si < source.pixels@.len(),
                        src == source.pixels@[si as int],
                        visible == (src.a > 0),
                        tx <= cell,
                        pixels@.len() == (sy * cell + ty) * cw + sx * cell + tx,
                        forall|k: int|
                            0 <= k < pixels@.len() ==> #[trigger] pixels@[k] == mosaic_pixel(
                                source@,
                                cell as nat,
                                tile_at,
                                k % cw,
                                k / cw,
                            ),
                    decreases cell - tx,
                {
                    proof {
                        lemma_cell_position(
                            width as int,
                            cell as int,
                            sx as int,
                            sy as int,
                            tx as int,
                            ty as int,
                        );
                    }
                    let px = if visible {
                        let tile = &tiles[choice[si]];
                        tile.pixel(tx, ty)
                    } else {
                        Rgba::transparent()
                    };
                    pixels.push(px);
                    tx = tx + 1;
                }
                sx = sx + 1;
                assert((sy * cell + ty) * cw + (sx - 1) * cell + cell == (sy * cell + ty) * cw + sx
                    * cell) by (nonlinear_arith);
            }
            ty = ty + 1;
            assert((sy * cell + (ty - 1)) * cw + width * cell == (sy * cell + ty) * cw)
                by (nonlinear_arith)
                requires
                    cw == width * cell,
            ;
        }
        sy = sy + 1;
        assert(((sy - 1) * cell + cell) * cw == sy * cell * cw) by (nonlinear_arith);
    }
    let out = Image { width: wide as u32, height: high as u32, pixels };
    proof {
        assert(height * cell * cw == (width * cell) * (height * cell)) by (nonlinear_arith)
            requires
                cw == width * cell,
        ;
        assert(out@.pixels =~= mosaic_raster(source@, cell as nat, tile_at).pixels);
    }
    Ok(out)
}

/// The tile of a source pixel in a brick mosaic: the brick template with
/// each colour band recoloured towards the pixel's channel, and the pixel's
/// alpha throughout.
pub open spec fn brick_tile(brick: Raster, px: Rgba) -> Raster {
    Raster {
        width: brick.width,
        height: brick.height,
        pixels: Seq::new(
            brick.pixels.len(),
            |i: int|
                Rgba {
                    r: remap_value(brick.pixels[i].r, px.r as int) as u8,
                    g: remap_value(brick.pixels[i].g, px.g as int) as u8,
                    b: remap_value(brick.pixels[i].b, px.b as int) as u8,
                    a: px.a,
                },
        ),
    }
}

/// Recolours the brick template for one source pixel.
pub fn colorize_brick(brick: &Image, px: Rgba) -> (tile: Image)
    requires
        brick.wf(),
    ensures
        tile.wf(),
        tile@ == brick_tile(brick@, px),
{
    let (red, green, blue, _) = brick.bands();
    let ghost shades = (red@.values, green@.values, blue@.values);
    let r = colorize_lego_band(red, px.r as i32);
    let g = colorize_lego_band(green, px.g as i32);
    let b = colorize_lego_band(blue, px.b as i32);
    let a = Band::filled(brick.width, brick.height, px.a).unwrap();
    let tile = Image::from_bands(&r, &g, &b, &a).unwrap();
    assert forall|i: int| 0 <= i < tile@.pixels.len() implies tile@.pixels[i] == brick_tile(
        brick@,
        px,
    ).pixels[i] by {
        assert(r.values@[i] == remap_value(shades.0[i], px.r as int));
        assert(g.values@[i] == remap_value(shades.1[i], px.g as int));
        assert(b.values@[i] == remap_value(shades.2[i], px.b as int));
    }
    assert(tile@.pixels =~= brick_tile(brick@, px).pixels);
    tile
}

/// The tiles of a brick mosaic, by source position.
pub open spec fn brick_tiles(brick: Raster, source: Raster) -> spec_fn(int) -> Raster {
    |si: int| brick_tile(brick, source.pixels[si])
}

/// Whether [`composite_bricks`] rejects this source and brick template.
pub open spec fn bricks_reject(source: Raster, brick: Raster) -> bool {
    mosaic_rejects(source, LEGO_SIZE as nat) || brick.width != LEGO_SIZE || brick.height
        != LEGO_SIZE
}

/// Composites a brick mosaic: a canvas `LEGO_SIZE` times the size of the
/// source on which every visible pixel is a brick in its colour.
///
/// Fails with `InvalidInput` exactly when the source has a zero side, the
/// canvas would exceed the dimension bound, or the brick template is not
/// `LEGO_SIZE` square.
pub fn composite_bricks(source: &Image, brick: &Image) -> (res: Result<Image, TranscodeError>)
    requires
        source.wf(),
        brick.wf(),
    ensures
        res is Err <==> bricks_reject(source@, brick@),
        res matches Err(e) ==> e == TranscodeError::InvalidInput,
        res matches Ok(out) ==> out.wf() && out@ == mosaic_raster(
            source@,
            LEGO_SIZE as nat,
            brick_tiles(brick@, source@),
        ),
{
    if brick.width != LEGO_SIZE || brick.height != LEGO_SIZE {
        return Err(TranscodeError::InvalidInput);
    }
    let mut tiles: Vec<Image> = Vec::new();
    let mut choice: Vec<usize> = Vec::new();
    let n = source.pixels.len();
    let mut i: usize = 0;
    while i < n
        invariant
            brick.wf(),
            brick.width == LEGO_SIZE,
            brick.height == LEGO_SIZE,
            n == source.pixels@.len(),
            i <= n,
            tiles@.len() == i,
            choice@.len() == i,
            forall|k: int| 0 <= k < i ==> #[trigger] choice@[k] == k,
            forall|k: int|
                0 <= k < i && (#[trigger] source.pixels@[k]).a > 0 ==> tiles@[k].wf() && tiles@[k]@
                    == brick_tile(brick@, source.pixels@[k]),
        decreases n - i,
    {
        let px = source.pixels[i];
        if px.a > 0 {
            tiles.push(colorize_brick(brick, px));
        } else {
            tiles.push(Image { width: 0, height: 0, pixels: Vec::new() });
        }
        choice.push(i);
        i = i + 1;
    }
    let ghost tile_at = brick_tiles(brick@, source@);
    assert(tiles_cover(source@, LEGO_SIZE as nat, tiles@, choice@, tile_at));
    composite_with(source, LEGO_SIZE, &tiles, &choice, Ghost(tile_at))
}

/// Whether [`lego`] rejects this source, brick template and block count.
pub open spec fn lego_rejects(source: Raster, brick: Raster, size: nat) -> bool {
    resize_rejects(source, size) || brick.width != LEGO_SIZE || brick.height != LEGO_SIZE
}

/// The number of blocks that [`lego`] puts along the longer side.
pub open spec fn lego_blocks(option: SizeOption) -> nat {
    match option.size {
        Some(size) => size as nat,
        None => 40,
    }
}

/// Builds an image out of bricks: the source is resized to the requested
/// number of blocks (40 unless given), and every visible pixel becomes a
/// brick in its colour.
///
/// Fails with `InvalidInput` exactly when the source has a zero side, the
/// block count is zero, or the brick template is not `LEGO_SIZE` square.
pub fn lego(image: Image, brick: &Image, option: SizeOption) -> (res: Result<Image, TranscodeError>)
    requires
        image.wf(),
        brick.wf(),
    ensures
        res is Err <==> lego_rejects(image@, brick@, lego_blocks(option)),
        res matches Err(e) ==> e == TranscodeError::InvalidInput,
        res matches Ok(out) ==> out.wf() && ({
            let source = resized_raster(image@, lego_blocks(option), ResizeAlgorithm::Bilinear);
            out@ == mosaic_raster(source, LEGO_SIZE as nat, brick_tiles(brick@, source))
        }),
{
    let size: u32 = match option.size {
        Some(size) => size as u32,
        None => 40,
    };
    let ghost given = image@;
    let source = match resize_to(image, size) {
        Ok(source) => source,
        Err(e) => {
            return Err(e);
        },
    };
    proof {
        crate::resize::lemma_fitted_dimensions(given.width, given.height, size as nat);
        assert(source.width * 30 <= 255 * 30 && source.height * 30 <= 255 * 30)
            by (nonlinear_arith)
            requires
                source.width <= 255,
                source.height <= 255,
        ;
    }
    composite_bricks(&source, brick)
}

/// The tiles of a block mosaic, by source position: for each source pixel the
/// tile of the palette entry nearest to it over all four channels.
pub open spec fn block_tiles(keys: Seq<Rgba>, tiles: Seq<Image>, source: Raster) -> spec_fn(
    int,
) -> Raster {
    |si: int| tiles[crate::palette::nearest_position(keys, source.pixels[si], true)]@
}

/// The error, if any, with which [`composite_blocks`] answers.
pub open spec fn blocks_error(source: Raster, palette: Palette) -> Option<TranscodeError> {
    if source.width == 0 || source.height == 0 {
        Some(TranscodeError::InvalidInput)
    } else if palette.keys@.len() == 0 {
        Some(TranscodeError::EmptyPalette)
    } else if mosaic_rejects(source, palette.cell as nat) {
        Some(TranscodeError::InvalidInput)
    } else {
        None
    }
}

/// Composites a block mosaic: a canvas as many times the size of the source
/// as the palette's tiles are wide, on which every visible pixel is the tile
/// of the palette entry nearest to its colour, alpha included.
///
/// Fails with `InvalidInput` when the source has a zero side, with
/// `EmptyPalette` when the palette holds no entry, and with `InvalidInput`
/// when the canvas would exceed the dimension bound.
pub fn composite_blocks(source: &Image, palette: &Palette) -> (res: Result<Image, TranscodeError>)
    requires
        source.wf(),
        palette.wf(),
    ensures
        res.err() == blocks_error(source@, *palette),
        res matches Ok(out) ==> out.wf() && out@ == mosaic_raster(
            source@,
            palette.cell as nat,
            block_tiles(palette.keys@, palette.tiles@, source@),
        ),
{
    if source.width == 0 || source.height == 0 {
        return Err(TranscodeError::InvalidInput);
    }
    if palette.is_empty() {
        return Err(TranscodeError::EmptyPalette);
    }
    let mut choice: Vec<usize> = Vec::new();
    let n = source.pixels.len();
    let mut i: usize = 0;
    while i < n
        invariant
            palette.wf(),
            palette.keys@.len() > 0,
            n == source.pixels@.len(),
            i <= n,
            choice@.len() == i,
            forall|k: int|
                0 <= k < i ==> #[trigger] choice@[k] == crate::palette::nearest_position(
                    palette.keys@,
                    source.pixels@[k],
                    true,
                ) && choice@[k] < palette.keys@.len(),
        decreases n - i,
    {
        let nearest = nearest_index(&palette.keys, source.pixels[i], true).unwrap();
        choice.push(nearest);
        i = i + 1;
    }
    let ghost tile_at = block_tiles(palette.keys@, palette.tiles@, source@);
    assert(tiles_cover(source@, palette.cell as nat, palette.tiles@, choice@, tile_at)) by {
        assert forall|k: int|
            0 <= k < choice@.len() && (#[trigger] source.pixels@[k]).a > 0 implies {
            &&& choice@[k] < palette.tiles@.len()
            &&& palette.tiles@[choice@[k] as int].wf()
            &&& palette.tiles@[choice@[k] as int].width == palette.cell
            &&& palette.tiles@[choice@[k] as int].height == palette.cell
            &&& palette.tiles@[choice@[k] as int]@ == tile_at(k)
        } by {
            assert(choice@[k] < palette.keys@.len());
            assert(palette.is_tile(palette.tiles@[choice@[k] as int]));
        }
    }
    composite_with(source, palette.cell, &palette.tiles, &choice, Ghost(tile_at))
}

/// The number of blocks that [`minecraft`] puts along the longer side.
pub open spec fn minecraft_blocks(option: SizeOption) -> nat {
    match option.size {
        Some(size) => size as nat,
        None => 70,
    }
}

/// The error, if any, with which [`minecraft`] answers.
pub open spec fn minecraft_error(source: Raster, palette: Palette, size: nat) -> Option<
    TranscodeError,
> {
    if resize_rejects(source, size) {
        Some(TranscodeError::InvalidInput)
    } else {
        blocks_error(resized_raster(source, size, ResizeAlgorithm::Bilinear), palette)
    }
}

/// Builds an image out of textured blocks: the source is resized to the
/// requested number of blocks (70 unless given), and every visible pixel
/// becomes the tile of the palette entry nearest to its colour.
///
/// Fails with `InvalidInput` when the source has a zero side or the block
/// count is zero, with `EmptyPalette` when the palette holds no entry, and
/// with `InvalidInput` when the canvas would exceed the dimension bound.
pub fn minecraft(image: Image, palette: &Palette, option: SizeOption) -> (res: Result<
    Image,
    TranscodeError,
>)
    requires
        image.wf(),
        palette.wf(),
    ensures
        res.err() == minecraft_error(image@, *palette, minecraft_blocks(option)),
        res matches Ok(out) ==> out.wf() && ({
            let source = resized_raster(
                image@,
                minecraft_blocks(option),
                ResizeAlgorithm::Bilinear,
            );
            out@ == mosaic_raster(
                source,
                palette.cell as nat,
                block_tiles(palette.keys@, palette.tiles@, source),
            )
        }),
{
    let size: u32 = match option.size {
        Some(size) => size as u32,
        None => 70,
    };
    let source = match resize_to(image, size) {
        Ok(source) => source,
        Err(e) => {
            return Err(e);
        },
    };
    composite_blocks(&source, palette)
}

/// Inside a mosaic, the pixel at `(x, y)` is the pixel that the cell of
/// `(x, y)` assigns to it.
pub proof fn lemma_mosaic_at(
    source: Raster,
    cell: nat,
    tile_at: spec_fn(int) -> Raster,
    x: int,
    y: int,
)
    requires
        cell >= 1,
        0 <= x < source.width * cell,
        0 <= y < source.height * cell,
    ensures
        mosaic_raster(source, cell, tile_at).at(x, y) == mosaic_pixel(source, cell, tile_at, x, y),
        0 <= x / (cell as int) < source.width,
        0 <= y / (cell as int) < source.height,
{
    let w = (source.width * cell) as int;
    let h = (source.height * cell) as int;
    crate::image::lemma_index_in_grid(x, y, w, h);
    lemma_fundamental_div_mod_converse(y * w + x, w, y, x);
    let c = cell as int;
    vstd::arithmetic::div_mod::lemma_fundamental_div_mod(x, c);
    vstd::arithmetic::div_mod::lemma_fundamental_div_mod(y, c);
    assert(0 <= x / c < source.width) by (nonlinear_arith)
        requires
            0 <= x < source.width * c,
            c >= 1,
            x == c * (x / c) + x % c,
            0 <= x % c < c,
    ;
    assert(0 <= y / c < source.height) by (nonlinear_arith)
        requires
            0 <= y < source.height * c,
            c >= 1,
            y == c * (y / c) + y % c,
            0 <= y % c < c,
    ;
}

/// With a palette of a single entry, a block mosaic of a source without a
/// fully transparent pixel is covered by that entry's tile without a gap:
/// every pixel of the canvas is the pixel of the tile at its offset inside
/// its cell.
pub proof fn lemma_single_entry_mosaic_is_covered(
    source: Raster,
    keys: Seq<Rgba>,
    tiles: Seq<Image>,
    cell: nat,
    x: int,
    y: int,
)
    requires
        source.wf(),
        keys.len() == 1,
        tiles.len() == 1,
        cell >= 1,
        forall|i: int| 0 <= i < source.pixels.len() ==> (#[trigger] source.pixels[i]).a > 0,
        0 <= x < source.width * cell,
        0 <= y < source.height * cell,
    ensures
        mosaic_raster(source, cell, block_tiles(keys, tiles, source)).at(x, y) == tiles[0]@.at(
            x % (cell as int),
            y % (cell as int),
        ),
{
    let tile_at = block_tiles(keys, tiles, source);
    lemma_mosaic_at(source, cell, tile_at, x, y);
    let sx = x / (cell as int);
    let sy = y / (cell as int);
    crate::image::lemma_index_in_grid(sx, sy, source.width as int, source.height as int);
    let si = sy * source.width + sx;
    let px = source.pixels[si];
    assert(is_nearest(keys, px, true, 0));
    crate::palette::lemma_nearest_unique(
        keys,
        px,
        true,
        0,
        crate::palette::nearest_position(keys, px, true),
    );
}

} // verus!
