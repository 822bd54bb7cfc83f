use pixel_transcoder::image::{Band, Image, Rgba, TranscodeError};
use pixel_transcoder::models::SizeOption;
use pixel_transcoder::mosaic::{
    colorize_brick, colorize_lego_band, composite_blocks, composite_bricks, composite_mosaic,
    lego, minecraft, remap_intensity, LEGO_SIZE,
};
use pixel_transcoder::palette::Palette;

fn rgba(r: u8, g: u8, b: u8, a: u8) -> Rgba {
    Rgba { r, g, b, a }
}

#[test]
fn remap_shadows_highlights_and_midtones() {
    assert_eq!(remap_intensity(0, 150), 50);
    assert_eq!(remap_intensity(32, 150), 50);
    assert_eq!(remap_intensity(33, 150), 50);
    assert_eq!(remap_intensity(133, 150), 150);
    assert_eq!(remap_intensity(233, 150), 250);
    assert_eq!(remap_intensity(234, 150), 250);
    assert_eq!(remap_intensity(255, 150), 250);
}

#[test]
fn remap_clamps_at_both_ends() {
    assert_eq!(remap_intensity(33, 0), 0);
    assert_eq!(remap_intensity(133, 0), 0);
    assert_eq!(remap_intensity(200, 0), 67);
    assert_eq!(remap_intensity(10, 50), 0);
    assert_eq!(remap_intensity(133, 255), 255);
    assert_eq!(remap_intensity(233, 255), 255);
    assert_eq!(remap_intensity(100, 255), 222);
    assert_eq!(remap_intensity(250, 200), 255);
}

#[test]
fn remap_is_monotonic_in_the_target() {
    for p in [0u8, 33, 100, 133, 200, 233, 255] {
        let mut last = 0u8;
        for v in 0..=255 {
            let out = remap_intensity(p, v);
            assert!(out >= last);
            last = out;
        }
    }
}

#[test]
fn colorize_band_maps_every_intensity() {
    let band = Band::from_values(3, 1, vec![0, 133, 255]).unwrap();
    let out = colorize_lego_band(band, 100);
    assert_eq!((out.width, out.height), (3, 1));
    assert_eq!(out.values, vec![0, 100, 200]);
}

#[test]
fn colorize_brick_recolours_each_band_and_sets_alpha() {
    let brick = Image::from_pixels(
        2,
        1,
        vec![rgba(133, 133, 133, 255), rgba(0, 255, 143, 7)],
    )
    .unwrap();
    let tile = colorize_brick(&brick, rgba(10, 120, 250, 99));
    assert_eq!((tile.width(), tile.height()), (2, 1));
    assert_eq!(tile.pixels, vec![rgba(10, 120, 250, 99), rgba(0, 220, 255, 99)]);
}

#[test]
fn composite_enlarges_every_visible_pixel_to_its_tile() {
    let a = rgba(1, 1, 1, 255);
    let b = rgba(2, 2, 2, 255);
    let c = rgba(3, 3, 3, 255);
    let hidden = rgba(9, 9, 9, 0);
    let source = Image::from_pixels(2, 1, vec![hidden, a]).unwrap();
    let tile = Image::from_pixels(2, 2, vec![a, b, c, a]).unwrap();
    let out = composite_mosaic(&source, 2, &vec![tile], &vec![0, 0]).unwrap();
    assert_eq!((out.width(), out.height()), (4, 2));
    let t = Rgba::transparent();
    assert_eq!(out.pixels, vec![t, t, a, b, t, t, c, a]);
}

#[test]
fn composite_rejects_degenerate_sizes() {
    let px = rgba(1, 1, 1, 255);
    let source = Image::from_pixels(1, 1, vec![px]).unwrap();
    let tile = Image::filled(0, 0, px).unwrap();
    assert_eq!(
        composite_mosaic(&source, 0, &vec![tile], &vec![0]).err(),
        Some(TranscodeError::InvalidInput)
    );
    let empty = Image::from_pixels(0, 0, vec![]).unwrap();
    assert_eq!(
        composite_mosaic(&empty, 2, &vec![], &vec![]).err(),
        Some(TranscodeError::InvalidInput)
    );
    let wide = Image::filled(4000, 1, rgba(0, 0, 0, 0)).unwrap();
    assert_eq!(
        composite_mosaic(&wide, 20, &vec![], &vec![0; 4000]).err(),
        Some(TranscodeError::InvalidInput)
    );
}

fn red_palette() -> (Palette, Image) {
    let red = rgba(255, 0, 0, 255);
    let mut tile_pixels = Vec::new();
    for i in 0..400u32 {
        tile_pixels.push(rgba((i % 20) as u8, (i / 20) as u8, 7, 255));
    }
    let tile = Image::from_pixels(20, 20, tile_pixels).unwrap();
    let mut palette = Palette::new(20).unwrap();
    palette.insert(red, tile.copy()).unwrap();
    (palette, tile)
}

#[test]
fn red_source_is_covered_by_the_sole_tile() {
    let red = rgba(255, 0, 0, 255);
    let (palette, tile) = red_palette();
    let source = Image::filled(10, 10, red).unwrap();
    let out = composite_blocks(&source, &palette).unwrap();
    assert_eq!((out.width(), out.height()), (200, 200));
    for y in 0..200u32 {
        for x in 0..200u32 {
            let px = out.pixel(x, y);
            assert_eq!(px, tile.pixel(x % 20, y % 20));
            assert!(px.a > 0);
        }
    }
    let choice = vec![0usize; 100];
    let same = composite_mosaic(&source, 20, &palette.tiles, &choice).unwrap();
    assert_eq!(same.pixels, out.pixels);
}

#[test]
fn composite_blocks_reports_its_errors() {
    let red = rgba(255, 0, 0, 255);
    let (palette, _) = red_palette();
    let empty = Image::from_pixels(0, 0, vec![]).unwrap();
    assert_eq!(composite_blocks(&empty, &palette).err(), Some(TranscodeError::InvalidInput));
    let source = Image::filled(2, 2, red).unwrap();
    let none = Palette::new(20).unwrap();
    assert_eq!(composite_blocks(&source, &none).err(), Some(TranscodeError::EmptyPalette));
    assert_eq!(composite_blocks(&empty, &none).err(), Some(TranscodeError::InvalidInput));
    let wide = Image::filled(3277, 1, red).unwrap();
    assert_eq!(composite_blocks(&wide, &palette).err(), Some(TranscodeError::InvalidInput));
    let fits = Image::filled(3276, 1, rgba(0, 0, 0, 0)).unwrap();
    assert_eq!(composite_blocks(&fits, &palette).unwrap().width(), 65520);
}

#[test]
fn composite_bricks_keeps_the_source_grid() {
    let brick = Image::filled(LEGO_SIZE, LEGO_SIZE, rgba(133, 133, 133, 255)).unwrap();
    let a = rgba(10, 20, 30, 255);
    let b = rgba(200, 210, 220, 40);
    let source = Image::from_pixels(1, 2, vec![a, b]).unwrap();
    let out = composite_bricks(&source, &brick).unwrap();
    assert_eq!((out.width(), out.height()), (30, 60));
    for y in 0..60u32 {
        for x in 0..30u32 {
            assert_eq!(out.pixel(x, y), if y < 30 { a } else { b });
        }
    }
    let odd = Image::filled(LEGO_SIZE, 31, a).unwrap();
    assert_eq!(composite_bricks(&source, &odd).err(), Some(TranscodeError::InvalidInput));
    let empty = Image::from_pixels(0, 0, vec![]).unwrap();
    assert_eq!(composite_bricks(&empty, &brick).err(), Some(TranscodeError::InvalidInput));
}

#[test]
fn minecraft_of_a_red_source_has_no_gaps() {
    let red = rgba(255, 0, 0, 255);
    let (palette, tile) = red_palette();
    let source = Image::filled(10, 10, red).unwrap();
    let out = minecraft(source, &palette, SizeOption { size: Some(40) }).unwrap();
    assert_eq!((out.width(), out.height()), (800, 800));
    for y in 0..800u32 {
        for x in 0..800u32 {
            let px = out.pixel(x, y);
            assert_eq!(px, tile.pixel(x % 20, y % 20));
            assert!(px.a > 0);
        }
    }
}

#[test]
fn minecraft_picks_the_nearest_tile_and_skips_transparent_pixels() {
    let dark = rgba(10, 10, 10, 255);
    let light = rgba(240, 240, 240, 255);
    let mut palette = Palette::new(1).unwrap();
    palette.insert(dark, Image::filled(1, 1, rgba(1, 0, 0, 255)).unwrap()).unwrap();
    palette.insert(light, Image::filled(1, 1, rgba(2, 0, 0, 255)).unwrap()).unwrap();
    let source = Image::from_pixels(
        2,
        2,
        vec![rgba(0, 0, 0, 255), rgba(255, 255, 255, 255), rgba(0, 0, 0, 0), rgba(200, 200, 200, 255)],
    )
    .unwrap();
    let out = minecraft(source, &palette, SizeOption { size: Some(2) }).unwrap();
    assert_eq!((out.width(), out.height()), (2, 2));
    assert_eq!(
        out.pixels,
        vec![rgba(1, 0, 0, 255), rgba(2, 0, 0, 255), Rgba::transparent(), rgba(2, 0, 0, 255)]
    );
}

#[test]
fn minecraft_reports_its_errors() {
    let red = rgba(255, 0, 0, 255);
    let (palette, _) = red_palette();
    let empty_palette = Palette::new(20).unwrap();
    let empty = Image::from_pixels(0, 0, vec![]).unwrap();
    assert_eq!(
        minecraft(empty, &palette, SizeOption { size: None }).err(),
        Some(TranscodeError::InvalidInput)
    );
    assert_eq!(
        minecraft(Image::filled(2, 2, red).unwrap(), &palette, SizeOption { size: Some(0) }).err(),
        Some(TranscodeError::InvalidInput)
    );
    assert_eq!(
        minecraft(Image::filled(2, 2, red).unwrap(), &empty_palette, SizeOption { size: Some(2) })
            .err(),
        Some(TranscodeError::EmptyPalette)
    );
    let mut huge = Palette::new(1000).unwrap();
    huge.insert(red, Image::filled(1000, 1000, red).unwrap()).unwrap();
    assert_eq!(
        minecraft(Image::filled(2, 2, red).unwrap(), &huge, SizeOption { size: Some(70) }).err(),
        Some(TranscodeError::InvalidInput)
    );
}

#[test]
fn minecraft_defaults_to_seventy_blocks() {
    let red = rgba(255, 0, 0, 255);
    let mut palette = Palette::new(1).unwrap();
    palette.insert(red, Image::filled(1, 1, red).unwrap()).unwrap();
    let out = minecraft(Image::filled(4, 2, red).unwrap(), &palette, SizeOption { size: None })
        .unwrap();
    assert_eq!((out.width(), out.height()), (70, 35));
}

#[test]
fn lego_builds_a_brick_for_every_visible_pixel() {
    let mut brick_pixels = Vec::new();
    for i in 0..900u32 {
        let shade = if i % 30 < 10 { 20 } else if i % 30 < 20 { 133 } else { 250 };
        brick_pixels.push(rgba(shade, shade, shade, 255));
    }
    let brick = Image::from_pixels(LEGO_SIZE, LEGO_SIZE, brick_pixels).unwrap();
    let colour = rgba(200, 100, 0, 128);
    let source = Image::from_pixels(2, 1, vec![colour, rgba(1, 2, 3, 0)]).unwrap();
    let out = lego(source, &brick, SizeOption { size: Some(2) }).unwrap();
    assert_eq!((out.width(), out.height()), (60, 30));
    for y in 0..30u32 {
        for x in 0..60u32 {
            let expected = if x >= 30 {
                Rgba::transparent()
            } else if x < 10 {
                rgba(100, 0, 0, 128)
            } else if x < 20 {
                rgba(200, 100, 0, 128)
            } else {
                rgba(255, 200, 100, 128)
            };
            assert_eq!(out.pixel(x, y), expected);
        }
    }
}

#[test]
fn lego_reports_its_errors() {
    let px = rgba(5, 5, 5, 255);
    let brick = Image::filled(LEGO_SIZE, LEGO_SIZE, px).unwrap();
    let small_brick = Image::filled(29, 30, px).unwrap();
    assert_eq!(
        lego(Image::filled(2, 2, px).unwrap(), &small_brick, SizeOption { size: None }).err(),
        Some(TranscodeError::InvalidInput)
    );
    assert_eq!(
        lego(Image::filled(2, 2, px).unwrap(), &brick, SizeOption { size: Some(0) }).err(),
        Some(TranscodeError::InvalidInput)
    );
    assert_eq!(
        lego(Image::from_pixels(0, 0, vec![]).unwrap(), &brick, SizeOption { size: None }).err(),
        Some(TranscodeError::InvalidInput)
    );
    let out = lego(Image::filled(2, 1, px).unwrap(), &brick, SizeOption { size: None }).unwrap();
    assert_eq!((out.width(), out.height()), (1200, 600));
}
