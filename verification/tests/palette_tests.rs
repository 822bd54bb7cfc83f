use pixel_transcoder::image::{Image, Rgba, TranscodeError};
use pixel_transcoder::palette::{
    channel_diff, distance, match_palette, nearest_index, Palette, BLOCK_SIZE,
};

fn rgba(r: u8, g: u8, b: u8, a: u8) -> Rgba {
    Rgba { r, g, b, a }
}

#[test]
fn channel_difference_is_absolute() {
    assert_eq!(channel_diff(10, 250), 240);
    assert_eq!(channel_diff(250, 10), 240);
    assert_eq!(channel_diff(7, 7), 0);
}

#[test]
fn distance_sums_the_channels() {
    let p = rgba(10, 20, 30, 40);
    let q = rgba(13, 16, 35, 140);
    assert_eq!(distance(p, q, false), 3 + 4 + 5);
    assert_eq!(distance(p, q, true), 3 + 4 + 5 + 100);
    assert_eq!(distance(rgba(0, 0, 0, 0), rgba(255, 255, 255, 255), true), 1020);
}

#[test]
fn nearest_index_fails_on_an_empty_palette() {
    assert_eq!(nearest_index(&vec![], rgba(1, 2, 3, 4), true), Err(TranscodeError::EmptyPalette));
}

#[test]
fn nearest_index_finds_the_exact_colour() {
    let keys = vec![rgba(0, 0, 0, 255), rgba(255, 0, 0, 255), rgba(0, 255, 0, 255)];
    assert_eq!(nearest_index(&keys, rgba(255, 0, 0, 255), true), Ok(1));
    assert_eq!(distance(keys[1], rgba(255, 0, 0, 255), true), 0);
}

#[test]
fn nearest_index_breaks_ties_by_first_position() {
    let keys = vec![rgba(10, 0, 0, 255), rgba(0, 10, 0, 255), rgba(0, 0, 10, 255)];
    assert_eq!(nearest_index(&keys, rgba(0, 0, 0, 255), true), Ok(0));
    let keys = vec![rgba(50, 0, 0, 255), rgba(0, 10, 0, 255), rgba(0, 0, 10, 255)];
    assert_eq!(nearest_index(&keys, rgba(0, 0, 0, 255), true), Ok(1));
}

#[test]
fn alpha_counts_only_when_asked() {
    let keys = vec![rgba(100, 100, 100, 0), rgba(90, 100, 100, 255)];
    assert_eq!(nearest_index(&keys, rgba(100, 100, 100, 255), false), Ok(0));
    assert_eq!(nearest_index(&keys, rgba(100, 100, 100, 255), true), Ok(1));
}

#[test]
fn palette_rejects_a_degenerate_tile_size() {
    assert_eq!(Palette::new(0).err(), Some(TranscodeError::InvalidInput));
    assert_eq!(Palette::new(70000).err(), Some(TranscodeError::InvalidInput));
    assert!(Palette::new(BLOCK_SIZE).is_ok());
}

#[test]
fn insert_replaces_the_tile_of_a_known_key() {
    let mut palette = Palette::new(2).unwrap();
    assert!(palette.is_empty());
    let red = rgba(255, 0, 0, 255);
    let blue = rgba(0, 0, 255, 255);
    palette.insert(red, Image::filled(2, 2, red).unwrap()).unwrap();
    palette.insert(blue, Image::filled(2, 2, blue).unwrap()).unwrap();
    palette.insert(red, Image::filled(2, 2, blue).unwrap()).unwrap();
    assert_eq!(palette.len(), 2);
    assert_eq!(palette.keys, vec![red, blue]);
    assert_eq!(palette.tiles[0].pixels, vec![blue; 4]);
    assert_eq!(palette.position(blue), Some(1));
    assert_eq!(palette.position(rgba(1, 1, 1, 1)), None);
}

#[test]
fn insert_rejects_a_tile_of_another_size() {
    let mut palette = Palette::new(2).unwrap();
    let red = rgba(255, 0, 0, 255);
    let res = palette.insert(red, Image::filled(3, 2, red).unwrap());
    assert_eq!(res, Err(TranscodeError::InvalidInput));
    assert!(palette.is_empty());
}

#[test]
fn add_texture_keys_a_uniform_texture_by_its_colour() {
    let mut palette = Palette::new(BLOCK_SIZE).unwrap();
    let green = rgba(0, 200, 0, 255);
    palette.add_texture(&Image::filled(16, 16, green).unwrap()).unwrap();
    assert_eq!(palette.keys, vec![green]);
    assert_eq!(palette.tiles[0].width(), 20);
    assert_eq!(palette.tiles[0].height(), 20);
    assert_eq!(palette.tiles[0].pixels, vec![green; 400]);
}

#[test]
fn add_texture_rejects_an_empty_texture() {
    let mut palette = Palette::new(BLOCK_SIZE).unwrap();
    let empty = Image::from_pixels(0, 0, vec![]).unwrap();
    assert_eq!(palette.add_texture(&empty), Err(TranscodeError::InvalidInput));
    assert!(palette.is_empty());
}

#[test]
fn match_palette_returns_the_entry_of_an_exact_colour() {
    let mut palette = Palette::new(1).unwrap();
    let colours = [rgba(1, 2, 3, 255), rgba(200, 100, 50, 255), rgba(200, 100, 50, 10)];
    for c in colours {
        palette.insert(c, Image::filled(1, 1, c).unwrap()).unwrap();
    }
    for (i, c) in colours.iter().enumerate() {
        let found = match_palette(&palette, *c, true).unwrap();
        assert_eq!(found, i);
        assert_eq!(distance(palette.keys[found], *c, true), 0);
    }
    let empty = Palette::new(1).unwrap();
    assert_eq!(match_palette(&empty, colours[0], true), Err(TranscodeError::EmptyPalette));
}
