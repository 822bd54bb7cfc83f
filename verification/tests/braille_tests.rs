use pixel_transcoder::braille::{
    braille_text, encode_braille, fix_braille_spaces, fix_row, get_braille_from_px,
    make_pattern_key, sample_block, BrailleTable,
};
use pixel_transcoder::image::{Image, Rgba, TranscodeError};
use pixel_transcoder::models::BrailleOption;
use pixel_transcoder::text::grid_text;

fn gray(v: u8) -> Rgba {
    Rgba { r: v, g: v, b: v, a: 255 }
}

fn strings(cells: &[&str]) -> Vec<String> {
    cells.iter().map(|c| c.to_string()).collect()
}

#[test]
fn pattern_key_spells_four_rows_of_two() {
    let dots = vec![true, false, false, false, false, true, true, true];
    assert_eq!(make_pattern_key(&dots), "10 00 01 11");
    assert_eq!(make_pattern_key(&vec![false; 8]), "00 00 00 00");
    assert_eq!(make_pattern_key(&vec![true; 8]), "11 11 11 11");
}

#[test]
fn standard_table_follows_unicode() {
    let table = BrailleTable::standard();
    assert_eq!(table.keys.len(), 255);
    assert_eq!(table.lookup(&"11 11 11 11".to_string()), Some("\u{28FF}".to_string()));
    assert_eq!(table.lookup(&"10 00 00 00".to_string()), Some("\u{2801}".to_string()));
    assert_eq!(table.lookup(&"01 00 00 00".to_string()), Some("\u{2808}".to_string()));
    assert_eq!(table.lookup(&"00 10 00 00".to_string()), Some("\u{2802}".to_string()));
    assert_eq!(table.lookup(&"00 01 00 00".to_string()), Some("\u{2810}".to_string()));
    assert_eq!(table.lookup(&"00 00 10 00".to_string()), Some("\u{2804}".to_string()));
    assert_eq!(table.lookup(&"00 00 01 00".to_string()), Some("\u{2820}".to_string()));
    assert_eq!(table.lookup(&"00 00 00 10".to_string()), Some("\u{2840}".to_string()));
    assert_eq!(table.lookup(&"00 00 00 01".to_string()), Some("\u{2880}".to_string()));
    assert_eq!(table.lookup(&"00 00 00 00".to_string()), None);
    assert_eq!(table.lookup(&"nonsense".to_string()), None);
}

#[test]
fn table_insert_replaces_and_adds() {
    let mut table = BrailleTable::new();
    assert_eq!(table.lookup(&"a".to_string()), None);
    table.insert("a".to_string(), "1".to_string());
    table.insert("b".to_string(), "2".to_string());
    table.insert("a".to_string(), "3".to_string());
    assert_eq!(table.keys.len(), 2);
    assert_eq!(table.lookup(&"a".to_string()), Some("3".to_string()));
    assert_eq!(table.lookup(&"b".to_string()), Some("2".to_string()));
    assert_eq!(table.position(&"b".to_string()), Some(1));
    assert_eq!(table.position(&"c".to_string()), None);
}

#[test]
fn sample_block_thresholds_each_position() {
    let image = Image::from_pixels(
        2,
        4,
        vec![gray(0), gray(89), gray(90), gray(91), gray(255), gray(10), gray(200), gray(50)],
    )
    .unwrap();
    assert_eq!(
        sample_block(0, 0, &image, false, 90),
        vec![true, true, false, false, false, true, false, true]
    );
    assert_eq!(
        sample_block(0, 0, &image, true, 90),
        vec![false, false, true, true, true, false, true, false]
    );
}

#[test]
fn sample_block_counts_positions_outside_as_black() {
    let image = Image::from_pixels(1, 1, vec![gray(255)]).unwrap();
    assert_eq!(
        sample_block(0, 0, &image, false, 90),
        vec![false, true, true, true, true, true, true, true]
    );
    assert_eq!(sample_block(usize::MAX, usize::MAX, &image, false, 90), vec![true; 8]);
    assert_eq!(sample_block(5, 5, &image, false, 0), vec![false; 8]);
}

#[test]
fn sample_block_ignores_alpha_and_averages_channels() {
    let px = Rgba { r: 90, g: 89, b: 90, a: 0 };
    let image = Image::from_pixels(1, 1, vec![px]).unwrap();
    assert_eq!(sample_block(0, 0, &image, false, 90)[0], true);
    let px = Rgba { r: 90, g: 90, b: 90, a: 0 };
    let image = Image::from_pixels(1, 1, vec![px]).unwrap();
    assert_eq!(sample_block(0, 0, &image, false, 90)[0], false);
}

#[test]
fn block_glyph_comes_from_the_table() {
    let table = BrailleTable::standard();
    let black = Image::filled(2, 4, gray(0)).unwrap();
    assert_eq!(get_braille_from_px(0, 0, &black, false, 90, &table), Some("\u{28FF}".to_string()));
    assert_eq!(get_braille_from_px(0, 0, &black, true, 90, &table), None);
    let white = Image::filled(2, 4, gray(255)).unwrap();
    assert_eq!(get_braille_from_px(0, 0, &white, false, 90, &table), None);
    assert_eq!(get_braille_from_px(0, 0, &white, true, 90, &table), Some("\u{28FF}".to_string()));
    let empty = BrailleTable::new();
    assert_eq!(get_braille_from_px(0, 0, &black, false, 90, &empty), None);
}

#[test]
fn fix_row_trims_the_trailing_run_only() {
    assert_eq!(fix_row(&strings(&["a", ".", "."]), 3), strings(&["a"]));
    assert_eq!(fix_row(&strings(&[".", "a", "."]), 3), strings(&["\u{2800}", "a"]));
    assert_eq!(fix_row(&strings(&["a", "b", "c"]), 3), strings(&["a", "b", "c"]));
    assert_eq!(fix_row(&strings(&[".", ".", "."]), 3), strings(&[]));
    assert_eq!(fix_row(&strings(&[]), 0), strings(&[]));
    assert_eq!(
        fix_row(&strings(&[".", ".", "a", ".", "b", "."]), 6),
        strings(&["\u{2800}", "\u{2800}", "a", "\u{2800}", "b"])
    );
    assert_eq!(
        fix_row(&strings(&["A", ".", "B", "."]), 4),
        strings(&["A", "\u{2800}", "B"])
    );
}

#[test]
fn fix_row_looks_at_the_leading_cells() {
    assert_eq!(fix_row(&strings(&["a", ".", "b"]), 2), strings(&["a"]));
    assert_eq!(fix_row(&strings(&["a", "b"]), 5), strings(&["a", "b"]));
}

#[test]
fn blank_cells_are_not_a_glyph_of_the_table() {
    let table = BrailleTable::standard();
    let out = fix_braille_spaces(vec![strings(&["A", ".", "B", "."])], 4, 1);
    assert_eq!(out, vec![strings(&["A", "\u{2800}", "B"])]);
    assert!(table.glyphs.iter().all(|glyph| glyph != "\u{2800}"));
    assert!(out[0][1] != " " && out[0][1] != ".");
}

#[test]
fn fix_braille_spaces_cleans_the_first_rows() {
    let matrix = vec![strings(&["a", "."]), strings(&[".", "."]), strings(&[".", "b"])];
    let out = fix_braille_spaces(matrix, 2, 2);
    assert_eq!(out, vec![strings(&["a"]), strings(&[]), strings(&[".", "b"])]);
    let matrix = vec![strings(&["a", "."]), strings(&[".", "."]), strings(&[".", "b"])];
    let out = fix_braille_spaces(matrix, 2, 3);
    assert_eq!(out, vec![strings(&["a"]), strings(&[]), strings(&["\u{2800}", "b"])]);
}

#[test]
fn all_black_image_is_all_dots() {
    let table = BrailleTable::standard();
    let image = Image::filled(4, 8, gray(0)).unwrap();
    let grid = encode_braille(&image, &table, 90, false);
    let full = "\u{28FF}";
    assert_eq!(grid, vec![strings(&[full, full]), strings(&[full, full])]);
    let odd = Image::filled(3, 5, gray(0)).unwrap();
    let grid = encode_braille(&odd, &table, 90, false);
    assert_eq!(grid, vec![strings(&[full, full]), strings(&[full, full])]);
}

#[test]
fn all_white_image_is_trimmed_to_nothing() {
    let table = BrailleTable::standard();
    let image = Image::filled(4, 8, gray(255)).unwrap();
    let grid = encode_braille(&image, &table, 90, false);
    assert_eq!(grid, vec![strings(&[]), strings(&[])]);
    assert_eq!(grid_text(&grid), "\n");
}

#[test]
fn mixed_image_keeps_interior_blanks() {
    let table = BrailleTable::standard();
    let mut pixels = vec![gray(255); 6 * 4];
    for y in 0..4 {
        pixels[y * 6 + 2] = gray(0);
        pixels[y * 6 + 3] = gray(0);
    }
    let image = Image::from_pixels(6, 4, pixels).unwrap();
    let grid = encode_braille(&image, &table, 90, false);
    assert_eq!(grid, vec![strings(&["\u{2800}", "\u{28FF}"])]);
    let grid = encode_braille(&image, &table, 90, true);
    assert_eq!(grid, vec![strings(&["\u{28FF}", "\u{2800}", "\u{28FF}"])]);
}

#[test]
fn grid_text_joins_rows_with_newlines() {
    let grid = vec![strings(&["a", "b"]), strings(&[]), strings(&["c"])];
    assert_eq!(grid_text(&grid), "ab\n\nc");
    assert_eq!(grid_text(&vec![]), "");
    assert_eq!(grid_text(&vec![strings(&["x", "yz"])]), "xyz");
}

#[test]
fn braille_text_resizes_then_encodes() {
    let table = BrailleTable::standard();
    let image = Image::filled(8, 8, gray(0)).unwrap();
    let option = BrailleOption { threshold: None, invert: None, size: Some(4) };
    assert_eq!(braille_text(image, &table, option).unwrap(), "\u{28FF}\u{28FF}");
    let image = Image::filled(8, 8, gray(0)).unwrap();
    let option = BrailleOption { threshold: Some(0), invert: Some(true), size: Some(8) };
    let full4 = "\u{28FF}".repeat(4);
    assert_eq!(braille_text(image, &table, option).unwrap(), format!("{}\n{}", full4, full4));
}

#[test]
fn braille_text_reports_its_errors() {
    let table = BrailleTable::standard();
    let option = BrailleOption { threshold: None, invert: None, size: None };
    let empty = Image::from_pixels(0, 0, vec![]).unwrap();
    assert_eq!(braille_text(empty, &table, option).err(), Some(TranscodeError::InvalidInput));
    let option = BrailleOption { threshold: None, invert: None, size: Some(0) };
    let image = Image::filled(2, 2, gray(0)).unwrap();
    assert_eq!(braille_text(image, &table, option).err(), Some(TranscodeError::InvalidInput));
}
