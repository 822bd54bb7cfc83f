use pixel_transcoder::image::{Band, Image, Rgba, TranscodeError};
use pixel_transcoder::models::AsciiOption;
use pixel_transcoder::ramp::{
    ascii_ramp, ascii_text, encode_ramp, invert_pixel, select_glyph, to_luminance, RampMapping,
};

fn strings(cells: &[&str]) -> Vec<String> {
    cells.iter().map(|c| c.to_string()).collect()
}

#[test]
fn linear_mapping_spreads_the_ramp_evenly() {
    assert_eq!(select_glyph(0, 12, RampMapping::Linear), 0);
    assert_eq!(select_glyph(21, 12, RampMapping::Linear), 0);
    assert_eq!(select_glyph(22, 12, RampMapping::Linear), 1);
    assert_eq!(select_glyph(128, 12, RampMapping::Linear), 6);
    assert_eq!(select_glyph(234, 12, RampMapping::Linear), 10);
    assert_eq!(select_glyph(235, 12, RampMapping::Linear), 11);
    assert_eq!(select_glyph(255, 12, RampMapping::Linear), 11);
    assert_eq!(select_glyph(255, 1, RampMapping::Linear), 0);
    assert_eq!(select_glyph(255, 256, RampMapping::Linear), 255);
    assert_eq!(select_glyph(200, 70, RampMapping::Linear), 54);
}

#[test]
fn modular_mapping_wraps_and_sends_black_to_the_end() {
    assert_eq!(select_glyph(0, 12, RampMapping::Modular), 11);
    assert_eq!(select_glyph(1, 12, RampMapping::Modular), 1);
    assert_eq!(select_glyph(12, 12, RampMapping::Modular), 0);
    assert_eq!(select_glyph(13, 12, RampMapping::Modular), 1);
    assert_eq!(select_glyph(255, 12, RampMapping::Modular), 3);
    assert_eq!(select_glyph(0, 1, RampMapping::Modular), 0);
}

#[test]
fn inverse_intensities_select_opposite_ends() {
    for len in [1usize, 2, 12, 70, 100, 256] {
        assert_eq!(select_glyph(0, len, RampMapping::Linear), 0);
        assert_eq!(select_glyph(255, len, RampMapping::Linear), len - 1);
        for v in 0..=255u8 {
            let plain = select_glyph(v, len, RampMapping::Linear);
            let inverse = select_glyph(255 - v, len, RampMapping::Linear);
            assert!(plain + inverse + 1 == len || plain + inverse + 2 == len);
        }
    }
}

#[test]
fn invert_pixel_complements_every_channel() {
    let px = Rgba { r: 0, g: 255, b: 100, a: 30 };
    assert_eq!(invert_pixel(px), Rgba { r: 255, g: 0, b: 155, a: 225 });
    assert_eq!(invert_pixel(invert_pixel(px)), px);
}

#[test]
fn default_ramp_runs_from_dense_to_sparse() {
    assert_eq!(
        ascii_ramp(),
        strings(&["@", "#", "S", "%", "?", "*", "+", ";", ":", ",", ".", " "])
    );
}

#[test]
fn luminance_weighs_the_channels() {
    let image = Image::from_pixels(
        4,
        1,
        vec![
            Rgba { r: 0, g: 0, b: 0, a: 255 },
            Rgba { r: 255, g: 0, b: 0, a: 255 },
            Rgba { r: 0, g: 255, b: 0, a: 3 },
            Rgba { r: 0, g: 0, b: 255, a: 255 },
        ],
    )
    .unwrap();
    let band = to_luminance(&image, false);
    assert_eq!((band.width, band.height), (4, 1));
    assert_eq!(band.values, vec![0, 76, 149, 29]);
    let inverted = to_luminance(&image, true);
    assert_eq!(inverted.values[1], 178);
    assert!(inverted.values[0] >= 254);
}

#[test]
fn encode_ramp_ends_every_row_with_a_newline() {
    let gray = Band::from_values(3, 2, vec![0, 128, 255, 255, 22, 0]).unwrap();
    let text = encode_ramp(&gray, &ascii_ramp(), RampMapping::Linear);
    assert_eq!(text, "@+ \n #@\n");
    let text = encode_ramp(&gray, &ascii_ramp(), RampMapping::Modular);
    assert_eq!(text, " :%\n%.\u{20}\n");
}

#[test]
fn encode_ramp_takes_glyphs_of_any_length() {
    let gray = Band::from_values(2, 1, vec![0, 255]).unwrap();
    let ramp = strings(&["ab", "", "cde"]);
    assert_eq!(encode_ramp(&gray, &ramp, RampMapping::Linear), "abcde\n");
    let none = Band::from_values(0, 0, vec![]).unwrap();
    assert_eq!(encode_ramp(&none, &ramp, RampMapping::Linear), "");
}

#[test]
fn ascii_text_of_black_and_white() {
    let black = Image::filled(4, 4, Rgba { r: 0, g: 0, b: 0, a: 255 }).unwrap();
    let option = AsciiOption { invert: None, size: Some(4) };
    assert_eq!(ascii_text(black, option).unwrap(), "@@@@\n@@@@\n");
    let black = Image::filled(4, 4, Rgba { r: 0, g: 0, b: 0, a: 255 }).unwrap();
    let option = AsciiOption { invert: Some(true), size: Some(4) };
    assert_eq!(ascii_text(black, option).unwrap(), "    \n    \n");
}

#[test]
fn ascii_text_reports_its_errors() {
    let px = Rgba { r: 0, g: 0, b: 0, a: 255 };
    let option = AsciiOption { invert: None, size: Some(0) };
    assert_eq!(
        ascii_text(Image::filled(4, 4, px).unwrap(), option).err(),
        Some(TranscodeError::InvalidInput)
    );
    let option = AsciiOption { invert: None, size: None };
    assert_eq!(
        ascii_text(Image::from_pixels(0, 0, vec![]).unwrap(), option).err(),
        Some(TranscodeError::InvalidInput)
    );
    let option = AsciiOption { invert: None, size: Some(2) };
    assert_eq!(
        ascii_text(Image::filled(100, 1, px).unwrap(), option).err(),
        Some(TranscodeError::InvalidInput)
    );
}
