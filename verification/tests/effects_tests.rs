use pixel_transcoder::effects::{
    black_white, edge, emboss, frost, hue_rotate, to_photon, to_ril, to_two_tone, HUE_FRAMES,
};
use pixel_transcoder::image::{Image, Rgba, TranscodeError};
use pixel_transcoder::models::{NoArgs, SmoothOption};

fn rgba(r: u8, g: u8, b: u8, a: u8) -> Rgba {
    Rgba { r, g, b, a }
}

fn gradient(width: u32, height: u32) -> Image {
    let mut pixels = Vec::new();
    for y in 0..height {
        for x in 0..width {
            pixels.push(rgba((x * 20) as u8, (y * 30) as u8, 77, 200 + (x % 3) as u8));
        }
    }
    Image::from_pixels(width, height, pixels).unwrap()
}

#[test]
fn two_tone_splits_at_the_middle() {
    let image = Image::from_pixels(
        4,
        1,
        vec![rgba(0, 0, 0, 0), rgba(255, 255, 255, 0), rgba(127, 127, 127, 9), rgba(130, 130, 130, 9)],
    )
    .unwrap();
    let out = to_two_tone(&image);
    assert_eq!(out.pixels, vec![Rgba::black(), Rgba::white(), Rgba::black(), Rgba::white()]);
}

#[test]
fn black_white_enlarges_to_four_hundred() {
    let image = Image::filled(8, 4, rgba(250, 250, 250, 255)).unwrap();
    let out = black_white(image, SmoothOption { smooth: None }).unwrap();
    assert_eq!((out.width(), out.height()), (400, 200));
    assert!(out.pixels.iter().all(|p| *p == Rgba::white()));
    let image = Image::filled(8, 4, rgba(5, 5, 5, 255)).unwrap();
    let out = black_white(image, SmoothOption { smooth: Some(true) }).unwrap();
    assert!(out.pixels.iter().all(|p| *p == Rgba::black()));
    let empty = Image::from_pixels(0, 0, vec![]).unwrap();
    assert_eq!(
        black_white(empty, SmoothOption { smooth: Some(false) }).err(),
        Some(TranscodeError::InvalidInput)
    );
}

#[test]
fn hue_rotation_keeps_shape_and_alpha() {
    let frames = hue_rotate(gradient(6, 3), NoArgs {}).unwrap();
    assert_eq!(frames.len(), HUE_FRAMES);
    for frame in &frames {
        assert_eq!((frame.width(), frame.height()), (360, 180));
        assert_eq!(frame.pixels.len(), 360 * 180);
    }
    let alphas: Vec<u8> = frames[0].pixels.iter().map(|p| p.a).collect();
    for frame in &frames {
        let other: Vec<u8> = frame.pixels.iter().map(|p| p.a).collect();
        assert_eq!(other, alphas);
    }
    assert!(frames[9].pixels != frames[0].pixels);
    let empty = Image::from_pixels(0, 0, vec![]).unwrap();
    assert_eq!(hue_rotate(empty, NoArgs {}).err(), Some(TranscodeError::InvalidInput));
}

#[test]
fn backend_conversion_round_trips() {
    let image = gradient(5, 4);
    let photon = to_photon(&image);
    assert_eq!(photon.get_width(), 5);
    assert_eq!(photon.get_height(), 4);
    let bytes = photon.get_raw_pixels();
    assert_eq!(bytes.len(), 80);
    assert_eq!(&bytes[4..8], &[20, 0, 77, 201]);
    let back = to_ril(&photon).unwrap();
    assert_eq!((back.width(), back.height()), (5, 4));
    assert_eq!(back.pixels, image.pixels);
}

#[test]
fn backend_conversion_rejects_ragged_images() {
    let ragged = photon_rs::PhotonImage::new(vec![0; 20], 2, 2);
    assert_eq!(to_ril(&ragged).err(), Some(TranscodeError::InvalidInput));
    let no_width = photon_rs::PhotonImage::new(vec![0; 16], 0, 2);
    assert_eq!(to_ril(&no_width).err(), Some(TranscodeError::InvalidInput));
    let spare = photon_rs::PhotonImage::new(vec![1; 18], 2, 9);
    let out = to_ril(&spare).unwrap();
    assert_eq!((out.width(), out.height()), (2, 2));
    assert_eq!(out.pixels, vec![rgba(1, 1, 1, 1); 4]);
}

#[test]
fn filters_keep_the_size_of_the_resized_source() {
    let out = emboss(gradient(6, 3), NoArgs {}).unwrap();
    assert_eq!((out.width(), out.height()), (360, 180));
    assert_eq!(out.pixels.len(), 360 * 180);
    let out = edge(gradient(6, 3), NoArgs {}).unwrap();
    assert_eq!((out.width(), out.height()), (360, 180));
    assert_eq!(out.pixels.len(), 360 * 180);
    let out = frost(gradient(3, 6), NoArgs {}).unwrap();
    assert_eq!((out.width(), out.height()), (180, 360));
    assert_eq!(out.pixels.len(), 360 * 180);
}

#[test]
fn filters_change_a_varied_image_and_repeat_themselves() {
    let plain = pixel_transcoder::resize::resize_to(gradient(6, 3), 360).unwrap();
    let first = emboss(gradient(6, 3), NoArgs {}).unwrap();
    let second = emboss(gradient(6, 3), NoArgs {}).unwrap();
    assert_eq!(first.pixels, second.pixels);
    assert!(first.pixels != plain.pixels);
    let first = edge(gradient(6, 3), NoArgs {}).unwrap();
    let second = edge(gradient(6, 3), NoArgs {}).unwrap();
    assert_eq!(first.pixels, second.pixels);
    assert!(first.pixels != plain.pixels);
    let first = frost(gradient(6, 3), NoArgs {}).unwrap();
    let second = frost(gradient(6, 3), NoArgs {}).unwrap();
    assert_eq!(first.pixels, second.pixels);
    assert!(first.pixels != plain.pixels);
}

#[test]
fn filters_reject_an_empty_source() {
    let empty = || Image::from_pixels(0, 0, vec![]).unwrap();
    assert_eq!(emboss(empty(), NoArgs {}).err(), Some(TranscodeError::InvalidInput));
    assert_eq!(edge(empty(), NoArgs {}).err(), Some(TranscodeError::InvalidInput));
    assert_eq!(frost(empty(), NoArgs {}).err(), Some(TranscodeError::InvalidInput));
}
