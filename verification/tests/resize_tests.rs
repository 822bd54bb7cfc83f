use pixel_transcoder::image::{Image, Rgba, TranscodeError};
use pixel_transcoder::resize::{fit_dimensions, resize_to, resize_to_alg, ResizeAlgorithm};

#[test]
fn fit_dimensions_keeps_the_longer_side() {
    assert_eq!(fit_dimensions(10, 10, 40), (40, 40));
    assert_eq!(fit_dimensions(1080, 720, 360), (360, 240));
    assert_eq!(fit_dimensions(720, 1080, 360), (240, 360));
    assert_eq!(fit_dimensions(3, 2, 1), (1, 1));
    assert_eq!(fit_dimensions(1000, 1, 360), (360, 1));
}

#[test]
fn resize_rejects_an_empty_source() {
    let empty = Image::from_pixels(0, 0, vec![]).unwrap();
    assert_eq!(resize_to(empty, 40).err(), Some(TranscodeError::InvalidInput));
}

#[test]
fn resize_of_a_uniform_image_stays_uniform() {
    let red = Rgba { r: 255, g: 0, b: 0, a: 255 };
    let image = Image::filled(10, 10, red).unwrap();
    let out = resize_to_alg(image, 40, ResizeAlgorithm::Nearest).unwrap();
    assert_eq!((out.width(), out.height()), (40, 40));
    assert_eq!(out.pixels.len(), 1600);
    assert!(out.pixels.iter().all(|p| *p == red));
}
