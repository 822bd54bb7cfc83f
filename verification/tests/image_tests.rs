use pixel_transcoder::image::{grayscale, Band, Image, Rgba, TranscodeError, MAX_DIM};
use pixel_transcoder::models::{
    AsciiOption, BrailleOption, MatrixOption, NoArgs, ShapesOption, SizeOption, SmoothOption,
};
use pixel_transcoder::resize::{ascii_resize, resample_to, ResizeAlgorithm};
use pixel_transcoder::text::text_canvas_size;

fn rgba(r: u8, g: u8, b: u8, a: u8) -> Rgba {
    Rgba { r, g, b, a }
}

#[test]
fn grayscale_is_the_mean_of_the_colour_channels() {
    assert_eq!(grayscale(rgba(0, 0, 0, 255)), 0);
    assert_eq!(grayscale(rgba(255, 255, 255, 0)), 255);
    assert_eq!(grayscale(rgba(255, 0, 0, 255)), 85);
    assert_eq!(grayscale(rgba(1, 1, 0, 255)), 0);
    assert_eq!(grayscale(rgba(10, 20, 33, 255)), 21);
}

#[test]
fn named_pixels() {
    assert_eq!(Rgba::transparent(), rgba(0, 0, 0, 0));
    assert_eq!(Rgba::black(), rgba(0, 0, 0, 255));
    assert_eq!(Rgba::white(), rgba(255, 255, 255, 255));
}

#[test]
fn images_are_row_major() {
    let pixels: Vec<Rgba> = (0..6).map(|i| rgba(i, 0, 0, 255)).collect();
    let image = Image::from_pixels(3, 2, pixels).unwrap();
    assert_eq!(image.dimensions(), (3, 2));
    assert_eq!(image.pixel(0, 0).r, 0);
    assert_eq!(image.pixel(2, 0).r, 2);
    assert_eq!(image.pixel(0, 1).r, 3);
    assert_eq!(image.pixel(2, 1).r, 5);
    assert_eq!(image.get_pixel(2, 1), Some(rgba(5, 0, 0, 255)));
    assert_eq!(image.get_pixel(3, 0), None);
    assert_eq!(image.get_pixel(0, 2), None);
    let copy = image.copy();
    assert_eq!(copy.pixels, image.pixels);
    assert_eq!(copy.dimensions(), (3, 2));
}

#[test]
fn images_reject_mismatched_pixels_and_oversized_sides() {
    assert_eq!(
        Image::from_pixels(3, 2, vec![rgba(0, 0, 0, 0); 5]).err(),
        Some(TranscodeError::InvalidInput)
    );
    assert_eq!(Image::from_pixels(MAX_DIM + 1, 0, vec![]).err(), Some(TranscodeError::InvalidInput));
    assert_eq!(
        Image::filled(1, MAX_DIM + 1, rgba(0, 0, 0, 0)).err(),
        Some(TranscodeError::InvalidInput)
    );
    assert!(Image::filled(MAX_DIM, 1, rgba(0, 0, 0, 0)).is_ok());
    assert_eq!(Band::from_values(2, 2, vec![1, 2, 3]).err(), Some(TranscodeError::InvalidInput));
    assert_eq!(Band::filled(MAX_DIM + 1, 1, 0).err(), Some(TranscodeError::InvalidInput));
    assert_eq!(Band::filled(2, 3, 9).unwrap().values, vec![9; 6]);
}

#[test]
fn bands_split_and_join() {
    let image =
        Image::from_pixels(2, 1, vec![rgba(1, 2, 3, 4), rgba(5, 6, 7, 8)]).unwrap();
    let (r, g, b, a) = image.bands();
    assert_eq!(r.values, vec![1, 5]);
    assert_eq!(g.values, vec![2, 6]);
    assert_eq!(b.values, vec![3, 7]);
    assert_eq!(a.values, vec![4, 8]);
    assert_eq!((a.width, a.height), (2, 1));
    let joined = Image::from_bands(&b, &g, &r, &a).unwrap();
    assert_eq!(joined.pixels, vec![rgba(3, 2, 1, 4), rgba(7, 6, 5, 8)]);
    let other = Band::from_values(1, 2, vec![0, 0]).unwrap();
    assert_eq!(
        Image::from_bands(&r, &g, &b, &other).err(),
        Some(TranscodeError::InvalidInput)
    );
}

#[test]
fn error_messages_are_readable() {
    assert_eq!(
        TranscodeError::InvalidInput.message(),
        "the source image or a requested size is degenerate"
    );
    assert_eq!(TranscodeError::EmptyPalette.message(), "the palette holds no entry");
    assert_eq!(
        TranscodeError::RenderFailure.message(),
        "the rendering backend could not produce an image"
    );
}

#[test]
fn resample_takes_exact_sizes() {
    let image = Image::filled(4, 4, rgba(10, 20, 30, 255)).unwrap();
    let out = resample_to(&image, 7, 3, ResizeAlgorithm::Bicubic).unwrap();
    assert_eq!((out.width(), out.height()), (7, 3));
    assert_eq!(out.pixels, vec![rgba(10, 20, 30, 255); 21]);
    assert_eq!(
        resample_to(&image, 0, 3, ResizeAlgorithm::Nearest).err(),
        Some(TranscodeError::InvalidInput)
    );
    assert_eq!(
        resample_to(&image, 3, MAX_DIM + 1, ResizeAlgorithm::Nearest).err(),
        Some(TranscodeError::InvalidInput)
    );
}

#[test]
fn nearest_resampling_doubles_pixels() {
    let image =
        Image::from_pixels(2, 1, vec![rgba(255, 0, 0, 255), rgba(0, 0, 255, 255)]).unwrap();
    let out = resample_to(&image, 4, 2, ResizeAlgorithm::Nearest).unwrap();
    let red = rgba(255, 0, 0, 255);
    let blue = rgba(0, 0, 255, 255);
    assert_eq!(out.pixels, vec![red, red, blue, blue, red, red, blue, blue]);
}

#[test]
fn ascii_resize_halves_the_rows() {
    let px = rgba(1, 2, 3, 255);
    let out = ascii_resize(Image::filled(10, 10, px).unwrap(), 130).unwrap();
    assert_eq!((out.width(), out.height()), (130, 65));
    let out = ascii_resize(Image::filled(4, 3, px).unwrap(), 10).unwrap();
    assert_eq!((out.width(), out.height()), (10, 4));
    let out = ascii_resize(Image::filled(2, 1, px).unwrap(), 2).unwrap();
    assert_eq!((out.width(), out.height()), (2, 1));
    let out = ascii_resize(Image::filled(3, 1, px).unwrap(), 5).unwrap();
    assert_eq!((out.width(), out.height()), (5, 1));
    assert_eq!(
        ascii_resize(Image::filled(5, 1, px).unwrap(), 2).err(),
        Some(TranscodeError::InvalidInput)
    );
    assert_eq!(
        ascii_resize(Image::filled(1, 2000, px).unwrap(), 130).err(),
        Some(TranscodeError::InvalidInput)
    );
}

#[test]
fn text_canvas_needs_an_extent() {
    assert_eq!(text_canvas_size((10, 20)), Ok((10, 20)));
    assert_eq!(text_canvas_size((0, 20)), Err(TranscodeError::RenderFailure));
    assert_eq!(text_canvas_size((10, 0)), Err(TranscodeError::RenderFailure));
    assert_eq!(text_canvas_size((MAX_DIM + 1, 1)), Err(TranscodeError::RenderFailure));
    assert_eq!(text_canvas_size((MAX_DIM, MAX_DIM)), Ok((MAX_DIM, MAX_DIM)));
}

#[test]
fn options_hold_their_fields() {
    assert_eq!(SizeOption { size: Some(3) }.size, Some(3));
    let braille = BrailleOption { threshold: Some(1), invert: Some(true), size: None };
    assert_eq!((braille.threshold, braille.invert, braille.size), (Some(1), Some(true), None));
    let ascii = AsciiOption { invert: None, size: Some(7) };
    assert_eq!((ascii.invert, ascii.size), (None, Some(7)));
    let matrix = MatrixOption { size: Some(9), num_only: Some(false) };
    assert_eq!((matrix.size, matrix.num_only), (Some(9), Some(false)));
    let shapes = ShapesOption { block: Some(1), density: Some(2), gif: Some(true) };
    assert_eq!((shapes.block, shapes.density, shapes.gif), (Some(1), Some(2), Some(true)));
    assert_eq!(SmoothOption { smooth: Some(true) }.smooth, Some(true));
    let _ = NoArgs {};
}
