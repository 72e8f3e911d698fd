use image::{DynamicImage, GenericImageView, RgbImage};
use pxforge::job::ImageConverter;
use std::io::Cursor;

#[test]
fn round_trip_yields_the_resize_target_dimensions() {
    let source = DynamicImage::ImageRgb8(RgbImage::new(10, 7));
    let job = ImageConverter::new(80, Some(String::from("4x5"))).unwrap();
    let (width, height) = job.output_dimensions(source.width(), source.height());
    let resized = source.resize_exact(width, height, image::imageops::FilterType::Lanczos3);

    let mut encoded = Cursor::new(Vec::new());
    resized
        .write_to(&mut encoded, image::ImageOutputFormat::Png)
        .unwrap();
    let decoded = image::load_from_memory(encoded.get_ref()).unwrap();
    assert_eq!((decoded.width(), decoded.height()), (4, 5));
}

#[test]
fn round_trip_without_resize_keeps_the_source_dimensions() {
    let source = DynamicImage::ImageRgb8(RgbImage::new(10, 7));
    let job = ImageConverter::new(200, None).unwrap();
    let (width, height) = job.output_dimensions(source.width(), source.height());
    assert_eq!((width, height), (10, 7));

    let mut encoded = Cursor::new(Vec::new());
    source
        .write_to(&mut encoded, image::ImageOutputFormat::Jpeg(job.quality))
        .unwrap();
    let decoded = image::load_from_memory(encoded.get_ref()).unwrap();
    assert_eq!((decoded.width(), decoded.height()), (10, 7));
}

#[test]
fn undecodable_bytes_fail_to_decode() {
    let garbage: Vec<u8> = vec![0, 1, 2, 3, 4, 5, 6, 7];
    assert!(image::load_from_memory(&garbage).is_err());
}
