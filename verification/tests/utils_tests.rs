use pxforge::dimensions::parse_dimensions;
use pxforge::errors::ConvertError;
use pxforge::formats::{get_image_format, ImageFormat};
use pxforge::paths::{get_output_path, is_under_path};

#[test]
fn test_parse_dimensions() {
    assert_eq!(parse_dimensions("800x600").unwrap(), (800, 600));
    assert_eq!(parse_dimensions("1920x1080").unwrap(), (1920, 1080));
    assert!(parse_dimensions("800").is_err());
    assert!(parse_dimensions("800x").is_err());
    assert!(parse_dimensions("800x0").is_err());
}

#[test]
fn test_get_image_format() {
    assert!(matches!(get_image_format("jpg").unwrap(), ImageFormat::Jpeg));
    assert!(matches!(get_image_format("PNG").unwrap(), ImageFormat::Png));
    assert!(get_image_format("xyz").is_err());
}

#[test]
fn format_tokens_resolve_case_insensitively() {
    assert_eq!(get_image_format("jpg"), Ok(ImageFormat::Jpeg));
    assert_eq!(get_image_format("JPEG"), Ok(ImageFormat::Jpeg));
    assert_eq!(get_image_format("jpeg"), Ok(ImageFormat::Jpeg));
    assert_eq!(get_image_format("png"), Ok(ImageFormat::Png));
    assert_eq!(get_image_format("PNG"), Ok(ImageFormat::Png));
    assert_eq!(get_image_format("gif"), Ok(ImageFormat::Gif));
    assert_eq!(get_image_format("GiF"), Ok(ImageFormat::Gif));
    assert_eq!(get_image_format("bmp"), Ok(ImageFormat::Bmp));
    assert_eq!(get_image_format("tiff"), Ok(ImageFormat::Tiff));
    assert_eq!(get_image_format("tif"), Ok(ImageFormat::Tiff));
    assert_eq!(get_image_format("TIF"), Ok(ImageFormat::Tiff));
    assert_eq!(get_image_format("webp"), Ok(ImageFormat::WebP));
    assert_eq!(get_image_format("WEBP"), Ok(ImageFormat::WebP));
}

#[test]
fn unknown_format_tokens_are_rejected() {
    assert_eq!(get_image_format(""), Err(ConvertError::UnsupportedFormat));
    assert_eq!(get_image_format("xyz"), Err(ConvertError::UnsupportedFormat));
    assert_eq!(get_image_format("jpg "), Err(ConvertError::UnsupportedFormat));
    assert_eq!(get_image_format(" png"), Err(ConvertError::UnsupportedFormat));
    assert_eq!(get_image_format("jpgg"), Err(ConvertError::UnsupportedFormat));
    assert_eq!(get_image_format("ünicode"), Err(ConvertError::UnsupportedFormat));
}

#[test]
fn dimension_parser_reports_exact_errors() {
    assert_eq!(parse_dimensions("800"), Err(ConvertError::InvalidDimensionFormat));
    assert_eq!(parse_dimensions("800x600x2"), Err(ConvertError::InvalidDimensionFormat));
    assert_eq!(parse_dimensions(""), Err(ConvertError::InvalidDimensionFormat));
    assert_eq!(parse_dimensions("800x"), Err(ConvertError::InvalidNumber));
    assert_eq!(parse_dimensions("x600"), Err(ConvertError::InvalidNumber));
    assert_eq!(parse_dimensions("abcx600"), Err(ConvertError::InvalidNumber));
    assert_eq!(parse_dimensions("800x-1"), Err(ConvertError::InvalidNumber));
    assert_eq!(parse_dimensions("8.5x600"), Err(ConvertError::InvalidNumber));
    assert_eq!(parse_dimensions("800x0"), Err(ConvertError::ZeroDimension));
    assert_eq!(parse_dimensions("0x600"), Err(ConvertError::ZeroDimension));
}

#[test]
fn dimension_parser_handles_u32_bounds() {
    assert_eq!(parse_dimensions("4294967295x1").unwrap(), (4294967295, 1));
    assert_eq!(parse_dimensions("4294967296x1"), Err(ConvertError::InvalidNumber));
    assert_eq!(parse_dimensions("1x99999999999999999999"), Err(ConvertError::InvalidNumber));
    assert_eq!(parse_dimensions("007x1").unwrap(), (7, 1));
}

#[test]
fn output_path_mirrors_tree_and_swaps_extension() {
    assert_eq!(get_output_path("/a/b/c.png", "/a", "/out", "jpg"), "/out/b/c.jpg");
    assert_eq!(get_output_path("/a/c.png", "/a", "/out", "png"), "/out/c.png");
    assert_eq!(get_output_path("/a/b/c.png", "/a/", "/out/", "jpg"), "/out/b/c.jpg");
    assert_eq!(get_output_path("/in/d/e/f.TIFF", "/in", "/o", "webp"), "/o/d/e/f.webp");
}

#[test]
fn output_path_handles_names_without_extension() {
    assert_eq!(get_output_path("/a/b/noext", "/a", "/out", "png"), "/out/b/noext.png");
    assert_eq!(get_output_path("/a/b/.hidden", "/a", "/out", "png"), "/out/b/.hidden.png");
    assert_eq!(get_output_path("/a/b.dir/c", "/a", "/out", "gif"), "/out/b.dir/c.gif");
}

#[test]
fn is_under_reflects_the_walked_root() {
    assert!(is_under_path("/a/b/c.png", "/a"));
    assert!(is_under_path("/a/b", "/a/"));
    assert!(!is_under_path("/a", "/a"));
    assert!(!is_under_path("/ab/c.png", "/a"));
    assert!(!is_under_path("/a/b", "/x"));
    assert!(!is_under_path("/a/b", ""));
}

#[test]
fn error_messages_name_the_failure() {
    assert_eq!(ConvertError::UnsupportedFormat.message(), "unsupported format");
    assert_eq!(ConvertError::NoImagesFound.message(), "no image files found");
}
