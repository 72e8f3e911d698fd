use pxforge::batch::{is_supported_image, plan_batch, summarize, BatchSummary, Outcome};
use pxforge::errors::ConvertError;
use pxforge::job::ImageConverter;

#[test]
fn supported_extensions_follow_the_batch_filter() {
    assert!(is_supported_image("/a/x.jpg"));
    assert!(is_supported_image("/a/x.JPEG"));
    assert!(is_supported_image("/a/x.png"));
    assert!(is_supported_image("/a/x.GIF"));
    assert!(is_supported_image("/a/x.bmp"));
    assert!(is_supported_image("/a/x.TIFF"));
    assert!(is_supported_image("/a/x.webp"));
    assert!(!is_supported_image("/a/x.txt"));
    // The batch filter keeps `tiff` but not the short `tif` spelling.
    assert!(!is_supported_image("/a/x.tif"));
    assert!(!is_supported_image("/a/noext"));
    assert!(!is_supported_image("/a/.gitignore"));
    assert!(!is_supported_image("/a/jpg"));
}

#[test]
fn batch_plans_only_the_supported_files() {
    let files = vec![
        String::from("/in/a.jpg"),
        String::from("/in/notes.txt"),
        String::from("/in/sub/b.PNG"),
        String::from("/in/readme.md"),
        String::from("/in/c.webp"),
    ];
    let tasks = plan_batch(&files, "/in", "/out", "png").unwrap();
    assert_eq!(tasks.len(), 3);
    assert_eq!(tasks[0].input, "/in/a.jpg");
    assert_eq!(tasks[0].output, "/out/a.png");
    assert_eq!(tasks[1].input, "/in/sub/b.PNG");
    assert_eq!(tasks[1].output, "/out/sub/b.png");
    assert_eq!(tasks[2].input, "/in/c.webp");
    assert_eq!(tasks[2].output, "/out/c.png");
}

#[test]
fn batch_with_no_images_is_rejected() {
    let none: Vec<String> = Vec::new();
    assert_eq!(
        plan_batch(&none, "/in", "/out", "png").unwrap_err(),
        ConvertError::NoImagesFound
    );
    let unsupported = vec![String::from("/in/a.txt"), String::from("/in/b.doc")];
    assert_eq!(
        plan_batch(&unsupported, "/in", "/out", "png").unwrap_err(),
        ConvertError::NoImagesFound
    );
}

#[test]
fn one_corrupt_file_leaves_the_other_outcomes_standing() {
    let outcomes = vec![
        Outcome::Success,
        Outcome::Success,
        Outcome::Failure {
            input: String::from("/in/broken.png"),
            cause: String::from("not a recognized image container"),
        },
        Outcome::Success,
        Outcome::Success,
    ];
    let summary = summarize(&outcomes);
    assert_eq!(summary, BatchSummary { total: 5, failures: 1 });
}

#[test]
fn all_failures_still_summarize() {
    let outcomes = vec![
        Outcome::Failure { input: String::from("/in/a.jpg"), cause: String::from("decode") },
        Outcome::Failure { input: String::from("/in/b.jpg"), cause: String::from("encode") },
    ];
    let summary = summarize(&outcomes);
    assert_eq!(summary.total, 2);
    assert_eq!(summary.failures, 2);
    let empty: Vec<Outcome> = Vec::new();
    assert_eq!(summarize(&empty), BatchSummary { total: 0, failures: 0 });
}

#[test]
fn quality_is_clamped_into_range() {
    assert_eq!(ImageConverter::new(0, None).unwrap().quality, 1);
    assert_eq!(ImageConverter::new(150, None).unwrap().quality, 100);
    assert_eq!(ImageConverter::new(255, None).unwrap().quality, 100);
    assert_eq!(ImageConverter::new(80, None).unwrap().quality, 80);
}

#[test]
fn resize_configuration_follows_the_parser() {
    let c = ImageConverter::new(80, Some(String::from("800x600"))).unwrap();
    assert_eq!(c.resize, Some((800, 600)));
    assert_eq!(
        ImageConverter::new(80, Some(String::from("800x0"))).unwrap_err(),
        ConvertError::ZeroDimension
    );
    assert_eq!(ImageConverter::new(80, None).unwrap().resize, None);
}

#[test]
fn args_configure_the_job() {
    let args = pxforge::cli::Args {
        input: String::from("/in/pic.png"),
        output: String::from("/out/pic.jpg"),
        format: String::from("jpg"),
        quality: 200,
        resize: Some(String::from("320x240")),
        batch: false,
    };
    let job = args.job().unwrap();
    assert_eq!(job.quality, 100);
    assert_eq!(job.resize, Some((320, 240)));

    let bad = pxforge::cli::Args { resize: Some(String::from("320x")), ..args };
    assert_eq!(bad.job().unwrap_err(), ConvertError::InvalidNumber);
}

#[test]
fn output_dimensions_follow_the_resize_target() {
    let resized = ImageConverter::new(80, Some(String::from("640x480"))).unwrap();
    assert_eq!(resized.output_dimensions(1000, 2000), (640, 480));
    let plain = ImageConverter::new(80, None).unwrap();
    assert_eq!(plain.output_dimensions(1000, 2000), (1000, 2000));
}
