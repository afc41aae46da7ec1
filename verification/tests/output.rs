use subimg::img::Options;
use subimg::output::{
    output_color, output_color_for_found, output_color_for_path, FormatKind, OutputColor,
};

fn options(drop_alpha: bool) -> Options {
    Options {
        fill: false,
        report_capacity: false,
        drop_alpha_on_output: drop_alpha,
        force_opaque: false,
    }
}

#[test]
fn alpha_is_dropped_for_png_and_tiff_on_request() {
    assert_eq!(output_color(&options(true), FormatKind::Png), OutputColor::Rgb8);
    assert_eq!(output_color(&options(true), FormatKind::Tiff), OutputColor::Rgb8);
}

#[test]
fn alpha_is_kept_for_other_formats() {
    assert_eq!(output_color(&options(true), FormatKind::Other), OutputColor::Rgba8);
}

#[test]
fn alpha_is_kept_without_a_request() {
    assert_eq!(output_color(&options(false), FormatKind::Png), OutputColor::Rgba8);
    assert_eq!(output_color(&options(false), FormatKind::Tiff), OutputColor::Rgba8);
    assert_eq!(output_color(&options(false), FormatKind::Other), OutputColor::Rgba8);
}

#[test]
fn path_with_png_extension() {
    assert_eq!(output_color_for_path(&options(true), "out/image.png").ok(), Some(OutputColor::Rgb8));
    assert_eq!(output_color_for_path(&options(true), "IMAGE.PNG").ok(), Some(OutputColor::Rgb8));
    assert_eq!(output_color_for_path(&options(false), "image.png").ok(), Some(OutputColor::Rgba8));
}

#[test]
fn path_with_tiff_extension() {
    assert_eq!(output_color_for_path(&options(true), "image.tiff").ok(), Some(OutputColor::Rgb8));
    assert_eq!(output_color_for_path(&options(true), "image.tif").ok(), Some(OutputColor::Rgb8));
    assert_eq!(output_color_for_path(&options(false), "image.tif").ok(), Some(OutputColor::Rgba8));
}

#[test]
fn path_with_another_known_extension() {
    assert_eq!(output_color_for_path(&options(true), "image.bmp").ok(), Some(OutputColor::Rgba8));
    assert_eq!(output_color_for_path(&options(true), "png.gif").ok(), Some(OutputColor::Rgba8));
    assert_eq!(output_color_for_path(&options(false), "image.jpg").ok(), Some(OutputColor::Rgba8));
}

#[test]
fn path_with_unknown_extension_fails() {
    assert!(output_color_for_path(&options(true), "image.unknown").is_err());
    assert!(output_color_for_path(&options(false), "image.png.txt").is_err());
}

#[test]
fn path_without_extension_fails() {
    assert!(output_color_for_path(&options(true), "png").is_err());
    assert!(output_color_for_path(&options(true), "").is_err());
}

#[test]
fn found_format_gives_its_layout() {
    assert_eq!(
        output_color_for_found(&options(true), Ok(FormatKind::Png)).ok(),
        Some(OutputColor::Rgb8)
    );
    assert_eq!(
        output_color_for_found(&options(true), Ok(FormatKind::Tiff)).ok(),
        Some(OutputColor::Rgb8)
    );
    assert_eq!(
        output_color_for_found(&options(true), Ok(FormatKind::Other)).ok(),
        Some(OutputColor::Rgba8)
    );
    assert_eq!(
        output_color_for_found(&options(false), Ok(FormatKind::Png)).ok(),
        Some(OutputColor::Rgba8)
    );
}

#[test]
fn failed_look_up_hands_its_error_on() {
    let error = image::ImageError::IoError(std::io::Error::from(std::io::ErrorKind::NotFound));
    match output_color_for_found(&options(true), Err(error)) {
        Err(image::ImageError::IoError(e)) => assert_eq!(e.kind(), std::io::ErrorKind::NotFound),
        _ => panic!("the error of the look-up was not handed on"),
    }
}

#[test]
fn unknown_extension_gives_the_error_of_the_look_up() {
    assert!(matches!(
        output_color_for_path(&options(true), "image.unknown"),
        Err(image::ImageError::Unsupported(_))
    ));
}
