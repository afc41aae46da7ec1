//! Choosing how the carrier is written out.

use crate::img::Options;
use vstd::prelude::*;

verus! {

/// The pixel layout of a buffer that is handed to an image encoder.
#[derive(Clone, Copy, Debug, PartialEq, Eq, Structural)]
pub enum OutputColor {
    /// Three bytes for each pixel: the alpha channel is left out.
    Rgb8,
    /// Four bytes for each pixel.
    Rgba8,
}

/// The file formats that matter for the choice of the pixel layout.
#[derive(Clone, Copy, Debug, PartialEq, Eq, Structural)]
pub enum FormatKind {
    Png,
    Tiff,
    /// Any other format that the `image` crate knows.
    Other,
}

/// The error type of the `image` crate.
#[verifier::external_type_specification]
#[verifier::external_body]
pub struct ExImageError(image::ImageError);

/// The format that `image::ImageFormat::from_path` finds for `path`, with
/// every format but PNG and TIFF taken as `Other`; `None` where it finds no
/// format.
///
/// That function takes the extension of the path as
/// `std::path::Path::extension` gives it, puts it in lower case and looks it
/// up in a fixed table. It reads nothing but the path.
pub uninterp spec fn path_format(path: Seq<char>) -> Option<FormatKind>;

/// Asks `image::ImageFormat::from_path` for the format that the extension of
/// `path` stands for, and tells PNG and TIFF apart from the rest.
///
/// The call succeeds exactly where `path_format` gives a format, and then
/// with that format. Which format a path gives is not stated here.
#[verifier::external_body]
fn format_from_path(path: &str) -> (r: Result<FormatKind, image::ImageError>)
    ensures
        r is Ok <==> path_format(path@) is Some,
        r matches Ok(kind) ==> path_format(path@) == Some(kind),
{
    match image::ImageFormat::from_path(path) {
        Ok(image::ImageFormat::Png) => Ok(FormatKind::Png),
        Ok(image::ImageFormat::Tiff) => Ok(FormatKind::Tiff),
        Ok(_) => Ok(FormatKind::Other),
        Err(e) => Err(e),
    }
}

/// The layout in which the carrier is written to a file of this format.
///
/// The alpha channel is left out only where the caller asked for that and
/// the format is PNG or TIFF.
pub open spec fn color_for(options: Options, kind: FormatKind) -> OutputColor {
    if options.drop_alpha_on_output && (kind == FormatKind::Png || kind == FormatKind::Tiff) {
        OutputColor::Rgb8
    } else {
        OutputColor::Rgba8
    }
}

/// The layout in which the carrier is written to a file of this format.
pub fn output_color(options: &Options, kind: FormatKind) -> (color: OutputColor)
    ensures
        color == color_for(*options, kind),
{
    let plain = match kind {
        FormatKind::Png => true,
        FormatKind::Tiff => true,
        FormatKind::Other => false,
    };
    if options.drop_alpha_on_output && plain {
        OutputColor::Rgb8
    } else {
        OutputColor::Rgba8
    }
}

/// The layout in which the carrier is written to the file at `path`.
///
/// Fails with the error of the `image` crate where it finds no format for
/// the extension of `path`. Otherwise the layout is the one that `color_for`
/// gives for the format of the path.
pub fn output_color_for_path(options: &Options, path: &str) -> (r: Result<
    OutputColor,
    image::ImageError,
>)
    ensures
        path_format(path@) matches Some(kind) ==> r == Ok::<OutputColor, image::ImageError>(
            color_for(*options, kind),
        ),
        path_format(path@) is None ==> r is Err,
{
    output_color_for_found(options, format_from_path(path))
}

/// The layout in which the carrier is written, given what the look-up of the
/// file format came to: the layout for the format that was found, or the
/// error of the look-up, handed on as it is.
pub fn output_color_for_found(
    options: &Options,
    found: Result<FormatKind, image::ImageError>,
) -> (r: Result<OutputColor, image::ImageError>)
    ensures
        found matches Ok(kind) ==> r == Ok::<OutputColor, image::ImageError>(
            color_for(*options, kind),
        ),
        found matches Err(e) ==> r == Err::<OutputColor, image::ImageError>(e),
{
    match found {
        Ok(kind) => Ok(output_color(options, kind)),
        Err(e) => Err(e),
    }
}

} // verus!
