//! Decoding and scaling of pictures.
//!
//! Pictures are decoded and scaled by the `image` crate. Nothing in this
//! file is proved: each function states which function of that crate it
//! calls, and gives the result a name.

use image::imageops::FilterType;
use image::{ColorType, DynamicImage, ImageError, ImageFormat};
use std::io::Cursor;
use vstd::prelude::*;

verus! {

/// `image::DynamicImage`: a decoded picture. It is handed on as it is.
#[verifier::external_type_specification]
#[verifier::external_body]
pub struct ExDynamicImage(DynamicImage);

/// `image::ImageError`: why bytes are no picture. It is handed on as it
/// is.
#[verifier::external_type_specification]
#[verifier::external_body]
pub struct ExImageError(ImageError);

/// `image::imageops::FilterType`: the ways in which a picture can be
/// scaled.
#[verifier::external_type_specification]
pub struct ExFilterType(FilterType);

/// `image::ImageFormat`: the format of a picture. It is handed on as it
/// is.
#[verifier::external_type_specification]
#[verifier::external_body]
pub struct ExImageFormat(ImageFormat);

/// The formats that this library tells apart.
#[derive(Clone, Copy, Debug, PartialEq, Eq, Structural)]
pub enum FormatKind {
    Png,
    Jpeg,
    Gif,
    /// Any other format.
    Other,
}

/// What the samples of a picture are: how many channels a pixel has, and
/// whether a channel is a byte, a word of sixteen bits, or a float.
#[derive(Clone, Copy, Debug, PartialEq, Eq, Structural)]
pub enum ColorKind {
    L8,
    La8,
    Rgb8,
    Rgba8,
    L16,
    La16,
    Rgb16,
    Rgba16,
    Rgb32F,
    Rgba32F,
    /// A kind that this library does not know.
    Other,
}

/// The format that the first bytes of `bytes` are the mark of, or `None`
/// if they are the mark of no format.
pub uninterp spec fn guessed(bytes: Seq<u8>) -> Option<ImageFormat>;

/// Which of the formats that this library tells apart a format is.
pub uninterp spec fn format_kind(format: ImageFormat) -> FormatKind;

/// The picture that `bytes` decode to as a picture of the given format,
/// under the given limits on its size and on the memory used, or `None` if
/// the `image` crate refuses them.
pub uninterp spec fn decoded(
    bytes: Seq<u8>,
    format: ImageFormat,
    max_width: u32,
    max_height: u32,
    max_alloc: u64,
) -> Option<DynamicImage>;

/// What the samples of a picture are.
pub uninterp spec fn image_color(image: DynamicImage) -> ColorKind;

/// The width of a picture, in pixels.
pub uninterp spec fn image_width(image: DynamicImage) -> u32;

/// The height of a picture, in pixels.
pub uninterp spec fn image_height(image: DynamicImage) -> u32;

/// The pixels of a picture, row by row, as four bytes each: red, green,
/// blue and alpha.
pub uninterp spec fn image_rgba(image: DynamicImage) -> Seq<u8>;

/// The picture scaled with `filter` to the largest size of the same
/// proportions that fits in `width` by `height` pixels.
pub uninterp spec fn resized(image: DynamicImage, width: u32, height: u32, filter: FilterType) -> DynamicImage;

/// The formats in which pictures are taken: those that avatars come in.
pub open spec fn accepted(kind: FormatKind) -> bool {
    kind is Png || kind is Jpeg || kind is Gif
}

/// Whether each channel of a picture is a whole number, of eight or of
/// sixteen bits.
pub open spec fn whole_samples(kind: ColorKind) -> bool {
    !(kind is Rgb32F || kind is Rgba32F || kind is Other)
}

/// `image::guess_format`: the format that the first bytes are the mark
/// of, or the error that they are the mark of none.
#[verifier::external_body]
pub(crate) fn guess_format(bytes: &[u8]) -> (format: Result<ImageFormat, ImageError>)
    ensures
        match format {
            Ok(known) => guessed(bytes@) == Some(known),
            Err(_) => guessed(bytes@) is None,
        },
{
    image::guess_format(bytes)
}

/// Tells the variants of `image::ImageFormat` apart.
#[verifier::external_body]
pub(crate) fn kind_of(format: ImageFormat) -> (kind: FormatKind)
    ensures
        kind == format_kind(format),
{
    match format {
        ImageFormat::Png => FormatKind::Png,
        ImageFormat::Jpeg => FormatKind::Jpeg,
        ImageFormat::Gif => FormatKind::Gif,
        _ => FormatKind::Other,
    }
}

/// `image::io::Reader::with_format`, with limits, and then
/// `Reader::decode`: the picture in `bytes`, read as a picture of the
/// given format, or the error with which they were refused. Only the
/// decoders of the formats that are taken are run.
#[verifier::external_body]
pub(crate) fn decode_image(
    bytes: &[u8],
    format: ImageFormat,
    max_width: u32,
    max_height: u32,
    max_alloc: u64,
) -> (image: Result<DynamicImage, ImageError>)
    requires
        accepted(format_kind(format)),
    ensures
        match image {
            Ok(picture) => decoded(bytes@, format, max_width, max_height, max_alloc) == Some(
                picture,
            ),
            Err(_) => decoded(bytes@, format, max_width, max_height, max_alloc) is None,
        },
{
    let mut reader = image::io::Reader::with_format(Cursor::new(bytes), format);
    let mut limits = image::io::Limits::default();
    limits.max_image_width = Some(max_width);
    limits.max_image_height = Some(max_height);
    limits.max_alloc = Some(max_alloc);
    reader.limits(limits);
    reader.decode()
}

/// `DynamicImage::color`: what the samples of the picture are.
#[verifier::external_body]
pub(crate) fn color_of(image: &DynamicImage) -> (kind: ColorKind)
    ensures
        kind == image_color(*image),
{
    match image.color() {
        ColorType::L8 => ColorKind::L8,
        ColorType::La8 => ColorKind::La8,
        ColorType::Rgb8 => ColorKind::Rgb8,
        ColorType::Rgba8 => ColorKind::Rgba8,
        ColorType::L16 => ColorKind::L16,
        ColorType::La16 => ColorKind::La16,
        ColorType::Rgb16 => ColorKind::Rgb16,
        ColorType::Rgba16 => ColorKind::Rgba16,
        ColorType::Rgb32F => ColorKind::Rgb32F,
        ColorType::Rgba32F => ColorKind::Rgba32F,
        _ => ColorKind::Other,
    }
}

/// `DynamicImage::width`.
#[verifier::external_body]
pub(crate) fn width_of(image: &DynamicImage) -> (width: u32)
    ensures
        width == image_width(*image),
{
    image.width()
}

/// `DynamicImage::height`.
#[verifier::external_body]
pub(crate) fn height_of(image: &DynamicImage) -> (height: u32)
    ensures
        height == image_height(*image),
{
    image.height()
}

/// `DynamicImage::resize`. A picture without pixels cannot be scaled.
#[verifier::external_body]
pub(crate) fn resize_image(image: &DynamicImage, width: u32, height: u32, filter: FilterType) -> (scaled:
    DynamicImage)
    requires
        image_width(*image) > 0,
        image_height(*image) > 0,
    ensures
        scaled == resized(*image, width, height, filter),
{
    image.resize(width, height, filter)
}

/// `DynamicImage::to_rgba8`, as bytes. A picture with float samples is
/// left out: the `image` crate does not convert every float.
#[verifier::external_body]
pub(crate) fn rgba_of(image: &DynamicImage) -> (bytes: Vec<u8>)
    requires
        whole_samples(image_color(*image)),
    ensures
        bytes@ == image_rgba(*image),
{
    image.to_rgba8().into_raw()
}

} // verus!
