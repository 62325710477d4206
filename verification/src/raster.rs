//! Decoded images, and the codecs that make and take them.
//!
//! The pixels stay inside the image library's own value. What this crate
//! proves about an image rests on the contracts stated here for the calls
//! into the codecs.

use vstd::prelude::*;

use crate::decimal::{text_units, units_text, Decimal};

verus! {

/// `image::DynamicImage`: a decoded image, carried as it is.
#[verifier::external_type_specification]
#[verifier::external_body]
pub struct ExDynamicImage(image::DynamicImage);

/// How the samples of a pixel are laid out.
#[derive(Clone, Copy, Debug, PartialEq, Eq)]
pub enum ColorKind {
    L8,
    La8,
    Rgb8,
    Rgba8,
    L16,
    La16,
    Rgb16,
    Rgba16,
    Rgb32F,
    Rgba32F,
    Other,
}

/// What is read of an image: its size in pixels, the layout of its samples,
/// and its pixels row by row, each as red, green, blue and alpha in eight
/// bits.
pub struct RasterView {
    pub width: u32,
    pub height: u32,
    pub color: ColorKind,
    pub rgba: Seq<u8>,
}

/// What is read of a decoded image, through `dimensions`, `color` and
/// `to_rgba8`.
pub uninterp spec fn picture_view(picture: image::DynamicImage) -> RasterView;

/// The image that the bytes of a file decode to, where they decode.
pub uninterp spec fn decoded(bytes: Seq<u8>) -> Option<image::DynamicImage>;

/// Why the bytes of a file do not decode, in the decoder's words.
pub uninterp spec fn decode_failure(bytes: Seq<u8>) -> Seq<char>;

/// The PNG file of an image, where the format can hold it.
pub uninterp spec fn png_encoding(picture: image::DynamicImage) -> Option<Seq<u8>>;

/// An image resampled to `width` by `height` pixels with a triangle filter.
pub uninterp spec fn resampled(
    picture: image::DynamicImage,
    width: u32,
    height: u32,
) -> image::DynamicImage;

/// The WebP file of an image at the quality that a text writes, where the
/// encoder makes one.
pub uninterp spec fn webp_encoding(picture: image::DynamicImage, quality: Seq<char>) -> Option<
    Seq<u8>,
>;

/// `image::io::Reader`: `new` over the bytes, `with_guessed_format`,
/// `no_limits`, `decode`; a failure is handed on as its `Display` text. The
/// format is found from the first bytes, and the decoder runs without its
/// limits on size and memory. Whether the bytes decode, to which image, and
/// with which words they are refused, depends on the bytes alone.
#[verifier::external_body]
fn decode_picture(bytes: &[u8]) -> (outcome: Result<image::DynamicImage, String>)
    ensures
        match outcome {
            Ok(picture) => decoded(bytes@) == Some(picture),
            Err(cause) => decoded(bytes@) is None && cause@ == decode_failure(bytes@),
        },
{
    let mut reader = image::io::Reader::new(std::io::Cursor::new(bytes))
        .with_guessed_format()
        .map_err(|failure| failure.to_string())?;
    reader.no_limits();
    reader.decode().map_err(|failure| failure.to_string())
}

/// `GenericImageView::dimensions` of `image::DynamicImage`: width, then
/// height.
#[verifier::external_body]
fn picture_size(picture: &image::DynamicImage) -> (size: (u32, u32))
    ensures
        size.0 == picture_view(*picture).width,
        size.1 == picture_view(*picture).height,
{
    image::GenericImageView::dimensions(picture)
}

/// `image::DynamicImage::color`: the layout of the samples.
#[verifier::external_body]
fn picture_color(picture: &image::DynamicImage) -> (color: ColorKind)
    ensures
        color == picture_view(*picture).color,
{
    match picture.color() {
        image::ColorType::L8 => ColorKind::L8,
        image::ColorType::La8 => ColorKind::La8,
        image::ColorType::Rgb8 => ColorKind::Rgb8,
        image::ColorType::Rgba8 => ColorKind::Rgba8,
        image::ColorType::L16 => ColorKind::L16,
        image::ColorType::La16 => ColorKind::La16,
        image::ColorType::Rgb16 => ColorKind::Rgb16,
        image::ColorType::Rgba16 => ColorKind::Rgba16,
        image::ColorType::Rgb32F => ColorKind::Rgb32F,
        image::ColorType::Rgba32F => ColorKind::Rgba32F,
        _ => ColorKind::Other,
    }
}

/// `image::DynamicImage::to_rgba8`, then `into_raw`: the pixels as red,
/// green, blue and alpha in eight bits each.
#[verifier::external_body]
fn picture_rgba(picture: &image::DynamicImage) -> (samples: Vec<u8>)
    ensures
        samples@ == picture_view(*picture).rgba,
{
    picture.to_rgba8().into_raw()
}

/// `image::DynamicImage::write_to` with `ImageOutputFormat::Png`, into
/// memory: the file that saving the image as PNG writes. Whether the image
/// can be written, and the bytes, depend on the image alone.
#[verifier::external_body]
fn encode_png(picture: &image::DynamicImage) -> (outcome: Option<Vec<u8>>)
    ensures
        match outcome {
            Some(bytes) => png_encoding(*picture) == Some(bytes@),
            None => png_encoding(*picture) is None,
        },
{
    let mut bytes: Vec<u8> = Vec::new();
    picture.write_to(&mut std::io::Cursor::new(&mut bytes), image::ImageOutputFormat::Png).ok()?;
    Some(bytes)
}

/// `image::imageops::resize` with `FilterType::Triangle`, its result wrapped
/// as `DynamicImage::ImageRgba8`. The result has the size asked for and four
/// samples of eight bits to the pixel, whatever the layout of the source. An
/// empty source is left out, on which the sampling would index out of bounds,
/// and so is a target beyond `MAX_LOSSY_SIDE`, whose buffers may not fit in
/// memory.
#[verifier::external_body]
fn resample_picture(picture: &image::DynamicImage, width: u32, height: u32) -> (scaled:
    image::DynamicImage)
    requires
        0 < picture_view(*picture).width,
        0 < picture_view(*picture).height,
        0 < width <= MAX_LOSSY_SIDE,
        0 < height <= MAX_LOSSY_SIDE,
    ensures
        scaled == resampled(*picture, width, height),
        picture_view(scaled).width == width,
        picture_view(scaled).height == height,
        picture_view(scaled).color == ColorKind::Rgba8,
{
    image::DynamicImage::ImageRgba8(
        image::imageops::resize(picture, width, height, image::imageops::FilterType::Triangle),
    )
}

/// `webp::Encoder::from_image`, then `encode_simple` without the lossless
/// mode: the WebP file of the image at the given quality, or nothing where
/// the encoder fails. The quality goes to the encoder as the number that
/// `str::parse` reads from its text. The outcome depends on the image and
/// that text alone. `from_image` takes the layouts `Rgb8` and `Rgba8` and
/// refuses every other. Sizes and qualities that the encoder documents as
/// out of range are left out.
#[verifier::external_body]
fn encode_webp(picture: &image::DynamicImage, quality: &str) -> (outcome: Option<Vec<u8>>)
    requires
        0 < picture_view(*picture).width <= MAX_LOSSY_SIDE,
        0 < picture_view(*picture).height <= MAX_LOSSY_SIDE,
        text_units(quality@) is Some,
        on_scale(text_units(quality@)->0),
    ensures
        match outcome {
            Some(bytes) => webp_encoding(*picture, quality@) == Some(bytes@),
            None => webp_encoding(*picture, quality@) is None,
        },
        !takes_lossy(picture_view(*picture).color) ==> outcome is None,
{
    let encoder = webp::Encoder::from_image(picture).ok()?;
    encoder.encode_simple(false, quality.parse().ok()?).ok().map(|memory| memory.to_vec())
}

/// The longest side, in pixels, that the lossy format can hold.
pub const MAX_LOSSY_SIDE: u32 = 16383;

/// The highest quality that the lossy encoder takes; the lowest is zero.
pub const MAX_QUALITY: u8 = 100;

/// The highest quality, in units.
const MAX_QUALITY_UNITS: i128 = 100_000_000_000_000_000_000;

/// A quality, in units, that lies on the encoder's scale: from zero to
/// `MAX_QUALITY`.
pub open spec fn on_scale(quality: int) -> bool {
    0 <= quality <= 100_000_000_000_000_000_000
}

/// A decoded image.
pub struct Raster {
    picture: image::DynamicImage,
}

impl Raster {
    /// The image as the codecs hold it.
    pub closed spec fn picture(&self) -> image::DynamicImage {
        self.picture
    }
}

impl View for Raster {
    type V = RasterView;

    open spec fn view(&self) -> RasterView {
        picture_view(self.picture())
    }
}

/// Why no image came out.
#[derive(Clone, Debug, PartialEq, Eq)]
pub enum TranscodeError {
    /// The source is no image that the decoder reads; the cause is given in
    /// the decoder's words.
    Decode(String),
    /// An image could not be encoded.
    Encode,
}

/// A size that the lossy format can hold: neither side empty, neither longer
/// than `MAX_LOSSY_SIDE`.
pub open spec fn fits_lossy(width: u32, height: u32) -> bool {
    0 < width <= MAX_LOSSY_SIDE && 0 < height <= MAX_LOSSY_SIDE
}

/// The layouts that the lossy encoder takes.
pub open spec fn takes_lossy(color: ColorKind) -> bool {
    color == ColorKind::Rgb8 || color == ColorKind::Rgba8
}

/// What decoding the bytes of a file has to return: the image they decode
/// to, or `Decode` with the decoder's words.
pub open spec fn decodes_as(source: Seq<u8>, outcome: Result<Raster, TranscodeError>) -> bool {
    match decoded(source) {
        Some(picture) => outcome is Ok && outcome->Ok_0.picture() == picture,
        None => outcome is Err && outcome->Err_0 is Decode && outcome->Err_0->Decode_0@
            == decode_failure(source),
    }
}

/// The WebP file that `encode_lossy` owes for an image at a quality: none for
/// an image that the format cannot hold or a quality beyond the scale, else
/// what the encoder makes.
pub open spec fn lossy_file(picture: image::DynamicImage, quality: int) -> Option<Seq<u8>> {
    if fits_lossy(picture_view(picture).width, picture_view(picture).height) && on_scale(
        quality,
    ) {
        webp_encoding(picture, units_text(quality))
    } else {
        None
    }
}

/// Whether a quality lies on the encoder's scale.
pub fn is_on_scale(quality: Decimal) -> (on: bool)
    ensures
        on == on_scale(quality@),
{
    match quality.units() {
        Some(units) => 0 <= units && units <= MAX_QUALITY_UNITS,
        None => false,
    }
}

/// What the lossy encoder's outcome comes to: its bytes, or `Encode` where it
/// gave none.
pub fn lossy_outcome(encoded: Option<Vec<u8>>) -> (outcome: Result<Vec<u8>, TranscodeError>)
    ensures
        match encoded {
            Some(bytes) => outcome == Ok::<Vec<u8>, TranscodeError>(bytes),
            None => outcome == Err::<Vec<u8>, TranscodeError>(TranscodeError::Encode),
        },
{
    match encoded {
        Some(bytes) => Ok(bytes),
        None => Err(TranscodeError::Encode),
    }
}

impl Raster {
    /// Decodes an image from the bytes of a file, whose format is found from
    /// its content. The decoder's limits on size and memory are lifted:
    /// mosaics go beyond them as a matter of course.
    pub fn decode(source: &[u8]) -> (outcome: Result<Raster, TranscodeError>)
        ensures
            decodes_as(source@, outcome),
    {
        match decode_picture(source) {
            Ok(picture) => Ok(Raster { picture }),
            Err(cause) => Err(TranscodeError::Decode(cause)),
        }
    }

    /// Width in pixels.
    pub fn width(&self) -> (width: u32)
        ensures
            width == self@.width,
    {
        picture_size(&self.picture).0
    }

    /// Height in pixels.
    pub fn height(&self) -> (height: u32)
        ensures
            height == self@.height,
    {
        picture_size(&self.picture).1
    }

    /// The layout of the samples.
    pub fn color(&self) -> (color: ColorKind)
        ensures
            color == self@.color,
    {
        picture_color(&self.picture)
    }

    /// The pixels row by row, each as red, green, blue and alpha in eight
    /// bits.
    pub fn rgba(&self) -> (samples: Vec<u8>)
        ensures
            samples@ == self@.rgba,
    {
        picture_rgba(&self.picture)
    }

    /// The image as a PNG file: every pixel as it is.
    pub fn encode_lossless(&self) -> (outcome: Result<Vec<u8>, TranscodeError>)
        ensures
            match png_encoding(self.picture()) {
                Some(bytes) => outcome is Ok && outcome->Ok_0@ == bytes,
                None => outcome == Err::<Vec<u8>, TranscodeError>(TranscodeError::Encode),
            },
    {
        match encode_png(&self.picture) {
            Some(bytes) => Ok(bytes),
            None => Err(TranscodeError::Encode),
        }
    }

    /// The image resampled to `width` by `height` pixels with a triangle
    /// filter, in four samples of eight bits to the pixel whatever the layout
    /// of the source. An empty source and a size that the lossy format cannot
    /// hold are refused.
    pub fn resize(&self, width: u32, height: u32) -> (outcome: Result<Raster, TranscodeError>)
        ensures
            if fits_lossy(width, height) && 0 < self@.width && 0 < self@.height {
                &&& outcome is Ok
                &&& outcome->Ok_0.picture() == resampled(self.picture(), width, height)
                &&& outcome->Ok_0@.width == width
                &&& outcome->Ok_0@.height == height
                &&& outcome->Ok_0@.color == ColorKind::Rgba8
            } else {
                outcome == Err::<Raster, TranscodeError>(TranscodeError::Encode)
            },
    {
        let (own_width, own_height) = picture_size(&self.picture);
        if own_width == 0 || own_height == 0 || width == 0 || height == 0 || width
            > MAX_LOSSY_SIDE || height > MAX_LOSSY_SIDE {
            return Err(TranscodeError::Encode);
        }
        Ok(Raster { picture: resample_picture(&self.picture, width, height) })
    }

    /// The image as a WebP file of the given quality, from zero to
    /// `MAX_QUALITY`, whole or not. An image that the format cannot hold, a
    /// layout that the encoder does not take and a quality beyond the scale
    /// are refused; beyond that the encoder decides.
    pub fn encode_lossy(&self, quality: Decimal) -> (outcome: Result<Vec<u8>, TranscodeError>)
        ensures
            match lossy_file(self.picture(), quality@) {
                Some(bytes) => outcome is Ok && outcome->Ok_0@ == bytes,
                None => outcome == Err::<Vec<u8>, TranscodeError>(TranscodeError::Encode),
            },
            !takes_lossy(self@.color) ==> outcome is Err,
    {
        let (width, height) = picture_size(&self.picture);
        if width == 0 || height == 0 || width > MAX_LOSSY_SIDE || height > MAX_LOSSY_SIDE
            || !is_on_scale(quality) {
            return Err(TranscodeError::Encode);
        }
        let written = quality.to_text();
        lossy_outcome(encode_webp(&self.picture, written.as_str()))
    }
}

} // verus!
