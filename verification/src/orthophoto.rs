//! From the orthophoto mosaic to its two derivatives: a lossless copy at full
//! size, and a downscaled lossy one.

use vstd::arithmetic::div_mod::{
    lemma_div_by_multiple, lemma_div_is_ordered, lemma_fundamental_div_mod, lemma_mod_bound,
};
use vstd::prelude::*;

use crate::decimal::{units_text, Decimal, UNITS_PER_ONE};
use crate::raster::{
    decode_failure, decoded, fits_lossy, picture_view, png_encoding, resampled,
    is_on_scale, on_scale, webp_encoding, ColorKind, Raster, RasterView, TranscodeError,
};

verus! {

/// A length in pixels scaled by a factor given in units: the product, rounded
/// down to whole pixels, and held within what a length can be. A factor below
/// zero scales every length to nothing.
pub open spec fn scaled(length: u32, factor: int) -> int {
    let exact = (length * factor) / (UNITS_PER_ONE as int);
    if exact < 0 {
        0
    } else if exact > u32::MAX {
        u32::MAX as int
    } else {
        exact
    }
}

/// Within the range of lengths, the scaled length is the product rounded
/// down: the largest whole number of pixels that is not above it.
pub proof fn lemma_scaled_is_floor(length: u32, factor: int)
    requires
        0 <= factor,
        length * factor < (u32::MAX + 1) * UNITS_PER_ONE,
    ensures
        scaled(length, factor) * UNITS_PER_ONE <= length * factor < (scaled(length, factor) + 1)
            * UNITS_PER_ONE,
{
    let product = length * factor;
    let unit = UNITS_PER_ONE as int;
    assert(0 <= product) by (nonlinear_arith)
        requires
            product == length * factor,
            0 <= factor,
            0 <= length,
    ;
    lemma_fundamental_div_mod(product, unit);
    lemma_mod_bound(product, unit);
    lemma_div_is_ordered(0, product, unit);
    if product / unit > u32::MAX {
        assert(unit * (product / unit) >= unit * (u32::MAX + 1)) by (nonlinear_arith)
            requires
                product / unit >= u32::MAX + 1,
                unit > 0,
        ;
    }
    assert(scaled(length, factor) * unit == unit * (product / unit)) by (nonlinear_arith)
        requires
            scaled(length, factor) == product / unit,
    ;
    assert((scaled(length, factor) + 1) * unit == unit * (product / unit) + unit)
        by (nonlinear_arith)
        requires
            scaled(length, factor) == product / unit,
    ;
}

/// A factor of one keeps every length.
pub proof fn lemma_unit_factor_keeps_length(length: u32)
    ensures
        scaled(length, UNITS_PER_ONE as int) == length,
{
    lemma_div_by_multiple(length as int, UNITS_PER_ONE as int);
}

/// Factors from here on scale every length but zero beyond the range of
/// lengths: two to the thirty-second, in units.
const FACTOR_CAP: i128 = 4_294_967_296_000_000_000_000_000_000;

/// Scales a length in pixels by a factor.
pub fn scaled_length(length: u32, factor: Decimal) -> (pixels: u32)
    ensures
        pixels == scaled(length, factor@),
{
    let negative = factor.is_negative();
    let plain = factor.units();
    if length == 0 || negative || plain == Some(0) {
        proof {
            assert(length * factor@ <= 0) by (nonlinear_arith)
                requires
                    length == 0 || factor@ <= 0,
                    0 <= length,
            ;
            lemma_div_is_ordered(length * factor@, 0, UNITS_PER_ONE as int);
        }
        return 0;
    }
    let units: i128 = match plain {
        Some(units) => units,
        None => FACTOR_CAP,
    };
    if units >= FACTOR_CAP {
        proof {
            assert(length * factor@ >= FACTOR_CAP) by (nonlinear_arith)
                requires
                    length >= 1,
                    factor@ >= FACTOR_CAP,
            ;
            lemma_div_is_ordered(FACTOR_CAP as int, length * factor@, UNITS_PER_ONE as int);
        }
        return u32::MAX;
    }
    assert(length * units < 0x1_0000_0000 * FACTOR_CAP) by (nonlinear_arith)
        requires
            0 <= length < 0x1_0000_0000,
            0 < units < FACTOR_CAP,
    ;
    let product: u128 = (length as u128) * (units as u128);
    let whole: u128 = product / (UNITS_PER_ONE as u128);
    if whole > u32::MAX as u128 {
        u32::MAX
    } else {
        whole as u32
    }
}

/// The size of the downscaled derivative of an image.
pub open spec fn derivative_size(raster: RasterView, factor: int) -> (u32, u32) {
    (scaled(raster.width, factor) as u32, scaled(raster.height, factor) as u32)
}

/// A factor of one keeps the size of every image.
pub proof fn lemma_unit_factor_keeps_size(raster: RasterView)
    ensures
        derivative_size(raster, UNITS_PER_ONE as int) == (raster.width, raster.height),
{
    lemma_unit_factor_keeps_length(raster.width);
    lemma_unit_factor_keeps_length(raster.height);
}

/// Downscales an image by a factor: each side is the scaled length of the
/// source's, and the pixels have four samples of eight bits. A derivative
/// that the lossy format cannot hold, an empty one among them, is refused.
pub fn downscale(raster: &Raster, size_factor: Decimal) -> (outcome: Result<
    Raster,
    TranscodeError,
>)
    ensures
        ({
            let (width, height) = derivative_size(raster@, size_factor@);
            if fits_lossy(width, height) {
                &&& outcome is Ok
                &&& outcome->Ok_0.picture() == resampled(raster.picture(), width, height)
                &&& outcome->Ok_0@.width == width
                &&& outcome->Ok_0@.height == height
                &&& outcome->Ok_0@.color == ColorKind::Rgba8
            } else {
                outcome == Err::<Raster, TranscodeError>(TranscodeError::Encode)
            }
        }),
{
    let width = scaled_length(raster.width(), size_factor);
    let height = scaled_length(raster.height(), size_factor);
    proof {
        assert(0 * size_factor@ == 0) by (nonlinear_arith);
    }
    raster.resize(width, height)
}

/// The downscaled image has the downscaled size, and four samples of eight
/// bits to the pixel.
pub open spec fn derivative_is_shaped(picture: image::DynamicImage, factor: int) -> bool {
    let (width, height) = derivative_size(picture_view(picture), factor);
    let small = picture_view(resampled(picture, width, height));
    small.width == width && small.height == height && small.color == ColorKind::Rgba8
}

/// The lossy derivative that an image owes at a factor and a quality: none
/// where the downscaled size does not fit the lossy format or the quality is
/// beyond the scale, else the WebP file, at that quality, of the image
/// resampled once to the downscaled size.
pub open spec fn lossy_derivative(picture: image::DynamicImage, factor: int, quality: int) -> Option<
    Seq<u8>,
> {
    let (width, height) = derivative_size(picture_view(picture), factor);
    if fits_lossy(width, height) && on_scale(quality) {
        webp_encoding(resampled(picture, width, height), units_text(quality))
    } else {
        None
    }
}

/// The lossy derivative of an image: downscaled by `size_factor`, then
/// encoded at `quality`.
pub fn derive_lossy(raster: &Raster, size_factor: Decimal, quality: Decimal) -> (outcome: Result<
    Vec<u8>,
    TranscodeError,
>)
    ensures
        match lossy_derivative(raster.picture(), size_factor@, quality@) {
            Some(bytes) => outcome is Ok && outcome->Ok_0@ == bytes && derivative_is_shaped(
                raster.picture(),
                size_factor@,
            ),
            None => outcome == Err::<Vec<u8>, TranscodeError>(TranscodeError::Encode),
        },
{
    if !is_on_scale(quality) {
        return Err(TranscodeError::Encode);
    }
    match downscale(raster, size_factor) {
        Ok(small) => small.encode_lossy(quality),
        Err(failure) => Err(failure),
    }
}

/// The two files made from a mosaic.
#[derive(Clone, Debug, PartialEq, Eq)]
pub struct Derivatives {
    /// The mosaic at full size, as a PNG file.
    pub lossless: Vec<u8>,
    /// The downscaled mosaic, as a WebP file.
    pub lossy: Vec<u8>,
}

/// What making the derivatives of a mosaic has to return. Bytes that do not
/// decode give `Decode` with the decoder's words. An image that has no PNG
/// file, or no lossy derivative at the factor and quality, gives `Encode`.
/// Otherwise the outcome is both files: the PNG file of the decoded image, and
/// the WebP file of that image resampled to the downscaled size, which then
/// has that size and four samples of eight bits to the pixel.
pub open spec fn processes_as(
    source: Seq<u8>,
    factor: int,
    quality: int,
    outcome: Result<Derivatives, TranscodeError>,
) -> bool {
    match decoded(source) {
        None => outcome is Err && outcome->Err_0 is Decode && outcome->Err_0->Decode_0@
            == decode_failure(source),
        Some(picture) => match (
            png_encoding(picture),
            lossy_derivative(picture, factor, quality),
        ) {
            (Some(lossless), Some(lossy)) => outcome is Ok && outcome->Ok_0.lossless@ == lossless
                && outcome->Ok_0.lossy@ == lossy && derivative_is_shaped(picture, factor),
            _ => outcome == Err::<Derivatives, TranscodeError>(TranscodeError::Encode),
        },
    }
}

/// Makes both derivatives from the bytes of a mosaic: decodes them, encodes
/// the image as it is, then downscales it by `size_factor` and encodes that
/// at `quality`. The first step that fails ends the work.
pub fn process_orthophoto(source: &[u8], size_factor: Decimal, quality: Decimal) -> (outcome:
    Result<Derivatives, TranscodeError>)
    ensures
        processes_as(source@, size_factor@, quality@, outcome),
{
    let raster = match Raster::decode(source) {
        Ok(raster) => raster,
        Err(failure) => {
            return Err(failure);
        },
    };
    let lossless = match raster.encode_lossless() {
        Ok(bytes) => bytes,
        Err(failure) => {
            return Err(failure);
        },
    };
    match derive_lossy(&raster, size_factor, quality) {
        Ok(lossy) => Ok(Derivatives { lossless, lossy }),
        Err(failure) => Err(failure),
    }
}

} // verus!
