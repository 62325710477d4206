//! Post-processing of drone-mapping packages: geodetic bounds from the
//! georeferencing metadata, and web derivatives of the orthophoto mosaic.
//!
//! Numbers are fixed-point decimals ([`decimal::Decimal`]), read from text
//! digit by digit, so that bounds, centers and scaled lengths are exact.
//! Metadata is read into a tree of plain values ([`json::Json`]); images stay
//! with the codecs ([`raster::Raster`]). Files are neither read nor written
//! here: texts and bytes come in, texts and bytes go out.

pub mod bounds;
pub mod decimal;
pub mod digits;
pub mod json;
pub mod literal;
pub mod orthophoto;
pub mod raster;
pub mod summary;

pub use crate::bounds::get_bounds;
pub use crate::orthophoto::process_orthophoto;
pub use crate::summary::{Bounds, Center, Summary};
