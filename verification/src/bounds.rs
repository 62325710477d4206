//! Reading the bounds of a package from its georeferencing metadata.

use vstd::prelude::*;

use crate::json::{parsed_json, Json};
use crate::summary::{center_of, Bounds, BoundsUnits, Center};

verus! {

/// Why no bounds were read.
#[derive(Clone, Copy, Debug, PartialEq, Eq)]
pub enum BoundsError {
    /// The metadata is not a well-formed document.
    Parse,
    /// The document lacks the bounding box, or one of its four numbers.
    Schema,
}

/// The member under `key` of a value that may be missing.
pub open spec fn step(from: Option<Json>, key: Seq<char>) -> Option<Json> {
    match from {
        Some(value) => value.field(key),
        None => None,
    }
}

/// The bounding box of a document, in longitude and latitude: it stands under
/// `stats`, `bbox`, `EPSG:4326`, `bbox`.
pub open spec fn bbox_of(document: Json) -> Option<Json> {
    step(step(step(document.field("stats"@), "bbox"@), "EPSG:4326"@), "bbox"@)
}

/// The bounds that a bounding box writes under `minx`, `miny`, `maxx` and
/// `maxy`, where all four are numbers.
pub open spec fn bbox_units(bbox: Json) -> Option<BoundsUnits> {
    match (
        bbox.units_at("minx"@),
        bbox.units_at("miny"@),
        bbox.units_at("maxx"@),
        bbox.units_at("maxy"@),
    ) {
        (Some(min_x), Some(min_y), Some(max_x), Some(max_y)) => Some(
            BoundsUnits { min_x, max_x, min_y, max_y },
        ),
        _ => None,
    }
}

/// The bounds of a document, where it holds them.
pub open spec fn document_bounds(document: Json) -> Option<BoundsUnits> {
    match bbox_of(document) {
        Some(bbox) => bbox_units(bbox),
        None => None,
    }
}

/// What reading a document has to return: its bounds with their center, or
/// `Schema` where it holds no bounds.
pub open spec fn reads_as(document: Json, outcome: Result<(Bounds, Center), BoundsError>) -> bool {
    match document_bounds(document) {
        Some(units) => outcome is Ok && outcome->Ok_0.0@ == units && outcome->Ok_0.1@ == center_of(
            units,
        ),
        None => outcome == Err::<(Bounds, Center), BoundsError>(BoundsError::Schema),
    }
}

/// The text in which the value under `key` of a bounding box may write a
/// number.
pub open spec fn leaf_text_at(bbox: Json, key: Seq<char>) -> Option<Seq<char>> {
    match bbox.field(key) {
        Some(leaf) => leaf.leaf_text(),
        None => None,
    }
}

/// Bounds do not depend on how the document holds its numbers: two bounding
/// boxes whose four leaves have the same text, be it as numbers in the one and
/// as strings in the other, have the same bounds.
pub proof fn lemma_bounds_ignore_representation(first: Json, second: Json)
    requires
        leaf_text_at(first, "minx"@) == leaf_text_at(second, "minx"@),
        leaf_text_at(first, "miny"@) == leaf_text_at(second, "miny"@),
        leaf_text_at(first, "maxx"@) == leaf_text_at(second, "maxx"@),
        leaf_text_at(first, "maxy"@) == leaf_text_at(second, "maxy"@),
    ensures
        bbox_units(first) == bbox_units(second),
{
}

/// Finds the bounding box of a document.
pub fn locate_bbox(document: &Json) -> (found: Option<&Json>)
    ensures
        match found {
            Some(bbox) => bbox_of(*document) == Some(*bbox),
            None => bbox_of(*document) is None,
        },
{
    let stats = match document.member("stats") {
        Some(stats) => stats,
        None => {
            return None;
        },
    };
    let boxes = match stats.member("bbox") {
        Some(boxes) => boxes,
        None => {
            return None;
        },
    };
    let frame = match boxes.member("EPSG:4326") {
        Some(frame) => frame,
        None => {
            return None;
        },
    };
    frame.member("bbox")
}

/// Reads the four bounds of a bounding box.
pub fn bounds_of_bbox(bbox: &Json) -> (bounds: Option<Bounds>)
    ensures
        match bounds {
            Some(b) => bbox_units(*bbox) == Some(b@),
            None => bbox_units(*bbox) is None,
        },
{
    let min_x = match bbox.decimal_at("minx") {
        Some(number) => number,
        None => {
            return None;
        },
    };
    let min_y = match bbox.decimal_at("miny") {
        Some(number) => number,
        None => {
            return None;
        },
    };
    let max_x = match bbox.decimal_at("maxx") {
        Some(number) => number,
        None => {
            return None;
        },
    };
    let max_y = match bbox.decimal_at("maxy") {
        Some(number) => number,
        None => {
            return None;
        },
    };
    Some(Bounds { min_x, max_x, min_y, max_y })
}

/// Reads bounds and center from a parsed metadata document.
pub fn bounds_from_document(document: &Json) -> (outcome: Result<(Bounds, Center), BoundsError>)
    ensures
        reads_as(*document, outcome),
{
    let bbox = match locate_bbox(document) {
        Some(bbox) => bbox,
        None => {
            return Err(BoundsError::Schema);
        },
    };
    match bounds_of_bbox(bbox) {
        Some(bounds) => {
            let center = Center::of(&bounds);
            Ok((bounds, center))
        },
        None => Err(BoundsError::Schema),
    }
}

/// Reads bounds and center from the text of a metadata document: `Parse`
/// where the text is no JSON document, `Schema` where the document lacks the
/// bounding box or one of its numbers.
pub fn get_bounds(text: &str) -> (outcome: Result<(Bounds, Center), BoundsError>)
    ensures
        match parsed_json(text@) {
            Some(document) => reads_as(document, outcome),
            None => outcome == Err::<(Bounds, Center), BoundsError>(BoundsError::Parse),
        },
{
    match Json::parse(text) {
        Some(document) => bounds_from_document(&document),
        None => Err(BoundsError::Parse),
    }
}

} // verus!
