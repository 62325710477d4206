//! The record that a package is summed up in: its bounds and their center.

use vstd::prelude::*;

use crate::decimal::{in_range, lemma_text_reads_back, mean_floor, units_text, Decimal};
use crate::json::{lemma_member_found, Json};

verus! {

/// A geodetic bounding box, in degrees of longitude (`x`) and latitude (`y`).
/// Nothing orders the minimum before the maximum.
#[derive(Clone, Copy, Debug, PartialEq, Eq)]
pub struct Bounds {
    pub min_x: Decimal,
    pub max_x: Decimal,
    pub min_y: Decimal,
    pub max_y: Decimal,
}

/// A bounding box as four counts of units.
pub struct BoundsUnits {
    pub min_x: int,
    pub max_x: int,
    pub min_y: int,
    pub max_y: int,
}

impl View for Bounds {
    type V = BoundsUnits;

    open spec fn view(&self) -> BoundsUnits {
        BoundsUnits {
            min_x: self.min_x@,
            max_x: self.max_x@,
            min_y: self.min_y@,
            max_y: self.max_y@,
        }
    }
}

impl BoundsUnits {
    /// Each of the four counts is one that a `Decimal` can hold.
    pub open spec fn in_range(self) -> bool {
        in_range(self.min_x) && in_range(self.max_x) && in_range(self.min_y) && in_range(
            self.max_y,
        )
    }
}

/// The point in the middle of a bounding box.
#[derive(Clone, Copy, Debug, PartialEq, Eq)]
pub struct Center {
    pub lat: Decimal,
    pub lon: Decimal,
}

/// A center as two counts of units.
pub struct CenterUnits {
    pub lat: int,
    pub lon: int,
}

impl View for Center {
    type V = CenterUnits;

    open spec fn view(&self) -> CenterUnits {
        CenterUnits { lat: self.lat@, lon: self.lon@ }
    }
}

impl CenterUnits {
    /// Both counts are ones that a `Decimal` can hold.
    pub open spec fn in_range(self) -> bool {
        in_range(self.lat) && in_range(self.lon)
    }
}

/// The center of a bounding box: the mean of its latitudes and the mean of
/// its longitudes, each rounded down to a whole count of units.
pub open spec fn center_of(bounds: BoundsUnits) -> CenterUnits {
    CenterUnits {
        lat: mean_floor(bounds.min_y, bounds.max_y),
        lon: mean_floor(bounds.min_x, bounds.max_x),
    }
}

/// The center is the arithmetic mean of the bounds in each direction, to
/// within the half unit that rounding down can take; it is the mean itself
/// where that is a whole count, and it lies within bounds that are in order.
pub proof fn lemma_center_is_mean(bounds: BoundsUnits)
    ensures
        2 * center_of(bounds).lat <= bounds.min_y + bounds.max_y <= 2 * center_of(bounds).lat + 1,
        2 * center_of(bounds).lon <= bounds.min_x + bounds.max_x <= 2 * center_of(bounds).lon + 1,
        (bounds.min_y + bounds.max_y) % 2 == 0 ==> 2 * center_of(bounds).lat == bounds.min_y
            + bounds.max_y,
        (bounds.min_x + bounds.max_x) % 2 == 0 ==> 2 * center_of(bounds).lon == bounds.min_x
            + bounds.max_x,
        bounds.min_y <= bounds.max_y ==> bounds.min_y <= center_of(bounds).lat <= bounds.max_y,
        bounds.min_x <= bounds.max_x ==> bounds.min_x <= center_of(bounds).lon <= bounds.max_x,
{
}

impl Center {
    /// Computes the center of a bounding box.
    pub fn of(bounds: &Bounds) -> (center: Center)
        ensures
            center@ == center_of(bounds@),
    {
        Center {
            lat: bounds.min_y.midpoint(bounds.max_y),
            lon: bounds.min_x.midpoint(bounds.max_x),
        }
    }
}

/// What is published about a package beside its images.
#[derive(Clone, Debug, PartialEq, Eq)]
pub struct Summary {
    pub title: String,
    pub description: String,
    pub bounds: Bounds,
    pub center: Center,
}

/// A summary as plain values.
pub struct SummaryView {
    pub title: Seq<char>,
    pub description: Seq<char>,
    pub bounds: BoundsUnits,
    pub center: CenterUnits,
}

impl View for Summary {
    type V = SummaryView;

    open spec fn view(&self) -> SummaryView {
        SummaryView {
            title: self.title@,
            description: self.description@,
            bounds: self.bounds@,
            center: self.center@,
        }
    }
}

/// The leaf is a number, written as the text of `units`.
pub open spec fn is_number_leaf(leaf: Option<Json>, units: int) -> bool {
    match leaf {
        Some(Json::Number(text)) => text@ == units_text(units),
        _ => false,
    }
}

/// The leaf is a string of the given contents.
pub open spec fn is_text_leaf(leaf: Option<Json>, contents: Seq<char>) -> bool {
    match leaf {
        Some(Json::Text(text)) => text@ == contents,
        _ => false,
    }
}

/// The tree is an object that writes the bounds under `min_x`, `max_x`,
/// `min_y` and `max_y`.
pub open spec fn holds_bounds(tree: Json, bounds: BoundsUnits) -> bool {
    &&& is_number_leaf(tree.field("min_x"@), bounds.min_x)
    &&& is_number_leaf(tree.field("max_x"@), bounds.max_x)
    &&& is_number_leaf(tree.field("min_y"@), bounds.min_y)
    &&& is_number_leaf(tree.field("max_y"@), bounds.max_y)
}

/// The tree is an object that writes the center under `lat` and `lon`.
pub open spec fn holds_center(tree: Json, center: CenterUnits) -> bool {
    &&& is_number_leaf(tree.field("lat"@), center.lat)
    &&& is_number_leaf(tree.field("lon"@), center.lon)
}

/// The tree is an object that writes the summary under `title`,
/// `description`, `bounds` and `center`.
pub open spec fn holds_summary(tree: Json, summary: SummaryView) -> bool {
    &&& is_text_leaf(tree.field("title"@), summary.title)
    &&& is_text_leaf(tree.field("description"@), summary.description)
    &&& tree.field("bounds"@) is Some
    &&& holds_bounds(tree.field("bounds"@)->0, summary.bounds)
    &&& tree.field("center"@) is Some
    &&& holds_center(tree.field("center"@)->0, summary.center)
}

/// The bounds that a tree writes.
pub open spec fn bounds_in(tree: Json) -> Option<BoundsUnits> {
    match (
        tree.units_at("min_x"@),
        tree.units_at("max_x"@),
        tree.units_at("min_y"@),
        tree.units_at("max_y"@),
    ) {
        (Some(min_x), Some(max_x), Some(min_y), Some(max_y)) => Some(
            BoundsUnits { min_x, max_x, min_y, max_y },
        ),
        _ => None,
    }
}

/// The center that a tree writes.
pub open spec fn center_in(tree: Json) -> Option<CenterUnits> {
    match (tree.units_at("lat"@), tree.units_at("lon"@)) {
        (Some(lat), Some(lon)) => Some(CenterUnits { lat, lon }),
        _ => None,
    }
}

/// The bounds under `bounds` in a tree.
pub open spec fn bounds_member(tree: Json) -> Option<BoundsUnits> {
    match tree.field("bounds"@) {
        Some(member) => bounds_in(member),
        None => None,
    }
}

/// The center under `center` in a tree.
pub open spec fn center_member(tree: Json) -> Option<CenterUnits> {
    match tree.field("center"@) {
        Some(member) => center_in(member),
        None => None,
    }
}

/// The summary that a tree writes.
pub open spec fn summary_in(tree: Json) -> Option<SummaryView> {
    match (
        tree.text_at("title"@),
        tree.text_at("description"@),
        bounds_member(tree),
        center_member(tree),
    ) {
        (Some(title), Some(description), Some(bounds), Some(center)) => Some(
            SummaryView { title, description, bounds, center },
        ),
        _ => None,
    }
}

/// A summary written as a tree reads back as the same summary: the same
/// title and description, and bounds and center equal unit for unit.
pub proof fn lemma_summary_reads_back(tree: Json, summary: SummaryView)
    requires
        holds_summary(tree, summary),
        summary.bounds.in_range(),
        summary.center.in_range(),
    ensures
        summary_in(tree) == Some(summary),
{
    lemma_text_reads_back(summary.bounds.min_x);
    lemma_text_reads_back(summary.bounds.max_x);
    lemma_text_reads_back(summary.bounds.min_y);
    lemma_text_reads_back(summary.bounds.max_y);
    lemma_text_reads_back(summary.center.lat);
    lemma_text_reads_back(summary.center.lon);
}

/// The leaf that writes a number.
fn number_leaf(number: Decimal) -> (leaf: Json)
    ensures
        is_number_leaf(Some(leaf), number@),
        leaf.numeric_units() == Some(number@),
{
    Json::Number(number.to_text())
}

impl Bounds {
    /// Writes the bounds as a tree.
    pub fn to_json(&self) -> (tree: Json)
        ensures
            holds_bounds(tree, self@),
            bounds_in(tree) == Some(self@),
    {
        proof {
            reveal_strlit("min_x");
            reveal_strlit("max_x");
            reveal_strlit("min_y");
            reveal_strlit("max_y");
        }
        let members: Vec<(String, Json)> = vec![
            ("min_x".to_owned(), number_leaf(self.min_x)),
            ("max_x".to_owned(), number_leaf(self.max_x)),
            ("min_y".to_owned(), number_leaf(self.min_y)),
            ("max_y".to_owned(), number_leaf(self.max_y)),
        ];
        proof {
            assert("min_x"@[1] != "max_x"@[1] && "min_x"@[4] != "min_y"@[4]);
            assert("max_x"@[1] != "min_y"@[1] && "max_x"@[4] != "max_y"@[4]);
            assert("min_y"@[1] != "max_y"@[1]);
            lemma_member_found(members@, "min_x"@, 0, 0);
            lemma_member_found(members@, "max_x"@, 1, 0);
            lemma_member_found(members@, "min_y"@, 2, 0);
            lemma_member_found(members@, "max_y"@, 3, 0);
        }
        Json::Object(members)
    }

    /// Reads bounds from the tree that writes them.
    pub fn from_json(tree: &Json) -> (bounds: Option<Bounds>)
        ensures
            match bounds {
                Some(found) => bounds_in(*tree) == Some(found@),
                None => bounds_in(*tree) is None,
            },
    {
        let min_x = match tree.decimal_at("min_x") {
            Some(number) => number,
            None => {
                return None;
            },
        };
        let max_x = match tree.decimal_at("max_x") {
            Some(number) => number,
            None => {
                return None;
            },
        };
        let min_y = match tree.decimal_at("min_y") {
            Some(number) => number,
            None => {
                return None;
            },
        };
        let max_y = match tree.decimal_at("max_y") {
            Some(number) => number,
            None => {
                return None;
            },
        };
        Some(Bounds { min_x, max_x, min_y, max_y })
    }
}

impl Center {
    /// Writes the center as a tree.
    pub fn to_json(&self) -> (tree: Json)
        ensures
            holds_center(tree, self@),
            center_in(tree) == Some(self@),
    {
        proof {
            reveal_strlit("lat");
            reveal_strlit("lon");
        }
        let members: Vec<(String, Json)> = vec![
            ("lat".to_owned(), number_leaf(self.lat)),
            ("lon".to_owned(), number_leaf(self.lon)),
        ];
        proof {
            assert("lat"@[1] != "lon"@[1]);
            lemma_member_found(members@, "lat"@, 0, 0);
            lemma_member_found(members@, "lon"@, 1, 0);
        }
        Json::Object(members)
    }

    /// Reads a center from the tree that writes it.
    pub fn from_json(tree: &Json) -> (center: Option<Center>)
        ensures
            match center {
                Some(found) => center_in(*tree) == Some(found@),
                None => center_in(*tree) is None,
            },
    {
        let lat = match tree.decimal_at("lat") {
            Some(number) => number,
            None => {
                return None;
            },
        };
        let lon = match tree.decimal_at("lon") {
            Some(number) => number,
            None => {
                return None;
            },
        };
        Some(Center { lat, lon })
    }
}

impl Summary {
    /// Writes the summary as a tree.
    pub fn to_json(&self) -> (tree: Json)
        ensures
            holds_summary(tree, self@),
            summary_in(tree) == Some(self@),
    {
        proof {
            reveal_strlit("title");
            reveal_strlit("description");
            reveal_strlit("bounds");
            reveal_strlit("center");
        }
        let members: Vec<(String, Json)> = vec![
            ("title".to_owned(), Json::Text(self.title.clone())),
            ("description".to_owned(), Json::Text(self.description.clone())),
            ("bounds".to_owned(), self.bounds.to_json()),
            ("center".to_owned(), self.center.to_json()),
        ];
        proof {
            assert("title"@.len() != "description"@.len() && "title"@.len() != "bounds"@.len());
            assert("description"@.len() != "bounds"@.len());
            assert("center"@[0] != "bounds"@[0] && "center"@.len() != "title"@.len());
            assert("center"@.len() != "description"@.len());
            lemma_member_found(members@, "title"@, 0, 0);
            lemma_member_found(members@, "description"@, 1, 0);
            lemma_member_found(members@, "bounds"@, 2, 0);
            lemma_member_found(members@, "center"@, 3, 0);
        }
        Json::Object(members)
    }

    /// Reads a summary from the tree that writes it.
    pub fn from_json(tree: &Json) -> (summary: Option<Summary>)
        ensures
            match summary {
                Some(found) => summary_in(*tree) == Some(found@),
                None => summary_in(*tree) is None,
            },
    {
        let title = match tree.string_at("title") {
            Some(text) => text.clone(),
            None => {
                return None;
            },
        };
        let description = match tree.string_at("description") {
            Some(text) => text.clone(),
            None => {
                return None;
            },
        };
        let bounds = match tree.member("bounds") {
            Some(member) => match Bounds::from_json(member) {
                Some(bounds) => bounds,
                None => {
                    return None;
                },
            },
            None => {
                return None;
            },
        };
        let center = match tree.member("center") {
            Some(member) => match Center::from_json(member) {
                Some(center) => center,
                None => {
                    return None;
                },
            },
            None => {
                return None;
            },
        };
        Some(Summary { title, description, bounds, center })
    }


    /// A summary of the given bounds and center. Title and description are
    /// left empty: the packages carry neither.
    pub fn new(bounds: Bounds, center: Center) -> (summary: Summary)
        ensures
            summary.title@ == Seq::<char>::empty(),
            summary.description@ == Seq::<char>::empty(),
            summary.bounds == bounds,
            summary.center == center,
    {
        Summary { title: String::new(), description: String::new(), bounds, center }
    }
}

} // verus!
