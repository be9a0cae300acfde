//! Geographic features as they are kept in the store: named records with a point or a
//! polyline as their geometry.

use crate::error::StoreConsistencyError;
use crate::identifier::{location_identifier, to_location_identfier_string};
use crate::place::Location;
use crate::text::same_text;
use vstd::prelude::*;
use vstd::string::*;

verus! {

/// One coordinate value in degrees, carried as the bit pattern of a single-precision number.
/// The library moves such values and never computes with them.
#[derive(Clone, Copy, Debug, PartialEq, Eq, Structural)]
pub struct Degrees {
    pub bits: u32,
}

impl DeepView for Degrees {
    type V = Degrees;

    open spec fn deep_view(&self) -> Degrees {
        *self
    }
}

/// The coordinates of a geometry: one point `[lon, lat]`, or an ordered list of points.
#[derive(Debug, PartialEq)]
pub enum Coordinates {
    Point(Vec<Degrees>),
    LineString(Vec<Vec<Degrees>>),
}

/// The mathematical value of a [`Coordinates`].
pub enum CoordinatesView {
    Point(Seq<Degrees>),
    LineString(Seq<Seq<Degrees>>),
}

impl View for Coordinates {
    type V = CoordinatesView;

    open spec fn view(&self) -> CoordinatesView {
        match self {
            Coordinates::Point(point) => CoordinatesView::Point(point@),
            Coordinates::LineString(points) => CoordinatesView::LineString(points.deep_view()),
        }
    }
}

/// What a feature is called, in which language, and to which country it belongs.
#[derive(Debug, PartialEq)]
pub struct Properties {
    pub name: String,
    pub localname: Option<String>,
    pub country: Option<String>,
}

/// The mathematical value of a [`Properties`].
pub struct PropertiesView {
    pub name: Seq<char>,
    pub localname: Option<Seq<char>>,
    pub country: Option<Seq<char>>,
}

impl View for Properties {
    type V = PropertiesView;

    open spec fn view(&self) -> PropertiesView {
        PropertiesView {
            name: self.name@,
            localname: self.localname.deep_view(),
            country: self.country.deep_view(),
        }
    }
}

/// A geometry: its kind as text, and its coordinates.
#[derive(Debug, PartialEq)]
pub struct Geometry {
    pub type_: String,
    pub coordinates: Coordinates,
}

/// The mathematical value of a [`Geometry`].
pub struct GeometryView {
    pub type_: Seq<char>,
    pub coordinates: CoordinatesView,
}

impl View for Geometry {
    type V = GeometryView;

    open spec fn view(&self) -> GeometryView {
        GeometryView { type_: self.type_@, coordinates: self.coordinates@ }
    }
}

/// One record of the store. A feature with a point stands for a location, one with a
/// polyline for the path of a trip.
#[derive(Debug, PartialEq)]
pub struct Feature {
    pub type_: String,
    pub properties: Properties,
    pub geometry: Geometry,
}

/// The mathematical value of a [`Feature`].
pub struct FeatureView {
    pub type_: Seq<char>,
    pub properties: PropertiesView,
    pub geometry: GeometryView,
}

impl View for Feature {
    type V = FeatureView;

    open spec fn view(&self) -> FeatureView {
        FeatureView {
            type_: self.type_@,
            properties: self.properties@,
            geometry: self.geometry@,
        }
    }
}

impl DeepView for Feature {
    type V = FeatureView;

    open spec fn deep_view(&self) -> FeatureView {
        self@
    }
}

/// The store: an ordered list of features under a marker of the collection's kind.
#[derive(Debug, PartialEq)]
pub struct FeatureCollection {
    pub type_: String,
    pub features: Vec<Feature>,
}

/// The mathematical value of a [`FeatureCollection`].
pub struct FeatureCollectionView {
    pub type_: Seq<char>,
    pub features: Seq<FeatureView>,
}

impl View for FeatureCollection {
    type V = FeatureCollectionView;

    open spec fn view(&self) -> FeatureCollectionView {
        FeatureCollectionView { type_: self.type_@, features: self.features.deep_view() }
    }
}

/// The point feature that stands for a place: named `name`, with the given local name and
/// country code, at `[lon, lat]`.
pub open spec fn point_feature(
    name: Seq<char>,
    localname: Option<Seq<char>>,
    country: Option<Seq<char>>,
    lon: Degrees,
    lat: Degrees,
) -> FeatureView {
    FeatureView {
        type_: "Feature"@,
        properties: PropertiesView { name, localname, country },
        geometry: GeometryView {
            type_: "Point"@,
            coordinates: CoordinatesView::Point(seq![lon, lat]),
        },
    }
}

/// The polyline feature that stands for a path: named `name`, through `points` in order.
pub open spec fn line_feature(name: Seq<char>, points: Seq<Seq<Degrees>>) -> FeatureView {
    FeatureView {
        type_: "Feature"@,
        properties: PropertiesView { name, localname: None, country: None },
        geometry: GeometryView {
            type_: "LineString"@,
            coordinates: CoordinatesView::LineString(points),
        },
    }
}

/// The collection that holds `features`.
pub open spec fn collection_of(features: Seq<FeatureView>) -> FeatureCollectionView {
    FeatureCollectionView { type_: "FeatureCollection"@, features }
}

/// True when the feature at position `i` is the one that stands for the place with this tag:
/// the derived identifier of its name is the tag.
pub open spec fn names_place(features: Seq<FeatureView>, i: int, tag: Seq<char>) -> bool {
    0 <= i < features.len() && location_identifier(features[i].properties.name) == tag
}

/// True when some feature stands for the place with this tag.
pub open spec fn knows_place(features: Seq<FeatureView>, tag: Seq<char>) -> bool {
    exists|i: int| names_place(features, i, tag)
}

/// The position of the first feature that stands for the place with this tag, or the number
/// of features when there is none.
pub open spec fn place_position(features: Seq<FeatureView>, tag: Seq<char>) -> int
    decreases features.len(),
{
    if features.len() == 0 {
        0
    } else if location_identifier(features[0].properties.name) == tag {
        0
    } else {
        1 + place_position(features.drop_first(), tag)
    }
}

/// The coordinates that the features give for a location: those of the first feature that
/// stands for it, which must be a point.
pub open spec fn resolve(features: Seq<FeatureView>, location: Location) -> Result<
    Seq<Degrees>,
    StoreConsistencyError,
> {
    let i = place_position(features, location.spec_tag());
    if i >= features.len() {
        Err(StoreConsistencyError::MissingFeature(location))
    } else {
        match features[i].geometry.coordinates {
            CoordinatesView::Point(point) => Ok(point),
            CoordinatesView::LineString(_) => Err(StoreConsistencyError::NotAPoint(location)),
        }
    }
}

/// `place_position` is the first position that stands for the place, and lies past the end
/// exactly when no feature stands for it.
pub proof fn lemma_place_position(features: Seq<FeatureView>, tag: Seq<char>)
    ensures
        0 <= place_position(features, tag) <= features.len(),
        place_position(features, tag) < features.len() ==> names_place(
            features,
            place_position(features, tag),
            tag,
        ),
        forall|i: int| 0 <= i < place_position(features, tag) ==> !names_place(features, i, tag),
        knows_place(features, tag) <==> place_position(features, tag) < features.len(),
    decreases features.len(),
{
    if features.len() > 0 && location_identifier(features[0].properties.name) != tag {
        let rest = features.drop_first();
        lemma_place_position(rest, tag);
        assert forall|i: int| 0 <= i < place_position(features, tag) implies !names_place(
            features,
            i,
            tag,
        ) by {
            if i > 0 {
                assert(features[i] == rest[i - 1]);
                assert(!names_place(rest, i - 1, tag));
            }
        }
    }
    let p = place_position(features, tag);
    if p < features.len() {
        assert(names_place(features, p, tag));
    } else if knows_place(features, tag) {
        let i = choose|i: int| names_place(features, i, tag);
        assert(!names_place(features, i, tag));
    }
}

/// A position that stands for the place, with none before it that does, is `place_position`.
pub proof fn lemma_place_position_unique(features: Seq<FeatureView>, tag: Seq<char>, k: int)
    requires
        0 <= k <= features.len(),
        k < features.len() ==> names_place(features, k, tag),
        forall|i: int| 0 <= i < k ==> !names_place(features, i, tag),
    ensures
        place_position(features, tag) == k,
{
    lemma_place_position(features, tag);
    let p = place_position(features, tag);
    if p < k {
        assert(names_place(features, p, tag));
    } else if k < p {
        assert(names_place(features, k, tag));
    }
}

/// Features that are appended do not change where a known place is found.
pub proof fn lemma_place_position_extended(
    features: Seq<FeatureView>,
    more: Seq<FeatureView>,
    tag: Seq<char>,
)
    requires
        knows_place(features, tag),
    ensures
        place_position(features + more, tag) == place_position(features, tag),
        (features + more)[place_position(features, tag)] == features[place_position(
            features,
            tag,
        )],
{
    lemma_place_position(features, tag);
    let p = place_position(features, tag);
    let all = features + more;
    assert(all[p] == features[p]);
    assert forall|i: int| 0 <= i < p implies !names_place(all, i, tag) by {
        assert(all[i] == features[i]);
        assert(!names_place(features, i, tag));
    }
    lemma_place_position_unique(all, tag, p);
}

/// Copies a list of coordinate values.
pub fn copy_point(point: &Vec<Degrees>) -> (copy: Vec<Degrees>)
    ensures
        copy@ == point@,
{
    let mut copy: Vec<Degrees> = Vec::new();
    let mut i: usize = 0;
    while i < point.len()
        invariant
            i <= point.len(),
            copy@ == point@.take(i as int),
        decreases point.len() - i,
    {
        copy.push(point[i]);
        assert(point@.take(i + 1) =~= point@.take(i as int).push(point@[i as int]));
        i += 1;
    }
    assert(point@.take(point@.len() as int) =~= point@);
    copy
}

impl Feature {
    /// A point feature for a place: named `name`, with the given local name and country code,
    /// at `[lon, lat]`.
    pub fn point(
        name: String,
        localname: Option<String>,
        country: Option<String>,
        lon: Degrees,
        lat: Degrees,
    ) -> (feature: Feature)
        ensures
            feature@ == point_feature(name@, localname.deep_view(), country.deep_view(), lon, lat),
    {
        let mut point: Vec<Degrees> = Vec::new();
        point.push(lon);
        point.push(lat);
        assert(point@ =~= seq![lon, lat]);
        Feature {
            type_: String::from_str("Feature"),
            properties: Properties { name, localname, country },
            geometry: Geometry {
                type_: String::from_str("Point"),
                coordinates: Coordinates::Point(point),
            },
        }
    }

    /// A polyline feature for a path: named `name`, through `points` in order.
    pub fn line_string(name: String, points: Vec<Vec<Degrees>>) -> (feature: Feature)
        ensures
            feature@ == line_feature(name@, points.deep_view()),
    {
        Feature {
            type_: String::from_str("Feature"),
            properties: Properties { name, localname: None, country: None },
            geometry: Geometry {
                type_: String::from_str("LineString"),
                coordinates: Coordinates::LineString(points),
            },
        }
    }
}

impl FeatureCollection {
    /// The collection that holds `features`.
    pub fn new(features: Vec<Feature>) -> (collection: FeatureCollection)
        ensures
            collection@ == collection_of(features.deep_view()),
    {
        FeatureCollection { type_: String::from_str("FeatureCollection"), features }
    }
}

impl Location {
    /// Resolves the location to its coordinates: those of the first feature whose name has
    /// the location's tag as its derived identifier. Fails when there is no such feature, or
    /// when that feature is not a point.
    pub fn feature_coordinates(&self, features: &[Feature]) -> (coordinates: Result<
        Vec<Degrees>,
        StoreConsistencyError,
    >)
        ensures
            match coordinates {
                Ok(point) => resolve(features.deep_view(), *self) == Ok::<
                    Seq<Degrees>,
                    StoreConsistencyError,
                >(point@),
                Err(e) => resolve(features.deep_view(), *self) == Err::<
                    Seq<Degrees>,
                    StoreConsistencyError,
                >(e),
            },
    {
        let ghost views = features.deep_view();
        let ghost tag = self.spec_tag();
        let mut i: usize = 0;
        while i < features.len()
            invariant
                i <= features.len(),
                views == features.deep_view(),
                tag == self.spec_tag(),
                forall|j: int| 0 <= j < i ==> !names_place(views, j, tag),
            decreases features.len() - i,
        {
            let identifier = to_location_identfier_string(features[i].properties.name.as_str());
            assert(views[i as int] == features@[i as int]@);
            if same_text(identifier.as_str(), self.tag()) {
                proof {
                    lemma_place_position_unique(views, tag, i as int);
                }
                match &features[i].geometry.coordinates {
                    Coordinates::Point(point) => {
                        return Ok(copy_point(point));
                    },
                    Coordinates::LineString(_) => {
                        return Err(StoreConsistencyError::NotAPoint(*self));
                    },
                }
            }
            i += 1;
        }
        proof {
            lemma_place_position_unique(views, tag, views.len() as int);
        }
        Err(StoreConsistencyError::MissingFeature(*self))
    }
}

} // verus!
