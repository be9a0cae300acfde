use manifester::error::StoreConsistencyError;
use manifester::geo::{Coordinates, Degrees, Feature, FeatureCollection};
use manifester::place::Location;

fn deg(value: f32) -> Degrees {
    Degrees { bits: value.to_bits() }
}

fn point(name: &str, lon: f32, lat: f32) -> Feature {
    Feature::point(
        name.to_string(),
        None,
        Some("KOR".to_string()),
        deg(lon),
        deg(lat),
    )
}

#[test]
fn point_feature_has_the_stored_shape() {
    let feature = Feature::point(
        "Seoul".to_string(),
        Some("서울".to_string()),
        Some("KOR".to_string()),
        deg(126.978),
        deg(37.5665),
    );
    assert_eq!(feature.type_, "Feature");
    assert_eq!(feature.properties.name, "Seoul");
    assert_eq!(feature.properties.localname, Some("서울".to_string()));
    assert_eq!(feature.properties.country, Some("KOR".to_string()));
    assert_eq!(feature.geometry.type_, "Point");
    match feature.geometry.coordinates {
        Coordinates::Point(p) => assert_eq!(p, vec![deg(126.978), deg(37.5665)]),
        Coordinates::LineString(_) => panic!("a point was expected"),
    }
}

#[test]
fn line_feature_has_the_stored_shape() {
    let feature = Feature::line_string(
        "Summer".to_string(),
        vec![vec![deg(1.0), deg(2.0)], vec![deg(3.0), deg(4.0)]],
    );
    assert_eq!(feature.type_, "Feature");
    assert_eq!(feature.properties.name, "Summer");
    assert_eq!(feature.properties.localname, None);
    assert_eq!(feature.properties.country, None);
    assert_eq!(feature.geometry.type_, "LineString");
    match feature.geometry.coordinates {
        Coordinates::LineString(points) => {
            assert_eq!(
                points,
                vec![vec![deg(1.0), deg(2.0)], vec![deg(3.0), deg(4.0)]]
            )
        }
        Coordinates::Point(_) => panic!("a polyline was expected"),
    }
    let collection = FeatureCollection::new(Vec::new());
    assert_eq!(collection.type_, "FeatureCollection");
    assert!(collection.features.is_empty());
}

#[test]
fn feature_coordinates_takes_the_first_match() {
    let features = vec![
        point("Andong", 128.7, 36.5),
        point("Seoul", 126.978, 37.5665),
        point("Seoul", 1.0, 2.0),
    ];
    assert_eq!(
        Location::Seoul.feature_coordinates(&features),
        Ok(vec![deg(126.978), deg(37.5665)])
    );
    assert_eq!(
        Location::Andong.feature_coordinates(&features),
        Ok(vec![deg(128.7), deg(36.5)])
    );
}

#[test]
fn feature_coordinates_matches_by_derived_identifier() {
    let features = vec![point("Se oul", 1.0, 2.0), point("J_e ju", 3.0, 4.0)];
    assert_eq!(
        Location::Seoul.feature_coordinates(&features),
        Ok(vec![deg(1.0), deg(2.0)])
    );
    assert_eq!(
        Location::Jeju.feature_coordinates(&features),
        Ok(vec![deg(3.0), deg(4.0)])
    );
    let lower = vec![point("seoul", 1.0, 2.0)];
    assert_eq!(
        Location::Seoul.feature_coordinates(&lower),
        Err(StoreConsistencyError::MissingFeature(Location::Seoul))
    );
}

#[test]
fn feature_coordinates_missing_feature() {
    let features = vec![point("Andong", 128.7, 36.5)];
    let failure = Location::Seoul.feature_coordinates(&features);
    assert_eq!(
        failure,
        Err(StoreConsistencyError::MissingFeature(Location::Seoul))
    );
    assert_eq!(
        failure.unwrap_err().message(),
        "Could not find coordinates for Seoul."
    );
    assert_eq!(
        Location::Seoul.feature_coordinates(&[]),
        Err(StoreConsistencyError::MissingFeature(Location::Seoul))
    );
}

#[test]
fn feature_coordinates_rejects_a_polyline() {
    let features = vec![
        Feature::line_string("Seoul".to_string(), vec![vec![deg(1.0), deg(2.0)]]),
        point("Seoul", 126.978, 37.5665),
    ];
    let failure = Location::Seoul.feature_coordinates(&features);
    assert_eq!(failure, Err(StoreConsistencyError::NotAPoint(Location::Seoul)));
    assert_eq!(
        failure.unwrap_err().message(),
        "Seoul does not have Point coordinates."
    );
}
