use manifester::catalog::{Catalog, CountryPlaces, Place, Trip};
use manifester::diff::store_knows;
use manifester::error::{ConfigError, Error, GeocodeError, StoreConsistencyError};
use manifester::geo::{Coordinates, Degrees, Feature, FeatureCollection};
use manifester::place::{Country, CountryCodes, Location};
use manifester::reconcile::{LocationInformation, Progress, Reconciler, Reconciliation};

fn deg(value: f32) -> Degrees {
    Degrees { bits: value.to_bits() }
}

fn codes() -> CountryCodes {
    CountryCodes::new(vec![("Korea".to_string(), "KOR".to_string())])
}

fn catalog(locations: &[(Location, Option<&str>)], trips: Vec<Trip>) -> Catalog {
    Catalog::new(
        vec![CountryPlaces {
            country: Country::Korea,
            locations: locations
                .iter()
                .map(|(l, n)| Place {
                    location: *l,
                    local_name: n.map(|n| n.to_string()),
                })
                .collect(),
        }],
        trips,
    )
    .unwrap()
}

fn trip(name: &str, cities: Vec<Location>) -> Trip {
    Trip {
        name: name.to_string(),
        description: name.to_string(),
        cities,
        dates: Vec::new(),
    }
}

fn seoul_feature() -> Feature {
    Feature::point(
        "Seoul".to_string(),
        Some("서울".to_string()),
        Some("KOR".to_string()),
        deg(126.978),
        deg(37.5665),
    )
}

fn coordinates_of(feature: &Feature) -> Vec<Degrees> {
    match &feature.geometry.coordinates {
        Coordinates::Point(p) => p.clone(),
        Coordinates::LineString(_) => panic!("a point was expected"),
    }
}

/// Drives a reconciliation with a geocoder that answers from `answers`, and notes what it
/// was asked.
fn run(
    catalog: &Catalog,
    store: Option<FeatureCollection>,
    answers: &[(f32, f32)],
    asked: &mut Vec<String>,
) -> Reconciliation {
    let mut reconciler = Reconciler::begin(catalog, store);
    let mut next = 0;
    loop {
        match reconciler.advance().unwrap() {
            Progress::Geocode(pending) => {
                asked.push(pending.query().clone());
                let (lon, lat) = answers[next];
                next += 1;
                reconciler = pending.supply(&codes(), deg(lon), deg(lat)).unwrap();
            }
            Progress::Finished(completed) => {
                return completed.conclude(catalog.trips());
            }
        }
    }
}

#[test]
fn without_a_store_every_location_is_geocoded() {
    let catalog = catalog(
        &[(Location::Local, Some("한국")), (Location::Seoul, Some("서울"))],
        vec![trip("Capital", vec![Location::Seoul])],
    );
    let mut asked = Vec::new();
    let outcome = run(&catalog, None, &[(126.978, 37.5665)], &mut asked);
    assert_eq!(asked, vec!["Seoul, Korea".to_string()]);
    assert!(outcome.write_store);
    assert_eq!(outcome.store.type_, "FeatureCollection");
    assert_eq!(outcome.store.features.len(), 1);
    let feature = &outcome.store.features[0];
    assert_eq!(feature.type_, "Feature");
    assert_eq!(feature.properties.name, "Seoul");
    assert_eq!(feature.properties.localname, Some("서울".to_string()));
    assert_eq!(feature.properties.country, Some("KOR".to_string()));
    assert_eq!(feature.geometry.type_, "Point");
    assert_eq!(coordinates_of(feature), vec![deg(126.978), deg(37.5665)]);
    assert_eq!(outcome.details.len(), 1);
    assert_eq!(outcome.details[0].id, Location::Seoul);
    assert_eq!(outcome.details[0].name, "Seoul");
    assert_eq!(outcome.details[0].country, Country::Korea);
    assert_eq!(outcome.details[0].coordinates, vec![deg(126.978), deg(37.5665)]);
    assert_eq!(outcome.trips.as_ref().unwrap().features.len(), 1);
    assert_eq!(outcome.trips.as_ref().unwrap().features[0].properties.name, "Capital");
    assert_eq!(outcome.trips.as_ref().unwrap().features[0].geometry.type_, "LineString");
}

#[test]
fn without_a_store_and_without_trips() {
    let catalog = catalog(&[(Location::Local, None), (Location::Seoul, None)], Vec::new());
    let mut asked = Vec::new();
    let outcome = run(&catalog, None, &[(1.5, 2.5)], &mut asked);
    assert_eq!(asked.len(), 1);
    assert_eq!(outcome.store.features.len(), 1);
    assert_eq!(outcome.store.features[0].properties.name, "Seoul");
    assert_eq!(outcome.trips.as_ref().unwrap().type_, "FeatureCollection");
    assert!(outcome.trips.as_ref().unwrap().features.is_empty());
    assert_eq!(outcome.details.len(), 1);
    assert_eq!(outcome.details[0].coordinates, vec![deg(1.5), deg(2.5)]);
}

#[test]
fn only_the_missing_location_is_geocoded() {
    let catalog = catalog(
        &[(Location::Local, None), (Location::Seoul, Some("서울")), (Location::Jeju, Some("제주"))],
        vec![trip("South", vec![Location::Seoul, Location::Jeju])],
    );
    let store = FeatureCollection::new(vec![seoul_feature()]);
    let mut asked = Vec::new();
    let outcome = run(&catalog, Some(store), &[(126.5312, 33.4996)], &mut asked);
    assert_eq!(asked, vec!["Jeju, Korea".to_string()]);
    assert!(outcome.write_store);
    assert_eq!(outcome.store.features.len(), 2);
    let kept = &outcome.store.features[0];
    assert_eq!(kept.properties.name, "Seoul");
    assert_eq!(kept.properties.localname, Some("서울".to_string()));
    assert_eq!(kept.properties.country, Some("KOR".to_string()));
    assert_eq!(coordinates_of(kept), vec![deg(126.978), deg(37.5665)]);
    let added = &outcome.store.features[1];
    assert_eq!(added.properties.name, "Jeju");
    assert_eq!(added.properties.localname, Some("제주".to_string()));
    assert_eq!(added.properties.country, Some("KOR".to_string()));
    assert_eq!(coordinates_of(added), vec![deg(126.5312), deg(33.4996)]);
    assert_eq!(outcome.details.len(), 2);
    assert_eq!(outcome.details[0].id, Location::Seoul);
    assert_eq!(outcome.details[0].coordinates, vec![deg(126.978), deg(37.5665)]);
    assert_eq!(outcome.details[1].id, Location::Jeju);
    assert_eq!(outcome.details[1].coordinates, vec![deg(126.5312), deg(33.4996)]);
    for entry in catalog.entries() {
        if entry.location != Location::Local {
            assert!(store_knows(&outcome.store.features, entry.location.tag()));
        }
    }
    assert_eq!(
        Location::Jeju.feature_coordinates(&outcome.store.features),
        Ok(vec![deg(126.5312), deg(33.4996)])
    );
    match &outcome.trips.as_ref().unwrap().features[0].geometry.coordinates {
        Coordinates::LineString(points) => assert_eq!(
            points,
            &vec![
                vec![deg(126.978), deg(37.5665)],
                vec![deg(126.5312), deg(33.4996)]
            ]
        ),
        Coordinates::Point(_) => panic!("a polyline was expected"),
    }
}

#[test]
fn a_second_run_asks_for_nothing_and_leaves_the_store() {
    let catalog = catalog(
        &[
            (Location::Local, None),
            (Location::Seoul, None),
            (Location::Andong, None),
            (Location::Jeju, None),
        ],
        vec![trip("All", vec![Location::Jeju, Location::Andong, Location::Seoul])],
    );
    let mut asked = Vec::new();
    let first = run(
        &catalog,
        Some(FeatureCollection::new(vec![seoul_feature()])),
        &[(128.7294, 36.5684), (126.5312, 33.4996)],
        &mut asked,
    );
    assert_eq!(asked, vec!["Andong, Korea".to_string(), "Jeju, Korea".to_string()]);
    assert!(first.write_store);
    let names: Vec<String> = first
        .store
        .features
        .iter()
        .map(|f| f.properties.name.clone())
        .collect();
    assert_eq!(names, vec!["Seoul", "Andong", "Jeju"]);
    let points: Vec<Vec<Degrees>> = first.store.features.iter().map(coordinates_of).collect();
    let first_details: Vec<(Location, Vec<Degrees>)> = first
        .details
        .iter()
        .map(|d| (d.id, d.coordinates.clone()))
        .collect();

    let mut asked_again = Vec::new();
    let second = run(&catalog, Some(first.store), &[], &mut asked_again);
    assert!(asked_again.is_empty());
    assert!(!second.write_store);
    let names_again: Vec<String> = second
        .store
        .features
        .iter()
        .map(|f| f.properties.name.clone())
        .collect();
    assert_eq!(names_again, names);
    let points_again: Vec<Vec<Degrees>> = second.store.features.iter().map(coordinates_of).collect();
    assert_eq!(points_again, points);
    let second_details: Vec<(Location, Vec<Degrees>)> = second
        .details
        .iter()
        .map(|d| (d.id, d.coordinates.clone()))
        .collect();
    assert_eq!(second_details, first_details);
}

#[test]
fn the_reconciler_reports_what_is_new() {
    let catalog = catalog(
        &[(Location::Local, None), (Location::Seoul, None), (Location::Jeju, None)],
        Vec::new(),
    );
    let with_store = Reconciler::begin(
        &catalog,
        Some(FeatureCollection::new(vec![seoul_feature()])),
    );
    assert_eq!(with_store.new_locations(), &vec![Location::Jeju]);
    let without_store = Reconciler::begin(&catalog, None);
    assert_eq!(without_store.new_locations(), &vec![Location::Seoul, Location::Jeju]);
}

#[test]
fn an_empty_existing_store_is_not_rewritten_for_an_empty_catalog() {
    let catalog = catalog(&[(Location::Local, None)], Vec::new());
    let mut asked = Vec::new();
    let existing = run(&catalog, Some(FeatureCollection::new(Vec::new())), &[], &mut asked);
    assert!(asked.is_empty());
    assert!(!existing.write_store);
    assert!(existing.store.features.is_empty());
    assert!(existing.details.is_empty());
    let absent = run(&catalog, None, &[], &mut asked);
    assert!(asked.is_empty());
    assert!(absent.write_store);
    assert!(absent.store.features.is_empty());
}

#[test]
fn a_country_without_a_code_fails_after_the_search() {
    let catalog = catalog(&[(Location::Seoul, None)], Vec::new());
    let empty = CountryCodes::new(Vec::new());
    let reconciler = Reconciler::begin(&catalog, None);
    match reconciler.advance().unwrap() {
        Progress::Geocode(pending) => {
            assert_eq!(pending.query(), "Seoul, Korea");
            let failure = pending.supply(&empty, deg(1.0), deg(2.0)).unwrap_err();
            assert_eq!(failure, ConfigError::MissingCountryCode(Country::Korea));
        }
        Progress::Finished(_) => panic!("a search was expected"),
    }
}

#[test]
fn a_known_location_that_is_no_point_fails() {
    let catalog = catalog(&[(Location::Seoul, None)], Vec::new());
    let store = FeatureCollection::new(vec![Feature::line_string(
        "Seoul".to_string(),
        vec![vec![deg(1.0), deg(2.0)]],
    )]);
    let failure = Reconciler::begin(&catalog, Some(store))
        .advance()
        .unwrap_err();
    assert_eq!(failure, StoreConsistencyError::NotAPoint(Location::Seoul));
}

#[test]
fn a_trip_through_an_unknown_city_fails_at_the_end() {
    let catalog = catalog(
        &[(Location::Seoul, None)],
        vec![trip("Far", vec![Location::Seoul, Location::Jinju])],
    );
    let reconciler = Reconciler::begin(&catalog, Some(FeatureCollection::new(vec![seoul_feature()])));
    match reconciler.advance().unwrap() {
        Progress::Finished(completed) => {
            let outcome = completed.conclude(catalog.trips());
            assert_eq!(
                outcome.trips.unwrap_err(),
                StoreConsistencyError::MissingFeature(Location::Jinju)
            );
            assert!(!outcome.write_store);
            assert_eq!(outcome.store.features.len(), 1);
            assert_eq!(outcome.details.len(), 1);
        }
        Progress::Geocode(_) => panic!("no search was expected"),
    }
}

#[test]
fn a_whole_run_without_a_store() {
    let catalog = catalog(
        &[(Location::Local, Some("한국")), (Location::Seoul, Some("서울"))],
        vec![trip("Capital", vec![Location::Seoul, Location::Seoul])],
    );
    let answers = vec![Some((deg(126.978), deg(37.5665)))];
    let outcome = LocationInformation::new(&catalog, &codes(), None, &answers).unwrap();
    assert!(outcome.write_store);
    assert_eq!(outcome.store.features.len(), 1);
    assert_eq!(outcome.store.features[0].properties.name, "Seoul");
    assert_eq!(outcome.store.features[0].properties.localname, Some("서울".to_string()));
    assert_eq!(outcome.store.features[0].properties.country, Some("KOR".to_string()));
    assert_eq!(
        coordinates_of(&outcome.store.features[0]),
        vec![deg(126.978), deg(37.5665)]
    );
    assert_eq!(outcome.details.len(), 1);
    assert_eq!(outcome.details[0].id, Location::Seoul);
    assert_eq!(outcome.details[0].name, "Seoul");
    assert_eq!(outcome.details[0].country, Country::Korea);
    assert_eq!(outcome.details[0].coordinates, vec![deg(126.978), deg(37.5665)]);
    assert_eq!(outcome.trips.as_ref().unwrap().features.len(), 1);
    match &outcome.trips.as_ref().unwrap().features[0].geometry.coordinates {
        Coordinates::LineString(points) => assert_eq!(
            points,
            &vec![
                vec![deg(126.978), deg(37.5665)],
                vec![deg(126.978), deg(37.5665)]
            ]
        ),
        Coordinates::Point(_) => panic!("a polyline was expected"),
    }
}

#[test]
fn a_whole_run_appends_to_the_store_and_a_second_one_does_not() {
    let catalog = catalog(
        &[(Location::Local, None), (Location::Seoul, None), (Location::Jeju, None)],
        Vec::new(),
    );
    let store = FeatureCollection::new(vec![seoul_feature()]);
    let answers = vec![Some((deg(126.5312), deg(33.4996))), Some((deg(0.0), deg(0.0)))];
    let first = LocationInformation::new(&catalog, &codes(), Some(store), &answers).unwrap();
    assert!(first.write_store);
    assert_eq!(first.store.features.len(), 2);
    assert_eq!(first.store.features[0].properties.name, "Seoul");
    assert_eq!(first.store.features[0].properties.localname, Some("서울".to_string()));
    assert_eq!(first.store.features[1].properties.name, "Jeju");
    assert_eq!(
        coordinates_of(&first.store.features[1]),
        vec![deg(126.5312), deg(33.4996)]
    );
    let details: Vec<Vec<Degrees>> = first.details.iter().map(|d| d.coordinates.clone()).collect();
    let second =
        LocationInformation::new(&catalog, &codes(), Some(first.store), &Vec::new()).unwrap();
    assert!(!second.write_store);
    assert_eq!(second.store.features.len(), 2);
    assert_eq!(second.store.features[0].properties.name, "Seoul");
    assert_eq!(second.store.features[1].properties.name, "Jeju");
    let details_again: Vec<Vec<Degrees>> =
        second.details.iter().map(|d| d.coordinates.clone()).collect();
    assert_eq!(details_again, details);
}

#[test]
fn a_whole_run_fails_where_a_search_finds_nothing() {
    let catalog = catalog(&[(Location::Seoul, None), (Location::Jeju, None)], Vec::new());
    let failure = LocationInformation::new(
        &catalog,
        &codes(),
        None,
        &vec![Some((deg(1.0), deg(2.0))), None],
    )
    .unwrap_err();
    match &failure {
        Error::Geocode(GeocodeError::NotFound(place)) => assert_eq!(place, "Jeju, Korea"),
        other => panic!("unexpected error {:?}", other),
    }
    assert_eq!(failure.message(), "Search for Jeju, Korea did not find coordinates");
    let too_few =
        LocationInformation::new(&catalog, &codes(), None, &vec![Some((deg(1.0), deg(2.0)))])
            .unwrap_err();
    assert!(matches!(too_few, Error::Geocode(GeocodeError::NotFound(_))));
}

#[test]
fn a_whole_run_reports_the_other_failures_by_kind() {
    let catalog = catalog(
        &[(Location::Seoul, None)],
        vec![trip("Far", vec![Location::Jinju])],
    );
    let no_code = LocationInformation::new(
        &catalog,
        &CountryCodes::new(Vec::new()),
        None,
        &vec![Some((deg(1.0), deg(2.0)))],
    )
    .unwrap_err();
    assert!(matches!(
        no_code,
        Error::Config(ConfigError::MissingCountryCode(Country::Korea))
    ));
    let no_city =
        LocationInformation::new(&catalog, &codes(), None, &vec![Some((deg(1.0), deg(2.0)))])
            .unwrap();
    assert_eq!(
        no_city.trips,
        Err(StoreConsistencyError::MissingFeature(Location::Jinju))
    );
    assert!(!no_city.write_store);
    assert_eq!(no_city.store.features.len(), 1);
    let grown = LocationInformation::new(
        &catalog,
        &codes(),
        Some(FeatureCollection::new(Vec::new())),
        &vec![Some((deg(1.0), deg(2.0)))],
    )
    .unwrap();
    assert_eq!(
        grown.trips,
        Err(StoreConsistencyError::MissingFeature(Location::Jinju))
    );
    assert!(grown.write_store);
    assert_eq!(grown.store.features.len(), 1);
    assert_eq!(grown.store.features[0].properties.name, "Seoul");
    let line = FeatureCollection::new(vec![Feature::line_string("Seoul".to_string(), Vec::new())]);
    let no_point =
        LocationInformation::new(&catalog, &codes(), Some(line), &Vec::new()).unwrap_err();
    assert!(matches!(
        no_point,
        Error::Store(StoreConsistencyError::NotAPoint(Location::Seoul))
    ));
}

#[test]
fn the_store_keeps_its_marker() {
    let catalog = catalog(&[(Location::Seoul, None), (Location::Jeju, None)], Vec::new());
    let odd = FeatureCollection {
        type_: "Collection".to_string(),
        features: vec![seoul_feature()],
    };
    let outcome = LocationInformation::new(
        &catalog,
        &codes(),
        Some(odd),
        &vec![Some((deg(1.0), deg(2.0)))],
    )
    .unwrap();
    assert_eq!(outcome.store.type_, "Collection");
    assert_eq!(outcome.store.features.len(), 2);
    assert_eq!(outcome.trips.as_ref().unwrap().type_, "FeatureCollection");
    let fresh = LocationInformation::new(
        &catalog,
        &codes(),
        None,
        &vec![Some((deg(1.0), deg(2.0))), Some((deg(3.0), deg(4.0)))],
    )
    .unwrap();
    assert_eq!(fresh.store.type_, "FeatureCollection");
}
