use manifester::catalog::{flatten, Catalog, CountryPlaces, Place, Trip};
use manifester::error::ConfigError;
use manifester::place::{Country, Location};

fn place(location: Location, local_name: Option<&str>) -> Place {
    Place {
        location,
        local_name: local_name.map(|n| n.to_string()),
    }
}

fn trip(description: &str) -> Trip {
    Trip {
        name: "A trip".to_string(),
        description: description.to_string(),
        cities: vec![Location::Seoul],
        dates: vec!["2019/07".to_string()],
    }
}

#[test]
fn trip_id_string_strips_spaces_and_slashes() {
    assert_eq!(trip("Summer 2019/07").id_string(), "Summer201907");
    assert_eq!(trip("Korea").id_string(), "Korea");
    assert_eq!(trip(" / ").id_string(), "");
    assert_eq!(trip("Under_score").id_string(), "Under_score");
}

#[test]
fn catalog_keeps_places_and_trips_in_order() {
    let catalog = Catalog::new(
        vec![CountryPlaces {
            country: Country::Korea,
            locations: vec![
                place(Location::Local, Some("한국")),
                place(Location::Seoul, Some("서울")),
                place(Location::Jeju, None),
            ],
        }],
        vec![trip("One"), trip("Two")],
    )
    .unwrap();
    assert_eq!(catalog.places().len(), 1);
    assert_eq!(catalog.places()[0].country, Country::Korea);
    assert_eq!(catalog.places()[0].locations.len(), 3);
    assert_eq!(catalog.trips().len(), 2);
    assert_eq!(catalog.trips()[1].description, "Two");
    let entries = catalog.entries();
    assert_eq!(entries.len(), 3);
    assert_eq!(entries[0].location, Location::Local);
    assert_eq!(entries[0].local_name, Some("한국".to_string()));
    assert_eq!(entries[1].location, Location::Seoul);
    assert_eq!(entries[1].country, Country::Korea);
    assert_eq!(entries[2].location, Location::Jeju);
    assert_eq!(entries[2].local_name, None);
}

#[test]
fn catalog_may_be_empty() {
    let catalog = Catalog::new(Vec::new(), Vec::new()).unwrap();
    assert!(catalog.places().is_empty());
    assert!(catalog.trips().is_empty());
    assert!(catalog.entries().is_empty());
    assert!(flatten(&Vec::new()).is_empty());
}

#[test]
fn catalog_rejects_a_country_listed_twice() {
    let failure = Catalog::new(
        vec![
            CountryPlaces {
                country: Country::Korea,
                locations: vec![place(Location::Seoul, None)],
            },
            CountryPlaces {
                country: Country::Korea,
                locations: Vec::new(),
            },
        ],
        Vec::new(),
    )
    .unwrap_err();
    assert_eq!(failure, ConfigError::InvalidCatalog);
    assert_eq!(
        failure.message(),
        "The catalog holds a place more than once."
    );
}

#[test]
fn catalog_rejects_a_location_listed_twice() {
    let failure = Catalog::new(
        vec![CountryPlaces {
            country: Country::Korea,
            locations: vec![
                place(Location::Seoul, None),
                place(Location::Jeju, None),
                place(Location::Seoul, Some("서울")),
            ],
        }],
        Vec::new(),
    );
    assert_eq!(failure.unwrap_err(), ConfigError::InvalidCatalog);
    let twice_local = Catalog::new(
        vec![CountryPlaces {
            country: Country::Korea,
            locations: vec![place(Location::Local, None), place(Location::Local, None)],
        }],
        Vec::new(),
    );
    assert_eq!(twice_local.unwrap_err(), ConfigError::InvalidCatalog);
}
