use manifester::assets::{ImageAsset, Month};
use manifester::catalog::{Catalog, CountryPlaces, Place, Trip};
use manifester::countries::{find_home_name, write_countries};
use manifester::emit::{just, put_cases, put_list, put_variants, quote, Fragment};
use manifester::error::{AssetError, ConfigError, Error, GenerationError};
use manifester::geo::Degrees;
use manifester::locations::{find_entry, write_locations, write_locations_head};
use manifester::manifest::{construct_manifest, write_manifest};
use manifester::place::{Country, CountryCodes, Location};
use manifester::reconcile::LocationInformation;
use manifester::trip_decls::{write_date, write_trip_record, write_trips};

fn deg(value: f32) -> Degrees {
    Degrees { bits: value.to_bits() }
}

fn text(s: &str) -> Fragment {
    Fragment::Text(s.to_string())
}

fn codes() -> CountryCodes {
    CountryCodes::new(vec![("Korea".to_string(), "KOR".to_string())])
}

fn place(location: Location, local_name: Option<&str>) -> Place {
    Place {
        location,
        local_name: local_name.map(|n| n.to_string()),
    }
}

fn summer() -> Trip {
    Trip {
        name: "Summer in Korea".to_string(),
        description: "Korea 2019/07".to_string(),
        cities: vec![Location::Seoul, Location::Jeju],
        dates: vec!["2019/07".to_string(), "2019/08".to_string()],
    }
}

fn catalog(trips: Vec<Trip>) -> Catalog {
    Catalog::new(
        vec![CountryPlaces {
            country: Country::Korea,
            locations: vec![
                place(Location::Local, Some("한국")),
                place(Location::Jeju, None),
                place(Location::Seoul, Some("서울")),
            ],
        }],
        trips,
    )
    .unwrap()
}

fn info(id: Location, coordinates: Vec<Degrees>) -> LocationInformation {
    LocationInformation {
        id,
        name: id.name(),
        country: Country::Korea,
        coordinates,
    }
}

fn asset(file: &str, location: Location, description: &str) -> ImageAsset {
    ImageAsset {
        file: file.to_string(),
        year: "2019".to_string(),
        month: Month::Jul,
        location,
        width: 4000,
        height: 3000,
        description: description.to_string(),
    }
}

const COUNTRIES: &str = "type Country
    = Korea
countryList : List Country
countryList =
    [ Korea
    ]
countryId : Country -> String
countryId country =
    case country of
        Korea ->
            \"KOR\"
countryName : Country -> String
countryName country =
    case country of
        Korea ->
            \"Korea\"
stringToCountry : String -> Maybe Country
stringToCountry country =
    case country of
        \"Korea\" ->
            Just Korea
        _ ->
            Nothing
countryLocalName : Country -> Maybe String
countryLocalName country =
    case country of
        Korea ->
            Just \"한국\"
";

const LOCATIONS_HEAD: &str = "type Location
    = Seoul
    | Jeju
locationList : List Location
locationList =
    [ Seoul
    , Jeju
    ]
stringToLocation : String -> Maybe Location
stringToLocation location =
    case location of
        \"Seoul\" ->
            Just Seoul
        \"Jeju\" ->
            Just Jeju
        _ ->
            Nothing
locationLocalName : Location -> Maybe String
locationLocalName location =
    case location of
        Seoul ->
            Just \"서울\"
type alias LocationInformation =
    { name : String
    , country : Country
    , coordinates : ( Float, Float )
    }
locationInformation : Location -> LocationInformation
locationInformation location =
    case location of
";

const TRIPS: &str = "type Trip
    = Korea201907
tripList : List Trip
tripList =
    [ Korea201907
    ]
stringToTrip : String -> Maybe Trip
stringToTrip trip =
    case trip of
        \"Korea 2019/07\" ->
            Just Korea201907
        _ ->
            Nothing
type alias TripInformation =
    { name : String
    , description : String
    , locations : List Location
    , dates : List Date
    }
tripInformation : Trip -> TripInformation
tripInformation trip =
    case trip of
        Korea201907 ->
            { name = \"Summer in Korea\"
            , description = \"Korea 2019/07\"
            , locations = [ Seoul, Jeju ]
            , dates = [ Date 2019 Jul, Date 2019 Aug ]
            }
type alias Year =
    Int
type Month
    = Jan
    | Feb
    | Mar
    | Apr
    | May
    | Jun
    | Jul
    | Aug
    | Sep
    | Oct
    | Nov
    | Dec
type alias Date =
    { year : Year
    , month : Month
    }
";

const IMAGES_HEAD: &str = "type alias Image =
    { file : String
    , date : Date
    , location : Location
    , aspectRatio : Float
    , description : String
    }
manifest : List Image
manifest =
";

const HEADER: &str = "module Manifest exposing (Country(..), Date, Image, Location(..), Month(..), Trip(..), Year, countryId, countryList, countryLocalName, countryName, locationInformation, locationList, locationLocalName, manifest, stringToCountry, stringToLocation, stringToTrip, tripInformation, tripList)\n";

#[test]
fn emitters_write_variants_lists_and_cases() {
    let tags = vec!["A".to_string(), "B".to_string(), "C".to_string()];
    let mut out = String::from(">");
    put_variants(&mut out, &tags);
    assert_eq!(out, ">    = A\n    | B\n    | C\n");
    let mut out = String::new();
    put_list(&mut out, &tags);
    assert_eq!(out, "    [ A\n    , B\n    , C\n    ]\n");
    let mut out = String::new();
    put_variants(&mut out, &Vec::new());
    put_list(&mut out, &Vec::new());
    assert_eq!(out, "    ]\n");
    let mut out = String::from("x\n");
    put_cases(
        &mut out,
        &vec![
            ("A".to_string(), "1".to_string()),
            ("B".to_string(), "2".to_string()),
        ],
    );
    assert_eq!(
        out,
        "x\n        A ->\n            1\n        B ->\n            2\n"
    );
    assert_eq!(quote("a b"), "\"a b\"");
    assert_eq!(quote(""), "\"\"");
    assert_eq!(just("Seoul"), "Just Seoul");
}

#[test]
fn countries_are_declared() {
    assert_eq!(write_countries(&catalog(Vec::new()), &codes()).unwrap(), COUNTRIES);
}

#[test]
fn countries_of_an_empty_catalog() {
    let empty = Catalog::new(Vec::new(), Vec::new()).unwrap();
    assert_eq!(
        write_countries(&empty, &codes()).unwrap(),
        "type Country\ncountryList : List Country\ncountryList =\n    ]\ncountryId : Country -> String\ncountryId country =\n    case country of\ncountryName : Country -> String\ncountryName country =\n    case country of\nstringToCountry : String -> Maybe Country\nstringToCountry country =\n    case country of\n        _ ->\n            Nothing\ncountryLocalName : Country -> Maybe String\ncountryLocalName country =\n    case country of\n"
    );
}

#[test]
fn countries_without_a_code_fail() {
    assert_eq!(
        write_countries(&catalog(Vec::new()), &CountryCodes::new(Vec::new())),
        Err(ConfigError::MissingCountryCode(Country::Korea))
    );
}

#[test]
fn home_name_is_the_local_name_of_the_sentinel() {
    assert_eq!(
        find_home_name(&vec![place(Location::Seoul, Some("서울")), place(Location::Local, Some("한국"))]),
        Some("한국".to_string())
    );
    assert_eq!(find_home_name(&vec![place(Location::Local, None)]), None);
    assert_eq!(find_home_name(&vec![place(Location::Seoul, Some("서울"))]), None);
    assert_eq!(find_home_name(&Vec::new()), None);
}

#[test]
fn locations_are_declared_in_the_order_of_their_declaration() {
    assert_eq!(write_locations_head(&catalog(Vec::new())), LOCATIONS_HEAD);
    let entries = catalog(Vec::new()).entries();
    assert_eq!(find_entry(&entries, Location::Local), 0);
    assert_eq!(find_entry(&entries, Location::Jeju), 1);
    assert_eq!(find_entry(&entries, Location::Seoul), 2);
    assert_eq!(find_entry(&entries, Location::Andong), 3);
}

#[test]
fn location_records_keep_their_numbers_apart() {
    let infos = vec![
        info(Location::Jeju, vec![deg(126.5312), deg(33.4996)]),
        info(Location::Seoul, vec![deg(126.978), deg(37.5665), deg(0.0)]),
    ];
    let fragments = write_locations(&catalog(Vec::new()), &infos).unwrap();
    assert_eq!(
        fragments,
        vec![
            text(LOCATIONS_HEAD),
            text("    Jeju ->\n    { name = \"Jeju\"\n    , country = Korea\n    , coordinates = ( "),
            Fragment::Degrees(deg(126.5312)),
            text(", "),
            Fragment::Degrees(deg(33.4996)),
            text(" )\n    }\n"),
            text("    Seoul ->\n    { name = \"Seoul\"\n    , country = Korea\n    , coordinates = ( "),
            Fragment::Degrees(deg(126.978)),
            text(", "),
            Fragment::Degrees(deg(37.5665)),
            text(" )\n    }\n"),
        ]
    );
    assert_eq!(
        write_locations(&catalog(Vec::new()), &[]).unwrap(),
        vec![text(LOCATIONS_HEAD)]
    );
}

#[test]
fn location_records_need_two_coordinates() {
    let no_longitude = vec![
        info(Location::Jeju, vec![deg(1.0), deg(2.0)]),
        info(Location::Seoul, Vec::new()),
    ];
    let failure = write_locations(&catalog(Vec::new()), &no_longitude).unwrap_err();
    assert_eq!(failure, GenerationError::NoLongitude(Location::Seoul));
    assert_eq!(failure.message(), "No longitude value in coordinates");
    let no_latitude = vec![info(Location::Jeju, vec![deg(1.0)])];
    let failure = write_locations(&catalog(Vec::new()), &no_latitude).unwrap_err();
    assert_eq!(failure, GenerationError::NoLatitude(Location::Jeju));
    assert_eq!(failure.message(), "No latitude value in coordinates");
}

#[test]
fn trips_are_declared() {
    assert_eq!(write_trips(&catalog(vec![summer()])).unwrap(), TRIPS);
}

#[test]
fn dates_are_read_as_year_and_month() {
    assert_eq!(write_date("2019/07", "T").unwrap(), "Date 2019 Jul");
    assert_eq!(write_date("1999/12", "T").unwrap(), "Date 1999 Dec");
    assert_eq!(write_date("2019//0/7", "T").unwrap(), "Date 2019 Jul");
    assert_eq!(write_date("/01", "T").unwrap(), "Date  Jan");
    match write_date("201907", "Korea201907").unwrap_err() {
        AssetError::MalformedDate(trip) => assert_eq!(trip, "Korea201907"),
        other => panic!("unexpected error {:?}", other),
    }
    match write_date("2019/7", "T").unwrap_err() {
        AssetError::UnknownMonth(month) => assert_eq!(month, "7"),
        other => panic!("unexpected error {:?}", other),
    }
    match write_date("2019/", "T").unwrap_err() {
        AssetError::UnknownMonth(month) => assert_eq!(month, ""),
        other => panic!("unexpected error {:?}", other),
    }
    assert_eq!(
        AssetError::MalformedDate("Korea201907".to_string()).message(),
        "Korea201907 has a malformed date string"
    );
}

#[test]
fn a_trip_without_cities_and_dates() {
    let bare = Trip {
        name: "Bare".to_string(),
        description: "Bare".to_string(),
        cities: Vec::new(),
        dates: Vec::new(),
    };
    assert_eq!(
        write_trip_record(&bare).unwrap(),
        "        Bare ->\n            { name = \"Bare\"\n            , description = \"Bare\"\n            , locations = [  ]\n            , dates = [  ]\n            }\n"
    );
}

#[test]
fn a_malformed_date_fails_the_trips() {
    let mut broken = summer();
    broken.dates = vec!["2019/07".to_string(), "2019-08".to_string(), "2019/99".to_string()];
    match write_trips(&catalog(vec![summer(), broken])).unwrap_err() {
        AssetError::MalformedDate(trip) => assert_eq!(trip, "Korea201907"),
        other => panic!("unexpected error {:?}", other),
    }
}

#[test]
fn images_are_listed_in_the_order_of_the_assets() {
    let assets = vec![
        asset("photo.jpg", Location::Seoul, ""),
        asset("beach.png", Location::Jeju, "  The beach at dusk \n"),
    ];
    assert_eq!(
        write_manifest(&assets),
        vec![
            text(IMAGES_HEAD),
            text("    [ Image \"photo.jpg\" (Date 2019 Jul) Seoul "),
            Fragment::Ratio(4000, 3000),
            text(" \"\"\n"),
            text("    , Image \"beach.png\" (Date 2019 Jul) Jeju "),
            Fragment::Ratio(4000, 3000),
            text(" \"The beach at dusk\"\n"),
            text("    ]\n"),
        ]
    );
    assert_eq!(write_manifest(&[]), vec![text(IMAGES_HEAD), text("    ]\n")]);
}

#[test]
fn the_module_has_its_parts_in_order() {
    let infos = vec![info(Location::Seoul, vec![deg(126.978), deg(37.5665)])];
    let assets = vec![asset("photo.jpg", Location::Seoul, "x")];
    let module = construct_manifest(&catalog(vec![summer()]), &codes(), &infos, &assets).unwrap();
    let first = format!("{}-- COUNTRIES\n{}-- LOCATIONS\n", HEADER, COUNTRIES);
    let middle = format!("-- TRIPS\n{}-- MANIFEST\n", TRIPS);
    assert_eq!(
        module,
        vec![
            text(&first),
            text(LOCATIONS_HEAD),
            text("    Seoul ->\n    { name = \"Seoul\"\n    , country = Korea\n    , coordinates = ( "),
            Fragment::Degrees(deg(126.978)),
            text(", "),
            Fragment::Degrees(deg(37.5665)),
            text(" )\n    }\n"),
            text(&middle),
            text(IMAGES_HEAD),
            text("    [ Image \"photo.jpg\" (Date 2019 Jul) Seoul "),
            Fragment::Ratio(4000, 3000),
            text(" \"x\"\n"),
            text("    ]\n"),
        ]
    );
}

#[test]
fn the_module_fails_with_its_first_failing_part() {
    let mut broken = summer();
    broken.dates = vec!["bad".to_string()];
    let no_coordinates = vec![info(Location::Seoul, Vec::new())];
    let failure = construct_manifest(
        &catalog(vec![broken]),
        &CountryCodes::new(Vec::new()),
        &no_coordinates,
        &[],
    )
    .unwrap_err();
    assert!(matches!(
        failure,
        Error::Config(ConfigError::MissingCountryCode(Country::Korea))
    ));
    assert_eq!(failure.message(), "Korea does not exist in cca3.json");
    let mut broken = summer();
    broken.dates = vec!["bad".to_string()];
    let failure =
        construct_manifest(&catalog(vec![broken]), &codes(), &no_coordinates, &[]).unwrap_err();
    assert!(matches!(
        failure,
        Error::Generation(GenerationError::NoLongitude(Location::Seoul))
    ));
    let mut broken = summer();
    broken.dates = vec!["bad".to_string()];
    let failure = construct_manifest(&catalog(vec![broken]), &codes(), &[], &[]).unwrap_err();
    assert!(matches!(failure, Error::Asset(AssetError::MalformedDate(_))));
    assert_eq!(failure.message(), "Korea201907 has a malformed date string");
}
