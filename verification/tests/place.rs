use manifester::error::ConfigError;
use manifester::identifier::to_location_identfier_string;
use manifester::place::{to_display_name, Country, CountryCodes, Location};

fn codes() -> CountryCodes {
    CountryCodes::new(vec![
        ("Japan".to_string(), "JPN".to_string()),
        ("Korea".to_string(), "KOR".to_string()),
    ])
}

#[test]
fn display_name_puts_a_space_before_inner_capitals() {
    assert_eq!(to_display_name("Seoul"), "Seoul");
    assert_eq!(to_display_name("HongKong"), "Hong Kong");
    assert_eq!(to_display_name("NewYorkCity"), "New York City");
    assert_eq!(to_display_name("USA"), "U S A");
    assert_eq!(to_display_name("a"), "a");
    assert_eq!(to_display_name("A"), "A");
    assert_eq!(to_display_name(""), "");
    assert_eq!(to_display_name("aB"), "a B");
    assert_eq!(to_display_name("ÉcoleÉlite"), "École Élite");
    assert_eq!(to_display_name("St_Ives2Go"), "St_ Ives2 Go");
}

#[test]
fn country_name_and_tag() {
    assert_eq!(Country::Korea.tag(), "Korea");
    assert_eq!(Country::Korea.name(), "Korea");
    assert_eq!(Country::all(), vec![Country::Korea]);
}

#[test]
fn country_code_is_looked_up_by_display_name() {
    assert_eq!(Country::Korea.code(&codes()), Ok("KOR".to_string()));
}

#[test]
fn country_code_missing_is_an_error() {
    let table = CountryCodes::new(vec![("Japan".to_string(), "JPN".to_string())]);
    let failure = Country::Korea.code(&table);
    assert_eq!(failure, Err(ConfigError::MissingCountryCode(Country::Korea)));
    assert_eq!(
        failure.unwrap_err().message(),
        "Korea does not exist in cca3.json"
    );
    assert_eq!(
        Country::Korea.code(&CountryCodes::new(Vec::new())),
        Err(ConfigError::MissingCountryCode(Country::Korea))
    );
}

#[test]
fn country_codes_last_entry_of_a_name_counts() {
    let table = CountryCodes::new(vec![
        ("Korea".to_string(), "OLD".to_string()),
        ("Japan".to_string(), "JPN".to_string()),
        ("Korea".to_string(), "KOR".to_string()),
    ]);
    assert_eq!(table.get("Korea"), Some("KOR".to_string()));
    assert_eq!(table.get("Japan"), Some("JPN".to_string()));
    assert_eq!(table.get("korea"), None);
    assert_eq!(table.get(""), None);
}

#[test]
fn location_names_and_tags() {
    let expected = [
        (Location::Local, "Local"),
        (Location::Seoul, "Seoul"),
        (Location::Andong, "Andong"),
        (Location::Jeju, "Jeju"),
        (Location::Cheongju, "Cheongju"),
        (Location::Danyang, "Danyang"),
        (Location::Gangneung, "Gangneung"),
        (Location::Yeongdeok, "Yeongdeok"),
        (Location::Jinju, "Jinju"),
    ];
    for (location, tag) in expected {
        assert_eq!(location.tag(), tag);
        assert_eq!(location.name(), tag);
    }
    assert_eq!(Location::all().len(), 9);
    assert_eq!(Location::all()[0], Location::Local);
    assert_eq!(Location::all()[8], Location::Jinju);
}

#[test]
fn location_from_tag_finds_exactly_the_tags() {
    for location in Location::all() {
        assert_eq!(Location::from_tag(location.tag()), Some(location));
    }
    assert_eq!(Location::from_tag("seoul"), None);
    assert_eq!(Location::from_tag("Seoul "), None);
    assert_eq!(Location::from_tag(""), None);
    assert_eq!(Location::from_tag("Singapore"), None);
}

#[test]
fn derived_identifiers_are_the_tags_and_do_not_collide() {
    let all = Location::all();
    for a in &all {
        let id_a = to_location_identfier_string(&a.name());
        assert_eq!(id_a, a.tag());
        assert_eq!(to_location_identfier_string(&id_a), id_a);
        for b in &all {
            if a != b {
                assert_ne!(id_a, to_location_identfier_string(&b.name()));
            }
        }
    }
}
