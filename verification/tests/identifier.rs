use manifester::identifier::to_location_identfier_string;

#[test]
fn identifier_strips_spaces_and_underscores() {
    assert_eq!(to_location_identfier_string("New York"), "NewYork");
    assert_eq!(to_location_identfier_string("New_York"), "NewYork");
    assert_eq!(to_location_identfier_string(" a _ b "), "ab");
    assert_eq!(to_location_identfier_string(""), "");
}

#[test]
fn identifier_suffixes_the_two_irregular_names() {
    assert_eq!(to_location_identfier_string("Singapore"), "SingaporeCity");
    assert_eq!(to_location_identfier_string("Hong Kong"), "HongKongCity");
    assert_eq!(to_location_identfier_string("Hong_Kong"), "HongKongCity");
    assert_eq!(to_location_identfier_string("HongKong"), "HongKongCity");
    assert_eq!(to_location_identfier_string("SingaporeCity"), "SingaporeCity");
    assert_eq!(to_location_identfier_string("singapore"), "singapore");
}
