//! The difference between the catalog and the store: which countries and which locations
//! the store does not hold yet.

use crate::catalog::{all_entries, Catalog, CatalogEntry, CatalogEntryView, CountryPlacesView};
use crate::geo::{knows_place, names_place, Feature, FeatureCollection, FeatureView};
use crate::identifier::to_location_identfier_string;
use crate::place::{code_of, Country, CountryCodes, Location};
use crate::text::same_text;
use vstd::prelude::*;
use vstd::string::*;

verus! {

/// True when the store has to be asked for this location and does not hold it: the location
/// is not the sentinel, and no feature stands for it. (The derived identifier of a location's
/// display name is its tag, so the features are searched for the tag.)
pub open spec fn is_new_location(features: Seq<FeatureView>, location: Location) -> bool {
    location != Location::Local && !knows_place(features, location.spec_tag())
}

/// True when some feature carries this country code.
pub open spec fn holds_code(features: Seq<FeatureView>, code: Seq<char>) -> bool {
    exists|i: int| 0 <= i < features.len() && (#[trigger] features[i]).properties.country == Some(code)
}

/// True when no feature carries the country's three-letter code. A country without a code
/// is new.
pub open spec fn is_new_country(
    features: Seq<FeatureView>,
    codes: Seq<(Seq<char>, Seq<char>)>,
    country: Country,
) -> bool {
    match code_of(codes, country.spec_name()) {
        Some(code) => !holds_code(features, code),
        None => true,
    }
}

/// The locations of the catalog that the store does not hold, in the catalog's order.
pub open spec fn new_locations(features: Seq<FeatureView>, entries: Seq<CatalogEntryView>) -> Seq<
    Location,
> {
    entries.map_values(|e: CatalogEntryView| e.location).filter(
        |l: Location| is_new_location(features, l),
    )
}

/// The countries of the catalog that the store does not hold, in the catalog's order.
pub open spec fn new_countries(
    features: Seq<FeatureView>,
    codes: Seq<(Seq<char>, Seq<char>)>,
    places: Seq<CountryPlacesView>,
) -> Seq<Country> {
    places.map_values(|p: CountryPlacesView| p.country).filter(
        |c: Country| is_new_country(features, codes, c),
    )
}

/// The new locations of a list of entries that grows by one entry.
pub proof fn lemma_new_locations_push(
    features: Seq<FeatureView>,
    entries: Seq<CatalogEntryView>,
    entry: CatalogEntryView,
)
    ensures
        new_locations(features, entries.push(entry)) == if is_new_location(
            features,
            entry.location,
        ) {
            new_locations(features, entries).push(entry.location)
        } else {
            new_locations(features, entries)
        },
{
    reveal(Seq::filter);
    let locations = entries.push(entry).map_values(|e: CatalogEntryView| e.location);
    assert(locations.drop_last() =~= entries.map_values(|e: CatalogEntryView| e.location));
}

/// The new countries of a list of countries that grows by one.
pub proof fn lemma_new_countries_push(
    features: Seq<FeatureView>,
    codes: Seq<(Seq<char>, Seq<char>)>,
    places: Seq<CountryPlacesView>,
    place: CountryPlacesView,
)
    ensures
        new_countries(features, codes, places.push(place)) == if is_new_country(
            features,
            codes,
            place.country,
        ) {
            new_countries(features, codes, places).push(place.country)
        } else {
            new_countries(features, codes, places)
        },
{
    reveal(Seq::filter);
    let countries = places.push(place).map_values(|p: CountryPlacesView| p.country);
    assert(countries.drop_last() =~= places.map_values(|p: CountryPlacesView| p.country));
}

/// A location is among the new locations exactly when an entry names it and it is new.
pub proof fn lemma_new_locations_contains(
    features: Seq<FeatureView>,
    entries: Seq<CatalogEntryView>,
    location: Location,
)
    ensures
        new_locations(features, entries).contains(location) <==> is_new_location(
            features,
            location,
        ) && exists|i: int| 0 <= i < entries.len() && (#[trigger] entries[i]).location == location,
    decreases entries.len(),
{
    if entries.len() == 0 {
        assert(entries.map_values(|e: CatalogEntryView| e.location) =~= Seq::empty());
        reveal(Seq::filter);
        assert(new_locations(features, entries) =~= Seq::empty());
    } else {
        let head = entries.drop_last();
        let last = entries.last();
        assert(head.push(last) =~= entries);
        lemma_new_locations_push(features, head, last);
        lemma_new_locations_contains(features, head, location);
        let found = new_locations(features, entries);
        let before = new_locations(features, head);
        if found.contains(location) {
            let k = choose|k: int| 0 <= k < found.len() && found[k] == location;
            if k < before.len() {
                assert(before[k] == location);
                assert(before.contains(location));
                let i = choose|i: int| 0 <= i < head.len() && (#[trigger] head[i]).location == location;
                assert(entries[i].location == location);
            } else {
                assert(entries[entries.len() - 1].location == location);
            }
        }
        if is_new_location(features, location) && exists|i: int|
            0 <= i < entries.len() && (#[trigger] entries[i]).location == location {
            let i = choose|i: int| 0 <= i < entries.len() && (#[trigger] entries[i]).location == location;
            if i < head.len() {
                assert(head[i].location == location);
                assert(before.contains(location));
                let k = choose|k: int| 0 <= k < before.len() && before[k] == location;
                assert(found[k] == location);
            } else {
                assert(found[found.len() - 1] == location);
            }
        }
    }
}

/// Tells whether some feature stands for the place with this tag.
pub fn store_knows(features: &[Feature], tag: &str) -> (known: bool)
    ensures
        known == knows_place(features.deep_view(), tag@),
{
    let ghost views = features.deep_view();
    let mut i: usize = 0;
    while i < features.len()
        invariant
            i <= features.len(),
            views == features.deep_view(),
            forall|j: int| 0 <= j < i ==> !names_place(views, j, tag@),
        decreases features.len() - i,
    {
        let identifier = to_location_identfier_string(features[i].properties.name.as_str());
        assert(views[i as int] == features@[i as int]@);
        if same_text(identifier.as_str(), tag) {
            assert(names_place(views, i as int, tag@));
            return true;
        }
        i += 1;
    }
    false
}

/// Tells whether some feature carries this country code.
pub fn store_holds_code(features: &[Feature], code: &str) -> (held: bool)
    ensures
        held == holds_code(features.deep_view(), code@),
{
    let ghost views = features.deep_view();
    let mut i: usize = 0;
    while i < features.len()
        invariant
            i <= features.len(),
            views == features.deep_view(),
            forall|j: int| 0 <= j < i ==> (#[trigger] views[j]).properties.country != Some(code@),
        decreases features.len() - i,
    {
        assert(views[i as int] == features@[i as int]@);
        match &features[i].properties.country {
            Some(c) => {
                if same_text(c.as_str(), code) {
                    return true;
                }
            },
            None => {},
        }
        i += 1;
    }
    false
}

/// Tells whether `location` occurs in `locations`.
pub fn holds_location(locations: &Vec<Location>, location: Location) -> (held: bool)
    ensures
        held == locations@.contains(location),
{
    let mut i: usize = 0;
    while i < locations.len()
        invariant
            i <= locations.len(),
            forall|j: int| 0 <= j < i ==> locations@[j] != location,
        decreases locations.len() - i,
    {
        if locations[i] == location {
            return true;
        }
        i += 1;
    }
    false
}

/// Lists the locations of `entries`, the sentinel left out, that no feature stands for.
pub fn find_new_locations(features: &[Feature], entries: &Vec<CatalogEntry>) -> (locations: Vec<Location>)
    ensures
        locations@ == new_locations(features.deep_view(), entries.deep_view()),
{
    let ghost views = features.deep_view();
    let ghost entry_views = entries.deep_view();
    let mut locations: Vec<Location> = Vec::new();
    let mut k: usize = 0;
    proof {
        assert(entry_views.take(0) =~= Seq::empty());
        lemma_new_locations_empty(views);
    }
    while k < entries.len()
        invariant
            k <= entries.len(),
            views == features.deep_view(),
            entry_views == entries.deep_view(),
            locations@ == new_locations(views, entry_views.take(k as int)),
        decreases entries.len() - k,
    {
        let location = entries[k].location;
        assert(entry_views[k as int] == entries@[k as int]@);
        let is_new = location != Location::Local && !store_knows(features, location.tag());
        proof {
            lemma_new_locations_push(views, entry_views.take(k as int), entry_views[k as int]);
            assert(entry_views.take(k + 1) =~= entry_views.take(k as int).push(entry_views[k as int]));
        }
        if is_new {
            locations.push(location);
        }
        k += 1;
    }
    assert(entry_views.take(entry_views.len() as int) =~= entry_views);
    locations
}

/// Computes what the catalog names and the store lacks: the countries whose code no feature
/// carries, and the locations, the sentinel left out, that no feature stands for. Both lists
/// are in the catalog's order.
pub fn get_new_places(cities: &FeatureCollection, catalog: &Catalog, codes: &CountryCodes) -> (new: (
    Vec<Country>,
    Vec<Location>,
))
    ensures
        new.0@ == new_countries(cities@.features, codes@, catalog@.places),
        new.1@ == new_locations(cities@.features, all_entries(catalog@.places)),
{
    let ghost features = cities@.features;
    let places = catalog.places();
    let ghost place_views = places.deep_view();
    let mut countries: Vec<Country> = Vec::new();
    let mut i: usize = 0;
    proof {
        assert(place_views.take(0) =~= Seq::empty());
        lemma_new_countries_empty(features, codes@);
    }
    while i < places.len()
        invariant
            i <= places.len(),
            features == cities@.features,
            place_views == places.deep_view(),
            countries@ == new_countries(features, codes@, place_views.take(i as int)),
        decreases places.len() - i,
    {
        let country = places[i].country;
        assert(place_views[i as int] == places@[i as int]@);
        let is_new = match country.code(codes) {
            Ok(code) => !store_holds_code(cities.features.as_slice(), code.as_str()),
            Err(_) => true,
        };
        proof {
            lemma_new_countries_push(features, codes@, place_views.take(i as int), place_views[i as int]);
            assert(place_views.take(i + 1) =~= place_views.take(i as int).push(place_views[i as int]));
        }
        if is_new {
            countries.push(country);
        }
        i += 1;
    }
    assert(place_views.take(place_views.len() as int) =~= place_views);

    let entries = catalog.entries();
    let locations = find_new_locations(cities.features.as_slice(), &entries);
    (countries, locations)
}

/// No entries, no new locations.
pub proof fn lemma_new_locations_empty(features: Seq<FeatureView>)
    ensures
        new_locations(features, Seq::empty()) == Seq::<Location>::empty(),
{
    reveal(Seq::filter);
    assert(Seq::<CatalogEntryView>::empty().map_values(|e: CatalogEntryView| e.location)
        =~= Seq::empty());
}

/// No countries, no new countries.
pub proof fn lemma_new_countries_empty(features: Seq<FeatureView>, codes: Seq<(Seq<char>, Seq<char>)>)
    ensures
        new_countries(features, codes, Seq::empty()) == Seq::<Country>::empty(),
{
    reveal(Seq::filter);
    assert(Seq::<CountryPlacesView>::empty().map_values(|p: CountryPlacesView| p.country)
        =~= Seq::empty());
}

} // verus!
