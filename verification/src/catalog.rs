//! The catalog: which locations belong to which country, under which local names, and the
//! trips that were made between them.

use crate::error::ConfigError;
use crate::place::{Country, Location};
use crate::text::{strip, without};
use vstd::prelude::*;
use vstd::string::*;

verus! {

/// A journey through a list of locations, in the order in which they were visited.
#[derive(Debug)]
pub struct Trip {
    pub name: String,
    pub description: String,
    pub cities: Vec<Location>,
    /// The months of the journey, each written as `YYYY/MM`.
    pub dates: Vec<String>,
}

/// The mathematical value of a [`Trip`].
pub struct TripView {
    pub name: Seq<char>,
    pub description: Seq<char>,
    pub cities: Seq<Location>,
    pub dates: Seq<Seq<char>>,
}

impl View for Trip {
    type V = TripView;

    open spec fn view(&self) -> TripView {
        TripView {
            name: self.name@,
            description: self.description@,
            cities: self.cities@,
            dates: self.dates.deep_view(),
        }
    }
}

impl DeepView for Trip {
    type V = TripView;

    open spec fn deep_view(&self) -> TripView {
        self@
    }
}

/// The identifier of a trip with this description: the description without spaces and
/// slashes.
pub open spec fn trip_id(description: Seq<char>) -> Seq<char> {
    without(description, ' ', '/')
}

impl Trip {
    /// The identifier by which generated code names the trip.
    pub fn id_string(&self) -> (id: String)
        ensures
            id@ == trip_id(self@.description),
    {
        strip(self.description.as_str(), ' ', '/')
    }
}

/// A location as the catalog lists it under a country, with its name in the local language
/// where there is one.
#[derive(Debug)]
pub struct Place {
    pub location: Location,
    pub local_name: Option<String>,
}

/// The mathematical value of a [`Place`].
pub struct PlaceView {
    pub location: Location,
    pub local_name: Option<Seq<char>>,
}

impl View for Place {
    type V = PlaceView;

    open spec fn view(&self) -> PlaceView {
        PlaceView { location: self.location, local_name: self.local_name.deep_view() }
    }
}

impl DeepView for Place {
    type V = PlaceView;

    open spec fn deep_view(&self) -> PlaceView {
        self@
    }
}

/// A country and the locations that the catalog lists under it.
#[derive(Debug)]
pub struct CountryPlaces {
    pub country: Country,
    pub locations: Vec<Place>,
}

/// The mathematical value of a [`CountryPlaces`].
pub struct CountryPlacesView {
    pub country: Country,
    pub locations: Seq<PlaceView>,
}

impl View for CountryPlaces {
    type V = CountryPlacesView;

    open spec fn view(&self) -> CountryPlacesView {
        CountryPlacesView { country: self.country, locations: self.locations.deep_view() }
    }
}

impl DeepView for CountryPlaces {
    type V = CountryPlacesView;

    open spec fn deep_view(&self) -> CountryPlacesView {
        self@
    }
}

/// One location of the catalog together with the country that it is listed under.
#[derive(Debug)]
pub struct CatalogEntry {
    pub country: Country,
    pub location: Location,
    pub local_name: Option<String>,
}

/// The mathematical value of a [`CatalogEntry`].
pub struct CatalogEntryView {
    pub country: Country,
    pub location: Location,
    pub local_name: Option<Seq<char>>,
}

impl View for CatalogEntry {
    type V = CatalogEntryView;

    open spec fn view(&self) -> CatalogEntryView {
        CatalogEntryView {
            country: self.country,
            location: self.location,
            local_name: self.local_name.deep_view(),
        }
    }
}

impl DeepView for CatalogEntry {
    type V = CatalogEntryView;

    open spec fn deep_view(&self) -> CatalogEntryView {
        self@
    }
}

/// The entries of one country, in the order in which its locations are listed.
pub open spec fn country_entries(places: CountryPlacesView) -> Seq<CatalogEntryView> {
    Seq::new(
        places.locations.len(),
        |i: int|
            CatalogEntryView {
                country: places.country,
                location: places.locations[i].location,
                local_name: places.locations[i].local_name,
            },
    )
}

/// All entries of the catalog: country after country, each with its locations in order.
pub open spec fn all_entries(places: Seq<CountryPlacesView>) -> Seq<CatalogEntryView>
    decreases places.len(),
{
    if places.len() == 0 {
        Seq::empty()
    } else {
        all_entries(places.drop_last()) + country_entries(places.last())
    }
}

/// True when two entries cannot stand in one catalog: they name the same location, and it is
/// not merely the home base of two different countries.
pub open spec fn clash(a: CatalogEntryView, b: CatalogEntryView) -> bool {
    a.location == b.location && (a.location != Location::Local || a.country == b.country)
}

/// True when the catalog is a mapping: no country is listed twice, no location is listed
/// twice under one country, and no location but `Local` is listed under two countries.
pub open spec fn is_mapping(places: Seq<CountryPlacesView>) -> bool {
    &&& forall|i: int, j: int|
        0 <= i < j < places.len() ==> (#[trigger] places[i]).country != (
        #[trigger] places[j]).country
    &&& forall|i: int, j: int|
        0 <= i < j < all_entries(places).len() ==> !clash(
            #[trigger] all_entries(places)[i],
            #[trigger] all_entries(places)[j],
        )
}

/// The catalog: the countries with their locations, in the order in which generated code
/// declares them, and the trips.
#[derive(Debug)]
pub struct Catalog {
    pub(crate) places: Vec<CountryPlaces>,
    pub(crate) trips: Vec<Trip>,
}

/// The mathematical value of a [`Catalog`].
pub struct CatalogView {
    pub places: Seq<CountryPlacesView>,
    pub trips: Seq<TripView>,
}

impl View for Catalog {
    type V = CatalogView;

    closed spec fn view(&self) -> CatalogView {
        CatalogView { places: self.places.deep_view(), trips: self.trips.deep_view() }
    }
}

/// Copies an optional text.
pub fn copy_optional(text: &Option<String>) -> (copy: Option<String>)
    ensures
        copy.deep_view() == text.deep_view(),
{
    match text {
        Some(t) => Some(t.clone()),
        None => None,
    }
}

/// Lists the entries of `places`: country after country, each with its locations in order.
pub fn flatten(places: &Vec<CountryPlaces>) -> (entries: Vec<CatalogEntry>)
    ensures
        entries.deep_view() == all_entries(places.deep_view()),
{
    let ghost views = places.deep_view();
    let mut entries: Vec<CatalogEntry> = Vec::new();
    let mut i: usize = 0;
    assert(views.take(0) =~= Seq::empty());
    assert(entries.deep_view() =~= all_entries(views.take(0)));
    while i < places.len()
        invariant
            i <= places.len(),
            views == places.deep_view(),
            entries.deep_view() == all_entries(views.take(i as int)),
        decreases places.len() - i,
    {
        let country = places[i].country;
        let locations = &places[i].locations;
        let ghost before = all_entries(views.take(i as int));
        let ghost these = country_entries(views[i as int]);
        let mut j: usize = 0;
        assert(entries.deep_view() =~= before + these.take(0));
        assert(views[i as int] == places@[i as int]@);
        while j < locations.len()
            invariant
                j <= locations.len(),
                i < places.len(),
                views == places.deep_view(),
                views[i as int].locations == locations.deep_view(),
                views[i as int].country == country,
                these == country_entries(views[i as int]),
                entries.deep_view() == before + these.take(j as int),
            decreases locations.len() - j,
        {
            let entry = CatalogEntry {
                country,
                location: locations[j].location,
                local_name: copy_optional(&locations[j].local_name),
            };
            assert(entry@ == these[j as int]);
            let ghost old_entries = entries.deep_view();
            entries.push(entry);
            assert(entries.deep_view() =~= old_entries.push(these[j as int]));
            assert(these.take(j + 1) =~= these.take(j as int).push(these[j as int]));
            assert(before + these.take(j + 1) =~= (before + these.take(j as int)).push(
                these[j as int],
            ));
            j += 1;
        }
        proof {
            assert(these.take(these.len() as int) =~= these);
            assert(views.take(i + 1).drop_last() =~= views.take(i as int));
            assert(views.take(i + 1).last() == views[i as int]);
        }
        i += 1;
    }
    assert(views.take(views.len() as int) =~= views);
    entries
}

/// Tells whether no country is listed twice.
fn countries_are_distinct(places: &Vec<CountryPlaces>) -> (distinct: bool)
    ensures
        distinct == (forall|i: int, j: int|
            0 <= i < j < places.deep_view().len() ==> (#[trigger] places.deep_view()[i]).country
                != (#[trigger] places.deep_view()[j]).country),
{
    let ghost views = places.deep_view();
    let mut j: usize = 0;
    while j < places.len()
        invariant
            j <= places.len(),
            views == places.deep_view(),
            forall|a: int, b: int|
                0 <= a < b < j ==> (#[trigger] views[a]).country != (#[trigger] views[b]).country,
        decreases places.len() - j,
    {
        let mut i: usize = 0;
        while i < j
            invariant
                i <= j,
                j < places.len(),
                views == places.deep_view(),
                forall|a: int| 0 <= a < i ==> (#[trigger] views[a]).country != views[j as int].country,
            decreases j - i,
        {
            assert(views[i as int] == places@[i as int]@);
            assert(views[j as int] == places@[j as int]@);
            if places[i].country == places[j].country {
                return false;
            }
            i += 1;
        }
        j += 1;
    }
    true
}

/// Tells whether no two entries clash.
fn entries_are_distinct(entries: &Vec<CatalogEntry>) -> (distinct: bool)
    ensures
        distinct == (forall|i: int, j: int|
            0 <= i < j < entries.deep_view().len() ==> !clash(
                #[trigger] entries.deep_view()[i],
                #[trigger] entries.deep_view()[j],
            )),
{
    let ghost views = entries.deep_view();
    let mut j: usize = 0;
    while j < entries.len()
        invariant
            j <= entries.len(),
            views == entries.deep_view(),
            forall|a: int, b: int| 0 <= a < b < j ==> !clash(#[trigger] views[a], #[trigger] views[b]),
        decreases entries.len() - j,
    {
        let mut i: usize = 0;
        while i < j
            invariant
                i <= j,
                j < entries.len(),
                views == entries.deep_view(),
                forall|a: int| 0 <= a < i ==> !clash(#[trigger] views[a], views[j as int]),
            decreases j - i,
        {
            assert(views[i as int] == entries@[i as int]@);
            assert(views[j as int] == entries@[j as int]@);
            let a = &entries[i];
            let b = &entries[j];
            if a.location == b.location && (a.location != Location::Local || a.country
                == b.country) {
                assert(clash(views[i as int], views[j as int]));
                return false;
            }
            i += 1;
        }
        j += 1;
    }
    true
}

impl Catalog {
    /// What holds of every catalog: it is a mapping.
    #[verifier::type_invariant]
    pub closed spec fn is_valid(self) -> bool {
        is_mapping(self.places.deep_view())
    }

    /// A catalog of the given countries and trips, or an error when `places` is no mapping.
    pub fn new(places: Vec<CountryPlaces>, trips: Vec<Trip>) -> (catalog: Result<
        Catalog,
        ConfigError,
    >)
        ensures
            match catalog {
                Ok(c) => {
                    &&& is_mapping(places.deep_view())
                    &&& c@.places == places.deep_view()
                    &&& c@.trips == trips.deep_view()
                },
                Err(e) => !is_mapping(places.deep_view()) && e == ConfigError::InvalidCatalog,
            },
    {
        let entries = flatten(&places);
        if countries_are_distinct(&places) && entries_are_distinct(&entries) {
            Ok(Catalog { places, trips })
        } else {
            Err(ConfigError::InvalidCatalog)
        }
    }

    /// The countries with their locations, in order.
    pub fn places(&self) -> (places: &Vec<CountryPlaces>)
        ensures
            places.deep_view() == self@.places,
            is_mapping(self@.places),
    {
        proof {
            use_type_invariant(self);
        }
        &self.places
    }

    /// The trips, in order.
    pub fn trips(&self) -> (trips: &Vec<Trip>)
        ensures
            trips.deep_view() == self@.trips,
    {
        &self.trips
    }

    /// All entries of the catalog: country after country, each with its locations in order.
    pub fn entries(&self) -> (entries: Vec<CatalogEntry>)
        ensures
            entries.deep_view() == all_entries(self@.places),
            is_mapping(self@.places),
    {
        proof {
            use_type_invariant(self);
        }
        flatten(&self.places)
    }
}

} // verus!
