//! The part of the generated module that declares the trips and the dates.

use crate::assets::Month;
use crate::catalog::{trip_id, Catalog, Trip, TripView};
use crate::emit::{cases_text, just, list_text, put_cases, put_list, put_variants, quote, variants_text};
use crate::error::{AssetError, AssetErrorView};
use crate::place::Location;
use crate::text::{first_index_of, join, joined, quoted, split_at_first, strip, without};
use vstd::prelude::*;
use vstd::string::*;

verus! {

/// The declarations of years, months and dates.
pub const DATE_DECLARATIONS: &'static str =
    "type alias Year =\n    Int\ntype Month\n    = Jan\n    | Feb\n    | Mar\n    | Apr\n    | May\n    | Jun\n    | Jul\n    | Aug\n    | Sep\n    | Oct\n    | Nov\n    | Dec\ntype alias Date =\n    { year : Year\n    , month : Month\n    }\n";

/// The declaration of the type of the trips' records.
pub const TRIP_RECORD_TYPE: &'static str =
    "type alias TripInformation =\n    { name : String\n    , description : String\n    , locations : List Location\n    , dates : List Date\n    }\n";

/// The identifiers of the trips, in order.
pub open spec fn trip_ids(trips: Seq<TripView>) -> Seq<Seq<char>> {
    trips.map_values(|trip: TripView| trip_id(trip.description))
}

/// For each trip, the branch that reads it from its description.
pub open spec fn trip_parse_arms(trips: Seq<TripView>) -> Seq<(Seq<char>, Seq<char>)> {
    trips.map_values(
        |trip: TripView| (quoted(trip.description), "Just "@ + trip_id(trip.description)),
    )
}

/// The tags of the cities, in order.
pub open spec fn city_tags(cities: Seq<Location>) -> Seq<Seq<char>> {
    cities.map_values(|city: Location| city.spec_tag())
}

/// A date of a trip as the module writes it. The date is `year/month`: what stands before
/// the first slash is the year, and what follows, its slashes left out, must be the number
/// of a month. A date without a slash is an error, and so is an unknown month.
pub open spec fn date_text(date: Seq<char>, trip: Seq<char>) -> Result<Seq<char>, AssetErrorView> {
    let at = first_index_of(date, '/');
    if at >= date.len() {
        Err(AssetErrorView::MalformedDate(trip))
    } else {
        let number = without(date.skip(at), '/', '/');
        match Month::spec_from(number) {
            Some(month) => Ok("Date "@ + date.take(at) + " "@ + month.spec_name()),
            None => Err(AssetErrorView::UnknownMonth(number)),
        }
    }
}

/// The dates of a trip as the module writes them. The first date that fails makes all fail.
pub open spec fn date_texts(dates: Seq<Seq<char>>, trip: Seq<char>) -> Result<
    Seq<Seq<char>>,
    AssetErrorView,
>
    decreases dates.len(),
{
    if dates.len() == 0 {
        Ok(Seq::empty())
    } else {
        match date_texts(dates.drop_last(), trip) {
            Ok(texts) => match date_text(dates.last(), trip) {
                Ok(text) => Ok(texts.push(text)),
                Err(e) => Err(e),
            },
            Err(e) => Err(e),
        }
    }
}

/// The record of one trip: its name, its description, its cities and its dates.
pub open spec fn trip_record(trip: TripView) -> Result<Seq<char>, AssetErrorView> {
    match date_texts(trip.dates, trip_id(trip.description)) {
        Ok(dates) => Ok(
            "        "@ + trip_id(trip.description) + " ->\n            { name = \""@ + trip.name
                + "\"\n            , description = \""@ + trip.description
                + "\"\n            , locations = [ "@ + joined(city_tags(trip.cities), ", "@)
                + " ]\n            , dates = [ "@ + joined(dates, ", "@) + " ]\n            }\n"@,
        ),
        Err(e) => Err(e),
    }
}

/// The records of the trips, in order. The first record that fails makes all fail.
pub open spec fn trip_records(trips: Seq<TripView>) -> Result<Seq<char>, AssetErrorView>
    decreases trips.len(),
{
    if trips.len() == 0 {
        Ok(Seq::empty())
    } else {
        match trip_records(trips.drop_last()) {
            Ok(records) => match trip_record(trips.last()) {
                Ok(record) => Ok(records + record),
                Err(e) => Err(e),
            },
            Err(e) => Err(e),
        }
    }
}

/// The declarations of the trips: the type, the list of all trips, the function that gives
/// the trip of a description, the type of the records and the function that gives them, and
/// the declarations of the dates.
pub open spec fn trips_text(trips: Seq<TripView>) -> Result<Seq<char>, AssetErrorView> {
    match trip_records(trips) {
        Ok(records) => Ok(
            "type Trip\n"@ + variants_text(trip_ids(trips)) + "tripList : List Trip\ntripList =\n"@
                + list_text(trip_ids(trips))
                + "stringToTrip : String -> Maybe Trip\nstringToTrip trip =\n    case trip of\n"@
                + cases_text(trip_parse_arms(trips)) + "        _ ->\n            Nothing\n"@
                + TRIP_RECORD_TYPE@
                + "tripInformation : Trip -> TripInformation\ntripInformation trip =\n    case trip of\n"@
                + records + DATE_DECLARATIONS@,
        ),
        Err(e) => Err(e),
    }
}

/// A list of dates whose beginning fails, fails in the same way.
pub proof fn lemma_date_texts_prefix_fails(dates: Seq<Seq<char>>, trip: Seq<char>, n: int)
    requires
        0 <= n <= dates.len(),
        date_texts(dates.take(n), trip) is Err,
    ensures
        date_texts(dates, trip) == date_texts(dates.take(n), trip),
    decreases dates.len() - n,
{
    if n < dates.len() {
        assert(dates.take(n + 1).drop_last() =~= dates.take(n));
        lemma_date_texts_prefix_fails(dates, trip, n + 1);
    } else {
        assert(dates.take(n) =~= dates);
    }
}

/// A list of trips whose beginning fails, fails in the same way.
pub proof fn lemma_trip_records_prefix_fails(trips: Seq<TripView>, n: int)
    requires
        0 <= n <= trips.len(),
        trip_records(trips.take(n)) is Err,
    ensures
        trip_records(trips) == trip_records(trips.take(n)),
    decreases trips.len() - n,
{
    if n < trips.len() {
        assert(trips.take(n + 1).drop_last() =~= trips.take(n));
        lemma_trip_records_prefix_fails(trips, n + 1);
    } else {
        assert(trips.take(n) =~= trips);
    }
}

/// Writes one date of the trip with the identifier `trip`.
pub fn write_date(date: &str, trip: &str) -> (text: Result<String, AssetError>)
    ensures
        match text {
            Ok(t) => date_text(date@, trip@) == Ok::<Seq<char>, AssetErrorView>(t@),
            Err(e) => date_text(date@, trip@) == Err::<Seq<char>, AssetErrorView>(e@),
        },
{
    match split_at_first(date, '/') {
        Some((year, rest)) => {
            let number = strip(rest.as_str(), '/', '/');
            match Month::from_str(number.as_str()) {
                Ok(month) => {
                    let mut text = String::from_str("Date ");
                    text.append(year.as_str());
                    text.append(" ");
                    text.append(month.name());
                    Ok(text)
                },
                Err(e) => Err(e),
            }
        },
        None => Err(AssetError::MalformedDate(String::from_str(trip))),
    }
}

/// Writes the record of one trip.
pub fn write_trip_record(trip: &Trip) -> (text: Result<String, AssetError>)
    ensures
        match text {
            Ok(t) => trip_record(trip@) == Ok::<Seq<char>, AssetErrorView>(t@),
            Err(e) => trip_record(trip@) == Err::<Seq<char>, AssetErrorView>(e@),
        },
{
    let id = trip.id_string();
    let mut cities: Vec<String> = Vec::new();
    let mut i: usize = 0;
    proof {
        assert(trip.cities@.take(0) =~= Seq::empty());
        assert(cities.deep_view() =~= Seq::empty());
    }
    while i < trip.cities.len()
        invariant
            i <= trip.cities.len(),
            cities.deep_view() == city_tags(trip.cities@.take(i as int)),
        decreases trip.cities.len() - i,
    {
        let ghost before = cities.deep_view();
        cities.push(String::from_str(trip.cities[i].tag()));
        proof {
            assert(trip.cities@.take(i + 1).drop_last() =~= trip.cities@.take(i as int));
            assert(trip.cities@.take(i + 1).last() == trip.cities@[i as int]);
            assert(cities.deep_view() =~= before.push(trip.cities@[i as int].spec_tag()));
            assert(city_tags(trip.cities@.take(i + 1)) =~= city_tags(trip.cities@.take(i as int)).push(
                trip.cities@[i as int].spec_tag(),
            ));
        }
        i += 1;
    }
    assert(trip.cities@.take(trip.cities@.len() as int) =~= trip.cities@);
    let ghost date_views = trip.dates.deep_view();
    let mut dates: Vec<String> = Vec::new();
    let mut k: usize = 0;
    proof {
        assert(date_views.take(0) =~= Seq::empty());
        assert(dates.deep_view() =~= Seq::empty());
    }
    while k < trip.dates.len()
        invariant
            k <= trip.dates.len(),
            date_views == trip.dates.deep_view(),
            id@ == trip_id(trip@.description),
            date_texts(date_views.take(k as int), id@) == Ok::<Seq<Seq<char>>, AssetErrorView>(
                dates.deep_view(),
            ),
        decreases trip.dates.len() - k,
    {
        proof {
            assert(date_views.take(k + 1).drop_last() =~= date_views.take(k as int));
            assert(date_views.take(k + 1).last() == date_views[k as int]);
            assert(date_views[k as int] == trip.dates@[k as int]@);
        }
        match write_date(trip.dates[k].as_str(), id.as_str()) {
            Ok(text) => {
                let ghost before = dates.deep_view();
                dates.push(text);
                assert(dates.deep_view() =~= before.push(text@));
            },
            Err(e) => {
                proof {
                    lemma_date_texts_prefix_fails(date_views, id@, k + 1);
                }
                return Err(e);
            },
        }
        k += 1;
    }
    assert(date_views.take(date_views.len() as int) =~= date_views);
    let mut text = String::from_str("        ");
    text.append(id.as_str());
    text.append(" ->\n            { name = \"");
    text.append(trip.name.as_str());
    text.append("\"\n            , description = \"");
    text.append(trip.description.as_str());
    text.append("\"\n            , locations = [ ");
    text.append(join(&cities, ", ").as_str());
    text.append(" ]\n            , dates = [ ");
    text.append(join(&dates, ", ").as_str());
    text.append(" ]\n            }\n");
    Ok(text)
}

/// Writes the part of the module that declares the trips. Fails when a date of a trip has no
/// slash or names no month.
pub fn write_trips(catalog: &Catalog) -> (text: Result<String, AssetError>)
    ensures
        match text {
            Ok(t) => trips_text(catalog@.trips) == Ok::<Seq<char>, AssetErrorView>(t@),
            Err(e) => trips_text(catalog@.trips) == Err::<Seq<char>, AssetErrorView>(e@),
        },
{
    let trips = catalog.trips();
    let ghost views = trips.deep_view();
    let mut ids: Vec<String> = Vec::new();
    let mut parse_arms: Vec<(String, String)> = Vec::new();
    let mut records = String::new();
    let mut i: usize = 0;
    proof {
        assert(views.take(0) =~= Seq::empty());
        assert(ids.deep_view() =~= Seq::empty());
        assert(parse_arms.deep_view() =~= Seq::empty());
    }
    while i < trips.len()
        invariant
            i <= trips.len(),
            views == trips.deep_view(),
            views == catalog@.trips,
            ids.deep_view() == trip_ids(views.take(i as int)),
            parse_arms.deep_view() == trip_parse_arms(views.take(i as int)),
            trip_records(views.take(i as int)) == Ok::<Seq<char>, AssetErrorView>(records@),
        decreases trips.len() - i,
    {
        let trip = &trips[i];
        proof {
            assert(views.take(i + 1).drop_last() =~= views.take(i as int));
            assert(views.take(i + 1).last() == views[i as int]);
            assert(views[i as int] == trip@);
        }
        let record = match write_trip_record(trip) {
            Ok(record) => record,
            Err(e) => {
                proof {
                    lemma_trip_records_prefix_fails(views, i + 1);
                }
                return Err(e);
            },
        };
        let id = trip.id_string();
        let ghost old_ids = ids.deep_view();
        let ghost old_parses = parse_arms.deep_view();
        parse_arms.push((quote(trip.description.as_str()), just(id.as_str())));
        ids.push(id);
        records.append(record.as_str());
        proof {
            let before = views.take(i as int);
            let now = views.take(i + 1);
            assert(ids.deep_view() =~= old_ids.push(trip_id(trip@.description)));
            assert(trip_ids(now) =~= trip_ids(before).push(trip_id(trip@.description)));
            assert(parse_arms.deep_view() =~= old_parses.push(
                (quoted(trip@.description), "Just "@ + trip_id(trip@.description)),
            ));
            assert(trip_parse_arms(now) =~= trip_parse_arms(before).push(
                (quoted(trip@.description), "Just "@ + trip_id(trip@.description)),
            ));
        }
        i += 1;
    }
    assert(views.take(views.len() as int) =~= views);
    let mut out = String::from_str("type Trip\n");
    put_variants(&mut out, &ids);
    out.append("tripList : List Trip\ntripList =\n");
    put_list(&mut out, &ids);
    out.append("stringToTrip : String -> Maybe Trip\nstringToTrip trip =\n    case trip of\n");
    put_cases(&mut out, &parse_arms);
    out.append("        _ ->\n            Nothing\n");
    out.append(TRIP_RECORD_TYPE);
    out.append("tripInformation : Trip -> TripInformation\ntripInformation trip =\n    case trip of\n");
    out.append(records.as_str());
    out.append(DATE_DECLARATIONS);
    Ok(out)
}

} // verus!
