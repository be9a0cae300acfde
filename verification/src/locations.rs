//! The part of the generated module that declares the locations and their records.

use crate::catalog::{Catalog, CatalogEntry, CatalogEntryView};
use crate::emit::{
    cases_text, just, list_text, put_cases, put_list, put_variants, quote, variants_text, Fragment,
    FragmentView,
};
use crate::error::GenerationError;
use crate::place::Location;
use crate::reconcile::{LocationInformation, LocationInformationView};
use crate::text::quoted;
use vstd::prelude::*;
use vstd::string::*;

verus! {

/// The declaration of the type of the locations' records.
pub const LOCATION_RECORD_TYPE: &'static str =
    "type alias LocationInformation =\n    { name : String\n    , country : Country\n    , coordinates : ( Float, Float )\n    }\n";

/// The head of the function that gives the locations' records.
pub const LOCATION_RECORDS_HEAD: &'static str =
    "locationInformation : Location -> LocationInformation\nlocationInformation location =\n    case location of\n";

/// The position of the first entry that names `location`, or the number of entries when none
/// does.
pub open spec fn entry_position(entries: Seq<CatalogEntryView>, location: Location) -> int
    decreases entries.len(),
{
    if entries.len() == 0 {
        0
    } else if entries[0].location == location {
        0
    } else {
        1 + entry_position(entries.drop_first(), location)
    }
}

/// Of the candidates, those that the catalog lists, each with its entry, in the order of the
/// candidates. The sentinel is left out.
pub open spec fn listed_among(entries: Seq<CatalogEntryView>, candidates: Seq<Location>) -> Seq<
    CatalogEntryView,
>
    decreases candidates.len(),
{
    if candidates.len() == 0 {
        Seq::empty()
    } else {
        let before = listed_among(entries, candidates.drop_last());
        let location = candidates.last();
        let position = entry_position(entries, location);
        if location != Location::Local && position < entries.len() {
            before.push(entries[position])
        } else {
            before
        }
    }
}

/// The locations that the catalog lists, each with its entry, in the order in which the
/// locations are declared. The sentinel is left out.
pub open spec fn listed_places(entries: Seq<CatalogEntryView>) -> Seq<CatalogEntryView> {
    listed_among(entries, Location::spec_all())
}

/// The tags of the listed locations.
pub open spec fn location_tags(listed: Seq<CatalogEntryView>) -> Seq<Seq<char>> {
    listed.map_values(|entry: CatalogEntryView| entry.location.spec_tag())
}

/// For each listed location, the branch that reads it from its display name.
pub open spec fn location_parse_arms(listed: Seq<CatalogEntryView>) -> Seq<(Seq<char>, Seq<char>)> {
    listed.map_values(
        |entry: CatalogEntryView|
            (quoted(entry.location.spec_name()), "Just "@ + entry.location.spec_tag()),
    )
}

/// For each listed location that has a local name, the branch that gives it.
pub open spec fn location_local_arms(listed: Seq<CatalogEntryView>) -> Seq<(Seq<char>, Seq<char>)>
    decreases listed.len(),
{
    if listed.len() == 0 {
        Seq::empty()
    } else {
        match listed.last().local_name {
            Some(local) => location_local_arms(listed.drop_last()).push(
                (listed.last().location.spec_tag(), "Just "@ + quoted(local)),
            ),
            None => location_local_arms(listed.drop_last()),
        }
    }
}

/// The declarations of the locations, up to the records: the type, the list of all
/// locations, the functions that give the location of a display name and a location's local
/// name, the type of the records, and the head of the function that gives them.
pub open spec fn locations_head(entries: Seq<CatalogEntryView>) -> Seq<char> {
    let listed = listed_places(entries);
    "type Location\n"@ + variants_text(location_tags(listed))
        + "locationList : List Location\nlocationList =\n"@ + list_text(location_tags(listed))
        + "stringToLocation : String -> Maybe Location\nstringToLocation location =\n    case location of\n"@
        + cases_text(location_parse_arms(listed)) + "        _ ->\n            Nothing\n"@
        + "locationLocalName : Location -> Maybe String\nlocationLocalName location =\n    case location of\n"@
        + cases_text(location_local_arms(listed))
        + LOCATION_RECORD_TYPE@
        + LOCATION_RECORDS_HEAD@
}

/// The text of a record up to its first coordinate.
pub open spec fn record_opening(info: LocationInformationView) -> Seq<char> {
    "    "@ + info.id.spec_tag() + " ->\n    { name = \""@ + info.name + "\"\n    , country = "@
        + info.country.spec_tag() + "\n    , coordinates = ( "@
}

/// The record of one location: its name, its country, and its coordinates as longitude and
/// latitude. A record without a longitude or without a latitude is an error.
pub open spec fn location_record(info: LocationInformationView) -> Result<
    Seq<FragmentView>,
    GenerationError,
> {
    if info.coordinates.len() < 1 {
        Err(GenerationError::NoLongitude(info.id))
    } else if info.coordinates.len() < 2 {
        Err(GenerationError::NoLatitude(info.id))
    } else {
        Ok(
            seq![
                FragmentView::Text(record_opening(info)),
                FragmentView::Degrees(info.coordinates[0]),
                FragmentView::Text(", "@),
                FragmentView::Degrees(info.coordinates[1]),
                FragmentView::Text(" )\n    }\n"@),
            ],
        )
    }
}

/// The records of the locations, in order. The first record that fails makes all fail.
pub open spec fn location_records(infos: Seq<LocationInformationView>) -> Result<
    Seq<FragmentView>,
    GenerationError,
>
    decreases infos.len(),
{
    if infos.len() == 0 {
        Ok(Seq::empty())
    } else {
        match location_records(infos.drop_last()) {
            Ok(records) => match location_record(infos.last()) {
                Ok(record) => Ok(records + record),
                Err(e) => Err(e),
            },
            Err(e) => Err(e),
        }
    }
}

/// The whole part of the module that declares the locations: the declarations as one text,
/// then the records.
pub open spec fn location_fragments(
    entries: Seq<CatalogEntryView>,
    infos: Seq<LocationInformationView>,
) -> Result<Seq<FragmentView>, GenerationError> {
    match location_records(infos) {
        Ok(records) => Ok(seq![FragmentView::Text(locations_head(entries))] + records),
        Err(e) => Err(e),
    }
}

/// `entry_position` is the first position that names the location.
pub proof fn lemma_entry_position(entries: Seq<CatalogEntryView>, location: Location)
    ensures
        0 <= entry_position(entries, location) <= entries.len(),
        entry_position(entries, location) < entries.len() ==> entries[entry_position(
            entries,
            location,
        )].location == location,
        forall|i: int|
            0 <= i < entry_position(entries, location) ==> (#[trigger] entries[i]).location
                != location,
    decreases entries.len(),
{
    if entries.len() > 0 && entries[0].location != location {
        let rest = entries.drop_first();
        lemma_entry_position(rest, location);
        assert forall|i: int| 0 <= i < entry_position(entries, location) implies (
        #[trigger] entries[i]).location != location by {
            if i > 0 {
                assert(entries[i] == rest[i - 1]);
            }
        }
    }
}

/// A position that names the location, with none before it that does, is `entry_position`.
pub proof fn lemma_entry_position_unique(entries: Seq<CatalogEntryView>, location: Location, k: int)
    requires
        0 <= k <= entries.len(),
        k < entries.len() ==> entries[k].location == location,
        forall|i: int| 0 <= i < k ==> (#[trigger] entries[i]).location != location,
    ensures
        entry_position(entries, location) == k,
{
    lemma_entry_position(entries, location);
    let p = entry_position(entries, location);
    if p < k {
        assert(entries[p].location == location);
    } else if k < p {
        assert(entries[k].location == location);
    }
}

/// The place of a location in the order of declaration.
pub open spec fn ordinal(location: Location) -> int {
    match location {
        Location::Local => 0,
        Location::Seoul => 1,
        Location::Andong => 2,
        Location::Jeju => 3,
        Location::Cheongju => 4,
        Location::Danyang => 5,
        Location::Gangneung => 6,
        Location::Yeongdeok => 7,
        Location::Jinju => 8,
    }
}

/// True when `listed[i]` is the first entry that the catalog has for its location, which is
/// not the sentinel and is one of the candidates.
pub open spec fn is_first_entry(
    entries: Seq<CatalogEntryView>,
    candidates: Seq<Location>,
    listed: Seq<CatalogEntryView>,
    i: int,
) -> bool {
    &&& listed[i].location != Location::Local
    &&& candidates.contains(listed[i].location)
    &&& entry_position(entries, listed[i].location) < entries.len()
    &&& entries[entry_position(entries, listed[i].location)] == listed[i]
}

/// True when the locations of `listed` stand in the strict order of declaration.
pub open spec fn in_order(listed: Seq<CatalogEntryView>) -> bool {
    forall|i: int, j: int|
        0 <= i < j < listed.len() ==> ordinal((#[trigger] listed[i]).location) < ordinal(
            (#[trigger] listed[j]).location,
        )
}

/// True when `listed` holds an entry for `location`.
pub open spec fn lists(listed: Seq<CatalogEntryView>, location: Location) -> bool {
    exists|i: int| 0 <= i < listed.len() && (#[trigger] listed[i]).location == location
}

/// True when the candidates stand in the strict order of declaration.
pub open spec fn candidates_in_order(candidates: Seq<Location>) -> bool {
    forall|a: int, b: int|
        0 <= a < b < candidates.len() ==> ordinal(#[trigger] candidates[a]) < ordinal(
            #[trigger] candidates[b],
        )
}

/// What is listed among candidates that stand in order: first entries of candidates, in
/// order, and one for every candidate that the catalog has an entry for.
pub proof fn lemma_listed_among(entries: Seq<CatalogEntryView>, candidates: Seq<Location>)
    requires
        candidates_in_order(candidates),
    ensures
        forall|i: int|
            0 <= i < listed_among(entries, candidates).len() ==> #[trigger] is_first_entry(
                entries,
                candidates,
                listed_among(entries, candidates),
                i,
            ),
        in_order(listed_among(entries, candidates)),
        forall|c: int|
            0 <= c < candidates.len() && (#[trigger] candidates[c]) != Location::Local
                && entry_position(entries, candidates[c]) < entries.len() ==> lists(
                listed_among(entries, candidates),
                candidates[c],
            ),
    decreases candidates.len(),
{
    if candidates.len() > 0 {
        let head = candidates.drop_last();
        let location = candidates.last();
        assert(candidates_in_order(head)) by {
            assert forall|a: int, b: int| 0 <= a < b < head.len() implies ordinal(
                #[trigger] head[a],
            ) < ordinal(#[trigger] head[b]) by {
                assert(head[a] == candidates[a]);
                assert(head[b] == candidates[b]);
            }
        }
        lemma_listed_among(entries, head);
        let before = listed_among(entries, head);
        let now = listed_among(entries, candidates);
        let position = entry_position(entries, location);
        let grows = location != Location::Local && position < entries.len();
        lemma_entry_position(entries, location);
        assert forall|i: int| 0 <= i < now.len() implies #[trigger] is_first_entry(
            entries,
            candidates,
            now,
            i,
        ) by {
            if i < before.len() {
                assert(now[i] == before[i]);
                assert(is_first_entry(entries, head, before, i));
                let c = choose|c: int| 0 <= c < head.len() && head[c] == before[i].location;
                assert(candidates[c] == before[i].location);
            } else {
                assert(now[i] == entries[position]);
                assert(candidates[candidates.len() - 1] == location);
            }
        }
        assert(in_order(now)) by {
            assert forall|i: int, j: int| 0 <= i < j < now.len() implies ordinal(
                (#[trigger] now[i]).location,
            ) < ordinal((#[trigger] now[j]).location) by {
                assert(now[i] == before[i]);
                if j < before.len() {
                    assert(now[j] == before[j]);
                } else {
                    assert(is_first_entry(entries, head, before, i));
                    let c = choose|c: int| 0 <= c < head.len() && head[c] == before[i].location;
                    assert(candidates[c] == before[i].location);
                    assert(candidates[candidates.len() - 1] == location);
                    assert(now[j].location == location);
                }
            }
        }
        assert forall|c: int|
            0 <= c < candidates.len() && (#[trigger] candidates[c]) != Location::Local
                && entry_position(entries, candidates[c]) < entries.len() implies lists(
            now,
            candidates[c],
        ) by {
            if c < head.len() {
                assert(head[c] == candidates[c]);
                assert(lists(before, head[c]));
                let i = choose|i: int|
                    0 <= i < before.len() && (#[trigger] before[i]).location == head[c];
                assert(now[i] == before[i]);
            } else {
                assert(now[now.len() - 1].location == location);
            }
        }
    }
}

/// The list of all locations stands in the order of declaration, and holds every location.
pub proof fn lemma_all_in_order()
    ensures
        candidates_in_order(Location::spec_all()),
        forall|l: Location|
            0 <= #[trigger] ordinal(l) < Location::spec_all().len() && Location::spec_all()[ordinal(
                l,
            )] == l,
{
    let all = Location::spec_all();
    assert forall|c: int| 0 <= c < all.len() implies ordinal(#[trigger] all[c]) == c by {}
}

/// The locations of the module are the catalog's, sorted: what is listed are entries of the
/// catalog, the sentinel's left out, in the strict order of declaration, and every location
/// that the catalog has an entry for is listed.
pub proof fn lemma_listed_places_are_sorted(entries: Seq<CatalogEntryView>)
    ensures
        forall|i: int|
            0 <= i < listed_places(entries).len() ==> #[trigger] is_first_entry(
                entries,
                Location::spec_all(),
                listed_places(entries),
                i,
            ),
        in_order(listed_places(entries)),
        forall|k: int|
            0 <= k < entries.len() && (#[trigger] entries[k]).location != Location::Local ==> lists(
                listed_places(entries),
                entries[k].location,
            ),
{
    let all = Location::spec_all();
    lemma_all_in_order();
    lemma_listed_among(entries, all);
    assert forall|k: int|
        0 <= k < entries.len() && (#[trigger] entries[k]).location != Location::Local implies lists(
        listed_places(entries),
        entries[k].location,
    ) by {
        let location = entries[k].location;
        lemma_entry_position(entries, location);
        assert(all[ordinal(location)] == location);
        if entry_position(entries, location) >= entries.len() {
            assert(entries[k].location != location);
        }
    }
}

/// In a catalog where no location but the sentinel has two entries, every entry but the
/// sentinel's is listed among the locations of the module.
pub proof fn lemma_every_entry_is_listed(entries: Seq<CatalogEntryView>, k: int)
    requires
        forall|a: int, b: int|
            0 <= a < b < entries.len() ==> !crate::catalog::clash(
                #[trigger] entries[a],
                #[trigger] entries[b],
            ),
        0 <= k < entries.len(),
        entries[k].location != Location::Local,
    ensures
        exists|i: int|
            0 <= i < listed_places(entries).len() && #[trigger] listed_places(entries)[i]
                == entries[k],
{
    lemma_listed_places_are_sorted(entries);
    let listed = listed_places(entries);
    let location = entries[k].location;
    assert(lists(listed, location));
    let i = choose|i: int| 0 <= i < listed.len() && (#[trigger] listed[i]).location == location;
    assert(is_first_entry(entries, Location::spec_all(), listed, i));
    let first = entry_position(entries, location);
    lemma_entry_position(entries, location);
    if first < k {
        assert(crate::catalog::clash(entries[first], entries[k]));
    } else if k < first {
        assert(entries[k].location != location);
    }
    assert(listed[i] == entries[k]);
}

/// A list of records whose beginning fails, fails in the same way.
pub proof fn lemma_location_records_prefix_fails(infos: Seq<LocationInformationView>, n: int)
    requires
        0 <= n <= infos.len(),
        location_records(infos.take(n)) is Err,
    ensures
        location_records(infos) == location_records(infos.take(n)),
    decreases infos.len() - n,
{
    if n < infos.len() {
        assert(infos.take(n + 1).drop_last() =~= infos.take(n));
        lemma_location_records_prefix_fails(infos, n + 1);
    } else {
        assert(infos.take(n) =~= infos);
    }
}

/// Finds the first entry that names `location`.
pub fn find_entry(entries: &Vec<CatalogEntry>, location: Location) -> (position: usize)
    ensures
        position == entry_position(entries.deep_view(), location),
{
    let ghost views = entries.deep_view();
    let mut i: usize = 0;
    while i < entries.len()
        invariant
            i <= entries.len(),
            views == entries.deep_view(),
            forall|j: int| 0 <= j < i ==> (#[trigger] views[j]).location != location,
        decreases entries.len() - i,
    {
        assert(views[i as int] == entries@[i as int]@);
        if entries[i].location == location {
            proof {
                lemma_entry_position_unique(views, location, i as int);
            }
            return i;
        }
        i += 1;
    }
    proof {
        lemma_entry_position_unique(views, location, views.len() as int);
    }
    i
}

/// Writes the declarations of the locations, up to the records.
pub fn write_locations_head(catalog: &Catalog) -> (text: String)
    ensures
        text@ == locations_head(crate::catalog::all_entries(catalog@.places)),
{
    let entries = catalog.entries();
    let ghost views = entries.deep_view();
    let all = Location::all();
    let mut tags: Vec<String> = Vec::new();
    let mut parse_arms: Vec<(String, String)> = Vec::new();
    let mut local_arms: Vec<(String, String)> = Vec::new();
    let mut i: usize = 0;
    proof {
        assert(all@.take(0) =~= Seq::empty());
        assert(tags.deep_view() =~= Seq::empty());
        assert(parse_arms.deep_view() =~= Seq::empty());
        assert(local_arms.deep_view() =~= Seq::empty());
    }
    while i < all.len()
        invariant
            i <= all.len(),
            views == entries.deep_view(),
            tags.deep_view() == location_tags(listed_among(views, all@.take(i as int))),
            parse_arms.deep_view() == location_parse_arms(listed_among(views, all@.take(i as int))),
            local_arms.deep_view() == location_local_arms(listed_among(views, all@.take(i as int))),
        decreases all.len() - i,
    {
        let location = all[i];
        let position = find_entry(&entries, location);
        let ghost before = listed_among(views, all@.take(i as int));
        proof {
            assert(all@.take(i + 1).drop_last() =~= all@.take(i as int));
            assert(all@.take(i + 1).last() == location);
        }
        if location != Location::Local && position < entries.len() {
            let ghost entry = views[position as int];
            proof {
                lemma_entry_position(views, location);
                assert(entry == entries@[position as int]@);
                assert(before.push(entry).drop_last() =~= before);
            }
            let name = location.name();
            let ghost old_tags = tags.deep_view();
            let ghost old_parses = parse_arms.deep_view();
            let ghost old_locals = local_arms.deep_view();
            tags.push(String::from_str(location.tag()));
            parse_arms.push((quote(name.as_str()), just(location.tag())));
            proof {
                assert(tags.deep_view() =~= old_tags.push(location.spec_tag()));
                assert(location_tags(before.push(entry)) =~= location_tags(before).push(
                    location.spec_tag(),
                ));
                assert(parse_arms.deep_view() =~= old_parses.push(
                    (quoted(location.spec_name()), "Just "@ + location.spec_tag()),
                ));
                assert(location_parse_arms(before.push(entry)) =~= location_parse_arms(before).push(
                    (quoted(location.spec_name()), "Just "@ + location.spec_tag()),
                ));
            }
            match &entries[position].local_name {
                Some(local) => {
                    local_arms.push(
                        (String::from_str(location.tag()), just(quote(local.as_str()).as_str())),
                    );
                    assert(local_arms.deep_view() =~= old_locals.push(
                        (location.spec_tag(), "Just "@ + quoted(local@)),
                    ));
                },
                None => {},
            }
        }
        i += 1;
    }
    assert(all@.take(all@.len() as int) =~= all@);
    let mut out = String::from_str("type Location\n");
    put_variants(&mut out, &tags);
    out.append("locationList : List Location\nlocationList =\n");
    put_list(&mut out, &tags);
    out.append(
        "stringToLocation : String -> Maybe Location\nstringToLocation location =\n    case location of\n",
    );
    put_cases(&mut out, &parse_arms);
    out.append("        _ ->\n            Nothing\n");
    out.append(
        "locationLocalName : Location -> Maybe String\nlocationLocalName location =\n    case location of\n",
    );
    put_cases(&mut out, &local_arms);
    out.append(LOCATION_RECORD_TYPE);
    out.append(LOCATION_RECORDS_HEAD);
    out
}

/// Writes the part of the module that declares the locations: the declarations, then the
/// record of each location in `locations_information`. Fails when a record has fewer than
/// two coordinates.
pub fn write_locations(catalog: &Catalog, locations_information: &[LocationInformation]) -> (fragments: Result<
    Vec<Fragment>,
    GenerationError,
>)
    ensures
        match fragments {
            Ok(f) => location_fragments(
                crate::catalog::all_entries(catalog@.places),
                locations_information.deep_view(),
            ) == Ok::<Seq<FragmentView>, GenerationError>(f.deep_view()),
            Err(e) => location_fragments(
                crate::catalog::all_entries(catalog@.places),
                locations_information.deep_view(),
            ) == Err::<Seq<FragmentView>, GenerationError>(e),
        },
{
    let ghost infos = locations_information.deep_view();
    let head = write_locations_head(catalog);
    let ghost head_view = seq![FragmentView::Text(head@)];
    let mut out: Vec<Fragment> = Vec::new();
    out.push(Fragment::Text(head));
    let mut i: usize = 0;
    proof {
        assert(infos.take(0) =~= Seq::empty());
        assert(out.deep_view() =~= head_view + Seq::empty());
    }
    while i < locations_information.len()
        invariant
            i <= locations_information.len(),
            infos == locations_information.deep_view(),
            location_records(infos.take(i as int)) is Ok,
            out.deep_view() == head_view + location_records(infos.take(i as int))->Ok_0,
        decreases locations_information.len() - i,
    {
        let info = &locations_information[i];
        proof {
            assert(infos.take(i + 1).drop_last() =~= infos.take(i as int));
            assert(infos.take(i + 1).last() == infos[i as int]);
            assert(infos[i as int] == info@);
        }
        if info.coordinates.len() < 1 {
            proof {
                lemma_location_records_prefix_fails(infos, i + 1);
            }
            return Err(GenerationError::NoLongitude(info.id));
        }
        if info.coordinates.len() < 2 {
            proof {
                lemma_location_records_prefix_fails(infos, i + 1);
            }
            return Err(GenerationError::NoLatitude(info.id));
        }
        let mut opening = String::from_str("    ");
        opening.append(info.id.tag());
        opening.append(" ->\n    { name = \"");
        opening.append(info.name.as_str());
        opening.append("\"\n    , country = ");
        opening.append(info.country.tag());
        opening.append("\n    , coordinates = ( ");
        let ghost before = out.deep_view();
        let ghost record = location_record(info@)->Ok_0;
        out.push(Fragment::Text(opening));
        out.push(Fragment::Degrees(info.coordinates[0]));
        out.push(Fragment::Text(String::from_str(", ")));
        out.push(Fragment::Degrees(info.coordinates[1]));
        out.push(Fragment::Text(String::from_str(" )\n    }\n")));
        proof {
            assert(out.deep_view() =~= before + record);
            assert(before + record =~= head_view + (location_records(infos.take(i as int))->Ok_0
                + record));
        }
        i += 1;
    }
    assert(infos.take(infos.len() as int) =~= infos);
    Ok(out)
}

} // verus!
