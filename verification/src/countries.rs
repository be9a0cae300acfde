//! The part of the generated module that declares the countries.

use crate::catalog::{Catalog, CountryPlacesView, Place, PlaceView};
use crate::emit::{cases_text, just, list_text, put_cases, put_list, put_variants, quote, variants_text};
use crate::error::ConfigError;
use crate::place::{code_of, CountryCodes, Location};
use crate::text::quoted;
use vstd::prelude::*;
use vstd::string::*;

verus! {

/// The tags of the countries, in the catalog's order.
pub open spec fn country_tags(places: Seq<CountryPlacesView>) -> Seq<Seq<char>> {
    places.map_values(|place: CountryPlacesView| place.country.spec_tag())
}

/// For each country, the branch that gives its three-letter code. A country without a code
/// is an error; the first such country is reported.
pub open spec fn country_id_arms(
    places: Seq<CountryPlacesView>,
    codes: Seq<(Seq<char>, Seq<char>)>,
) -> Result<Seq<(Seq<char>, Seq<char>)>, ConfigError>
    decreases places.len(),
{
    if places.len() == 0 {
        Ok(Seq::empty())
    } else {
        match country_id_arms(places.drop_last(), codes) {
            Ok(arms) => match code_of(codes, places.last().country.spec_name()) {
                Some(code) => Ok(arms.push((places.last().country.spec_tag(), quoted(code)))),
                None => Err(ConfigError::MissingCountryCode(places.last().country)),
            },
            Err(e) => Err(e),
        }
    }
}

/// For each country, the branch that gives its display name.
pub open spec fn country_name_arms(places: Seq<CountryPlacesView>) -> Seq<(Seq<char>, Seq<char>)> {
    places.map_values(
        |place: CountryPlacesView| (place.country.spec_tag(), quoted(place.country.spec_name())),
    )
}

/// For each country, the branch that reads it from its display name.
pub open spec fn country_parse_arms(places: Seq<CountryPlacesView>) -> Seq<(Seq<char>, Seq<char>)> {
    places.map_values(
        |place: CountryPlacesView|
            (quoted(place.country.spec_name()), "Just "@ + place.country.spec_tag()),
    )
}

/// The name of a country in its own language: the local name of its home base, where the
/// catalog lists the home base with a local name.
pub open spec fn home_name(locations: Seq<PlaceView>) -> Option<Seq<char>>
    decreases locations.len(),
{
    if locations.len() == 0 {
        None
    } else if locations[0].location == Location::Local {
        locations[0].local_name
    } else {
        home_name(locations.drop_first())
    }
}

/// For each country that has a name in its own language, the branch that gives it.
pub open spec fn country_local_arms(places: Seq<CountryPlacesView>) -> Seq<(Seq<char>, Seq<char>)>
    decreases places.len(),
{
    if places.len() == 0 {
        Seq::empty()
    } else {
        match home_name(places.last().locations) {
            Some(local) => country_local_arms(places.drop_last()).push(
                (places.last().country.spec_tag(), "Just "@ + quoted(local)),
            ),
            None => country_local_arms(places.drop_last()),
        }
    }
}

/// The declarations of the countries: the type, the list of all countries, and the
/// functions that give a country's code, its display name, the country of a display name,
/// and a country's name in its own language.
pub open spec fn countries_text(
    places: Seq<CountryPlacesView>,
    codes: Seq<(Seq<char>, Seq<char>)>,
) -> Result<Seq<char>, ConfigError> {
    match country_id_arms(places, codes) {
        Ok(id_arms) => Ok(
            "type Country\n"@ + variants_text(country_tags(places))
                + "countryList : List Country\ncountryList =\n"@ + list_text(country_tags(places))
                + "countryId : Country -> String\ncountryId country =\n    case country of\n"@
                + cases_text(id_arms)
                + "countryName : Country -> String\ncountryName country =\n    case country of\n"@
                + cases_text(country_name_arms(places))
                + "stringToCountry : String -> Maybe Country\nstringToCountry country =\n    case country of\n"@
                + cases_text(country_parse_arms(places)) + "        _ ->\n            Nothing\n"@
                + "countryLocalName : Country -> Maybe String\ncountryLocalName country =\n    case country of\n"@
                + cases_text(country_local_arms(places)),
        ),
        Err(e) => Err(e),
    }
}

/// A list of countries whose beginning has a country without a code fails in the same way.
pub proof fn lemma_country_id_arms_prefix_fails(
    places: Seq<CountryPlacesView>,
    codes: Seq<(Seq<char>, Seq<char>)>,
    n: int,
)
    requires
        0 <= n <= places.len(),
        country_id_arms(places.take(n), codes) is Err,
    ensures
        country_id_arms(places, codes) == country_id_arms(places.take(n), codes),
    decreases places.len() - n,
{
    if n < places.len() {
        assert(places.take(n + 1).drop_last() =~= places.take(n));
        lemma_country_id_arms_prefix_fails(places, codes, n + 1);
    } else {
        assert(places.take(n) =~= places);
    }
}

/// Finds the name of a country in its own language among the country's locations.
pub fn find_home_name(locations: &Vec<Place>) -> (name: Option<String>)
    ensures
        name.deep_view() == home_name(locations.deep_view()),
{
    let ghost views = locations.deep_view();
    let mut i: usize = 0;
    assert(views.skip(0) =~= views);
    while i < locations.len()
        invariant
            i <= locations.len(),
            views == locations.deep_view(),
            home_name(views) == home_name(views.skip(i as int)),
        decreases locations.len() - i,
    {
        proof {
            let rest = views.skip(i as int);
            assert(rest[0] == views[i as int]);
            assert(views[i as int] == locations@[i as int]@);
            assert(rest.drop_first() =~= views.skip(i + 1));
        }
        if locations[i].location == Location::Local {
            return crate::catalog::copy_optional(&locations[i].local_name);
        }
        i += 1;
    }
    None
}

/// Writes the declarations of the countries. Fails when a country has no code.
pub fn write_countries(catalog: &Catalog, codes: &CountryCodes) -> (text: Result<String, ConfigError>)
    ensures
        match text {
            Ok(t) => countries_text(catalog@.places, codes@) == Ok::<Seq<char>, ConfigError>(t@),
            Err(e) => countries_text(catalog@.places, codes@) == Err::<Seq<char>, ConfigError>(e),
        },
{
    let places = catalog.places();
    let ghost views = places.deep_view();
    let mut tags: Vec<String> = Vec::new();
    let mut id_arms: Vec<(String, String)> = Vec::new();
    let mut name_arms: Vec<(String, String)> = Vec::new();
    let mut parse_arms: Vec<(String, String)> = Vec::new();
    let mut local_arms: Vec<(String, String)> = Vec::new();
    let mut i: usize = 0;
    proof {
        assert(views.take(0) =~= Seq::empty());
        assert(tags.deep_view() =~= country_tags(views.take(0)));
        assert(id_arms.deep_view() =~= Seq::empty());
        assert(name_arms.deep_view() =~= country_name_arms(views.take(0)));
        assert(parse_arms.deep_view() =~= country_parse_arms(views.take(0)));
        assert(local_arms.deep_view() =~= country_local_arms(views.take(0)));
    }
    while i < places.len()
        invariant
            i <= places.len(),
            views == places.deep_view(),
            views == catalog@.places,
            tags.deep_view() == country_tags(views.take(i as int)),
            country_id_arms(views.take(i as int), codes@) == Ok::<
                Seq<(Seq<char>, Seq<char>)>,
                ConfigError,
            >(id_arms.deep_view()),
            name_arms.deep_view() == country_name_arms(views.take(i as int)),
            parse_arms.deep_view() == country_parse_arms(views.take(i as int)),
            local_arms.deep_view() == country_local_arms(views.take(i as int)),
        decreases places.len() - i,
    {
        let country = places[i].country;
        proof {
            let now = views.take(i + 1);
            assert(now.drop_last() =~= views.take(i as int));
            assert(now.last() == views[i as int]);
            assert(views[i as int] == places@[i as int]@);
        }
        let code = match country.code(codes) {
            Ok(code) => code,
            Err(e) => {
                proof {
                    lemma_country_id_arms_prefix_fails(views, codes@, i + 1);
                }
                return Err(e);
            },
        };
        let name = country.name();
        let ghost old_tags = tags.deep_view();
        let ghost old_ids = id_arms.deep_view();
        let ghost old_names = name_arms.deep_view();
        let ghost old_parses = parse_arms.deep_view();
        let ghost old_locals = local_arms.deep_view();
        let tag = String::from_str(country.tag());
        let id_arm = (String::from_str(country.tag()), quote(code.as_str()));
        let name_arm = (String::from_str(country.tag()), quote(name.as_str()));
        let parse_arm = (quote(name.as_str()), just(country.tag()));
        tags.push(tag);
        id_arms.push(id_arm);
        name_arms.push(name_arm);
        parse_arms.push(parse_arm);
        proof {
            let before = views.take(i as int);
            let now = views.take(i + 1);
            assert(tags.deep_view() =~= old_tags.push(country.spec_tag()));
            assert(country_tags(now) =~= country_tags(before).push(country.spec_tag()));
            assert(id_arms.deep_view() =~= old_ids.push((country.spec_tag(), quoted(code@))));
            assert(name_arms.deep_view() =~= old_names.push(
                (country.spec_tag(), quoted(country.spec_name())),
            ));
            assert(country_name_arms(now) =~= country_name_arms(before).push(
                (country.spec_tag(), quoted(country.spec_name())),
            ));
            assert(parse_arms.deep_view() =~= old_parses.push(
                (quoted(country.spec_name()), "Just "@ + country.spec_tag()),
            ));
            assert(country_parse_arms(now) =~= country_parse_arms(before).push(
                (quoted(country.spec_name()), "Just "@ + country.spec_tag()),
            ));
        }
        match find_home_name(&places[i].locations) {
            Some(local) => {
                let local_arm = (
                    String::from_str(country.tag()),
                    just(quote(local.as_str()).as_str()),
                );
                local_arms.push(local_arm);
                assert(local_arms.deep_view() =~= old_locals.push(
                    (country.spec_tag(), "Just "@ + quoted(local@)),
                ));
            },
            None => {},
        }
        i += 1;
    }
    assert(views.take(views.len() as int) =~= views);
    let mut out = String::from_str("type Country\n");
    put_variants(&mut out, &tags);
    out.append("countryList : List Country\ncountryList =\n");
    put_list(&mut out, &tags);
    out.append("countryId : Country -> String\ncountryId country =\n    case country of\n");
    put_cases(&mut out, &id_arms);
    out.append("countryName : Country -> String\ncountryName country =\n    case country of\n");
    put_cases(&mut out, &name_arms);
    out.append(
        "stringToCountry : String -> Maybe Country\nstringToCountry country =\n    case country of\n",
    );
    put_cases(&mut out, &parse_arms);
    out.append("        _ ->\n            Nothing\n");
    out.append(
        "countryLocalName : Country -> Maybe String\ncountryLocalName country =\n    case country of\n",
    );
    put_cases(&mut out, &local_arms);
    Ok(out)
}

} // verus!
