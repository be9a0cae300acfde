//! The geocoding service seen from this side: how a search is addressed, and which of the
//! service's answers counts.

use crate::error::GeocodeError;
use vstd::prelude::*;
use vstd::string::*;

verus! {

/// The address of the geocoding service.
pub const NOMINATIM_ENDPOINT: &'static str = "http://nominatim.openstreetmap.org";

/// How many seconds a caller lets pass after a search before it searches again.
pub const PAUSE_SECONDS: u64 = 1;

/// One match of a search: a latitude and a longitude, each as the decimal text that the
/// service sent.
#[derive(Debug)]
pub struct Nominatim {
    lat: String,
    lon: String,
}

/// The mathematical value of a [`Nominatim`].
pub struct NominatimView {
    pub lat: Seq<char>,
    pub lon: Seq<char>,
}

impl View for Nominatim {
    type V = NominatimView;

    closed spec fn view(&self) -> NominatimView {
        NominatimView { lat: self.lat@, lon: self.lon@ }
    }
}

impl DeepView for Nominatim {
    type V = NominatimView;

    open spec fn deep_view(&self) -> NominatimView {
        self@
    }
}

/// One parameter of a query as text: the key, an equals sign, the value.
pub open spec fn parameter_text(parameter: (Seq<char>, Seq<char>)) -> Seq<char> {
    parameter.0 + "="@ + parameter.1
}

/// The query string of a list of parameters: each as `key=value`, with `&` between them.
pub open spec fn query_string(params: Seq<(Seq<char>, Seq<char>)>) -> Seq<char>
    decreases params.len(),
{
    if params.len() == 0 {
        Seq::empty()
    } else if params.len() == 1 {
        parameter_text(params[0])
    } else {
        query_string(params.drop_last()) + "&"@ + parameter_text(params.last())
    }
}

/// The parameters of a search for a place: the answer's format, the place, and the limit of
/// one match.
pub open spec fn search_parameters(place_name: Seq<char>) -> Seq<(Seq<char>, Seq<char>)> {
    seq![("format"@, "jsonv2"@), ("q"@, place_name), ("limit"@, "1"@)]
}

/// The address at which a place is searched for.
pub open spec fn search_address(place_name: Seq<char>) -> Seq<char> {
    NOMINATIM_ENDPOINT@ + "/search?"@ + query_string(search_parameters(place_name))
}

/// How a client of the service identifies itself: its name, version and authors.
pub open spec fn client_identifier(name: Seq<char>, version: Seq<char>, authors: Seq<char>) -> Seq<
    char,
> {
    name + " v"@ + version + " - "@ + authors
}

impl Nominatim {
    /// A match at the given latitude and longitude.
    pub fn new(lat: String, lon: String) -> (found: Nominatim)
        ensures
            found@ == (NominatimView { lat: lat@, lon: lon@ }),
    {
        Nominatim { lat, lon }
    }

    /// The address at which `place_name` is searched for.
    pub fn search_url(place_name: &str) -> (url: String)
        ensures
            url@ == search_address(place_name@),
    {
        let mut params: Vec<(&str, &str)> = Vec::new();
        params.push(("format", "jsonv2"));
        params.push(("q", place_name));
        params.push(("limit", "1"));
        assert(params.deep_view() =~= search_parameters(place_name@));
        let query = Nominatim::get_query_string(params);
        let mut url = String::from_str(NOMINATIM_ENDPOINT);
        url.append("/search?");
        url.append(query.as_str());
        url
    }

    /// The text by which the client identifies itself to the service.
    pub fn user_agent(name: &str, version: &str, authors: &str) -> (agent: String)
        ensures
            agent@ == client_identifier(name@, version@, authors@),
    {
        let mut agent = String::from_str(name);
        agent.append(" v");
        agent.append(version);
        agent.append(" - ");
        agent.append(authors);
        agent
    }

    /// Picks the match that counts among the answers to a search for `place_name`: the first
    /// one. An empty answer means that the place was not found.
    pub fn search(place_name: &str, results: Vec<Nominatim>) -> (found: Result<
        Nominatim,
        GeocodeError,
    >)
        ensures
            match found {
                Ok(first) => results.len() > 0 && first@ == results@[0]@,
                Err(e) => results.len() == 0 && e@ == crate::error::GeocodeErrorView::NotFound(
                    place_name@,
                ),
            },
    {
        let mut results = results;
        if results.len() == 0 {
            Err(GeocodeError::NotFound(String::from_str(place_name)))
        } else {
            Ok(results.remove(0))
        }
    }

    /// The latitude, as decimal text.
    pub fn lat(&self) -> (lat: String)
        ensures
            lat@ == self@.lat,
    {
        self.lat.clone()
    }

    /// The longitude, as decimal text.
    pub fn lon(&self) -> (lon: String)
        ensures
            lon@ == self@.lon,
    {
        self.lon.clone()
    }

    /// Joins parameters into a query string: each as `key=value`, with `&` between them.
    pub fn get_query_string(params: Vec<(&str, &str)>) -> (query: String)
        ensures
            query@ == query_string(params.deep_view()),
    {
        let ghost views = params.deep_view();
        let mut query = String::new();
        let mut i: usize = 0;
        assert(views.take(0) =~= Seq::empty());
        while i < params.len()
            invariant
                i <= params.len(),
                views == params.deep_view(),
                query@ == query_string(views.take(i as int)),
            decreases params.len() - i,
        {
            let ghost before = query@;
            if i > 0 {
                query.append("&");
            }
            query.append(params[i].0);
            query.append("=");
            query.append(params[i].1);
            proof {
                let now = views.take(i + 1);
                assert(now.drop_last() =~= views.take(i as int));
                assert(now.last() == views[i as int]);
                assert(views[i as int] == (params@[i as int].0@, params@[i as int].1@));
                if i == 0 {
                    assert(before =~= Seq::<char>::empty());
                    assert(query@ =~= parameter_text(now[0]));
                } else {
                    assert(query@ =~= before + "&"@ + parameter_text(now.last()));
                }
            }
            i += 1;
        }
        assert(views.take(views.len() as int) =~= views);
        query
    }
}

} // verus!
