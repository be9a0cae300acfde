//! The closed sets of countries and locations that a catalog can name, their display names,
//! and the table of three-letter country codes.

use crate::error::ConfigError;
use crate::identifier::location_identifier;
use crate::chars::{is_upper_case, push_char, upper_case};
use crate::identifier::lemma_identifier_of_plain;
use crate::text::{free_of, lemma_without_push, same_text, without};
use vstd::prelude::*;
use vstd::string::*;

verus! {

/// The display name that belongs to a tag: the tag with a space put before every uppercase
/// letter but the first character.
pub open spec fn display_name(tag: Seq<char>) -> Seq<char>
    decreases tag.len(),
{
    if tag.len() == 0 {
        tag
    } else if tag.len() > 1 && upper_case(tag.last()) {
        display_name(tag.drop_last()).push(' ').push(tag.last())
    } else {
        display_name(tag.drop_last()).push(tag.last())
    }
}

/// Derives a display name from a tag.
pub fn to_display_name(tag: &str) -> (name: String)
    ensures
        name@ == display_name(tag@),
{
    broadcast use vstd::string::axiom_spec_iter;

    let mut name = String::new();
    let mut first = true;
    for c in it: tag.chars()
        invariant
            it.seq() == tag@,
            first == (it.index() == 0),
            name@ == display_name(tag@.take(it.index())),
    {
        proof {
            let k = it.index();
            assert(tag@.take(k + 1).drop_last() =~= tag@.take(k));
            assert(tag@.take(k + 1).last() == c);
        }
        if !first && is_upper_case(c) {
            push_char(&mut name, ' ');
        }
        push_char(&mut name, c);
        first = false;
    }
    assert(tag@.take(tag@.len() as int) =~= tag@);
    name
}

/// Removing the spaces from a display name gives what removing them from the tag gives.
pub proof fn lemma_display_name_stripped(tag: Seq<char>)
    ensures
        without(display_name(tag), ' ', '_') == without(tag, ' ', '_'),
    decreases tag.len(),
{
    if tag.len() > 0 {
        let head = tag.drop_last();
        let c = tag.last();
        lemma_display_name_stripped(head);
        assert(head.push(c) =~= tag);
        lemma_without_push(head, c, ' ', '_');
        lemma_without_push(display_name(head), ' ', ' ', '_');
        lemma_without_push(display_name(head).push(' '), c, ' ', '_');
        lemma_without_push(display_name(head), c, ' ', '_');
    }
}

/// A country that the catalog can name.
#[derive(Clone, Copy, Debug, PartialEq, Eq, Structural, PartialOrd, Ord, Hash)]
pub enum Country {
    Korea,
}

impl Country {
    /// The country's tag as a sequence of characters.
    pub open spec fn spec_tag(self) -> Seq<char> {
        match self {
            Country::Korea => "Korea"@,
        }
    }

    /// The country's display name as a sequence of characters.
    pub open spec fn spec_name(self) -> Seq<char> {
        display_name(self.spec_tag())
    }

    /// Every country, in the order of declaration.
    pub open spec fn spec_all() -> Seq<Country> {
        seq![Country::Korea]
    }

    /// The canonical identifier of the country.
    pub fn tag(&self) -> (tag: &'static str)
        ensures
            tag@ == self.spec_tag(),
    {
        match self {
            Country::Korea => "Korea",
        }
    }

    /// The display name of the country.
    pub fn name(&self) -> (name: String)
        ensures
            name@ == self.spec_name(),
    {
        to_display_name(self.tag())
    }

    /// Every country, in the order of declaration.
    pub fn all() -> (all: Vec<Country>)
        ensures
            all@ == Country::spec_all(),
    {
        let mut all: Vec<Country> = Vec::new();
        all.push(Country::Korea);
        assert(all@ =~= Country::spec_all());
        all
    }

    /// The three-letter code of the country: the one that the table holds under the country's
    /// display name. A country that the table does not hold is an error.
    pub fn code(&self, cca3: &CountryCodes) -> (code: Result<String, ConfigError>)
        ensures
            match code {
                Ok(c) => code_of(cca3@, self.spec_name()) == Some(c@),
                Err(e) => code_of(cca3@, self.spec_name()) is None && e
                    == ConfigError::MissingCountryCode(*self),
            },
    {
        let name = self.name();
        match cca3.get(name.as_str()) {
            Some(code) => Ok(code),
            None => Err(ConfigError::MissingCountryCode(*self)),
        }
    }
}

/// A place that the catalog can name. `Local` stands for a country's home base: it is never
/// geocoded and never listed among the locations.
#[derive(Clone, Copy, Debug, PartialEq, Eq, Structural, PartialOrd, Ord, Hash)]
pub enum Location {
    Local,
    Seoul,
    Andong,
    Jeju,
    Cheongju,
    Danyang,
    Gangneung,
    Yeongdeok,
    Jinju,
}

impl Location {
    /// The location's tag as a sequence of characters.
    pub open spec fn spec_tag(self) -> Seq<char> {
        match self {
            Location::Local => "Local"@,
            Location::Seoul => "Seoul"@,
            Location::Andong => "Andong"@,
            Location::Jeju => "Jeju"@,
            Location::Cheongju => "Cheongju"@,
            Location::Danyang => "Danyang"@,
            Location::Gangneung => "Gangneung"@,
            Location::Yeongdeok => "Yeongdeok"@,
            Location::Jinju => "Jinju"@,
        }
    }

    /// The location's display name as a sequence of characters.
    pub open spec fn spec_name(self) -> Seq<char> {
        display_name(self.spec_tag())
    }

    /// Every location, in the order of declaration.
    pub open spec fn spec_all() -> Seq<Location> {
        seq![
            Location::Local,
            Location::Seoul,
            Location::Andong,
            Location::Jeju,
            Location::Cheongju,
            Location::Danyang,
            Location::Gangneung,
            Location::Yeongdeok,
            Location::Jinju,
        ]
    }

    /// The canonical identifier of the location.
    pub fn tag(&self) -> (tag: &'static str)
        ensures
            tag@ == self.spec_tag(),
    {
        match self {
            Location::Local => "Local",
            Location::Seoul => "Seoul",
            Location::Andong => "Andong",
            Location::Jeju => "Jeju",
            Location::Cheongju => "Cheongju",
            Location::Danyang => "Danyang",
            Location::Gangneung => "Gangneung",
            Location::Yeongdeok => "Yeongdeok",
            Location::Jinju => "Jinju",
        }
    }

    /// The display name of the location.
    pub fn name(&self) -> (name: String)
        ensures
            name@ == self.spec_name(),
    {
        to_display_name(self.tag())
    }

    /// Every location, in the order of declaration.
    pub fn all() -> (all: Vec<Location>)
        ensures
            all@ == Location::spec_all(),
    {
        let mut all: Vec<Location> = Vec::new();
        all.push(Location::Local);
        all.push(Location::Seoul);
        all.push(Location::Andong);
        all.push(Location::Jeju);
        all.push(Location::Cheongju);
        all.push(Location::Danyang);
        all.push(Location::Gangneung);
        all.push(Location::Yeongdeok);
        all.push(Location::Jinju);
        assert(all@ =~= Location::spec_all());
        all
    }

    /// The location whose tag is `tag`, if there is one.
    pub fn from_tag(tag: &str) -> (found: Option<Location>)
        ensures
            match found {
                Some(l) => l.spec_tag() == tag@,
                None => forall|l: Location| l.spec_tag() != tag@,
            },
    {
        let all = Location::all();
        let mut i: usize = 0;
        while i < all.len()
            invariant
                i <= all.len(),
                all@ == Location::spec_all(),
                forall|j: int| 0 <= j < i ==> all@[j].spec_tag() != tag@,
            decreases all.len() - i,
        {
            if same_text(all[i].tag(), tag) {
                return Some(all[i]);
            }
            i += 1;
        }
        proof {
            assert forall|l: Location| l.spec_tag() != tag@ by {
                lemma_all_locations(l);
            }
        }
        None
    }
}

/// Every location occurs in the list of all locations.
pub proof fn lemma_all_locations(l: Location)
    ensures
        exists|j: int| 0 <= j < Location::spec_all().len() && Location::spec_all()[j] == l,
{
    let all = Location::spec_all();
    match l {
        Location::Local => assert(all[0] == l),
        Location::Seoul => assert(all[1] == l),
        Location::Andong => assert(all[2] == l),
        Location::Jeju => assert(all[3] == l),
        Location::Cheongju => assert(all[4] == l),
        Location::Danyang => assert(all[5] == l),
        Location::Gangneung => assert(all[6] == l),
        Location::Yeongdeok => assert(all[7] == l),
        Location::Jinju => assert(all[8] == l),
    }
}

/// What is known of every location's tag: its characters are letters, so it holds no space and
/// no underscore, and it is neither of the two irregular names.
pub proof fn lemma_location_tag_plain(l: Location)
    ensures
        free_of(l.spec_tag(), ' ', '_'),
        l.spec_tag() != "Singapore"@,
        l.spec_tag() != "HongKong"@,
{
    reveal_strlit("Local");
    reveal_strlit("Seoul");
    reveal_strlit("Andong");
    reveal_strlit("Jeju");
    reveal_strlit("Cheongju");
    reveal_strlit("Danyang");
    reveal_strlit("Gangneung");
    reveal_strlit("Yeongdeok");
    reveal_strlit("Jinju");
    reveal_strlit("Singapore");
    reveal_strlit("HongKong");
    let tag = l.spec_tag();
    assert(tag.len() != "Singapore"@.len() || tag[0] != "Singapore"@[0]);
    assert(tag.len() != "HongKong"@.len() || tag[0] != "HongKong"@[0]);
}

/// Two different locations have different tags.
pub proof fn lemma_location_tags_distinct(a: Location, b: Location)
    requires
        a != b,
    ensures
        a.spec_tag() != b.spec_tag(),
{
    reveal_strlit("Local");
    reveal_strlit("Seoul");
    reveal_strlit("Andong");
    reveal_strlit("Jeju");
    reveal_strlit("Cheongju");
    reveal_strlit("Danyang");
    reveal_strlit("Gangneung");
    reveal_strlit("Yeongdeok");
    reveal_strlit("Jinju");
    assert(a.spec_tag().len() != b.spec_tag().len() || a.spec_tag()[0] != b.spec_tag()[0]);
}

/// Derived identifiers are stable: the derived identifier of a location's display name is
/// the location's tag, and deriving an identifier from it again changes nothing.
pub proof fn lemma_location_identifier_is_tag(l: Location)
    ensures
        location_identifier(l.spec_name()) == l.spec_tag(),
        location_identifier(l.spec_tag()) == l.spec_tag(),
        location_identifier(location_identifier(l.spec_name())) == location_identifier(
            l.spec_name(),
        ),
{
    lemma_display_name_stripped(l.spec_tag());
    lemma_location_tag_plain(l);
    lemma_identifier_of_plain(l.spec_tag());
}

/// Derived identifiers are free of collisions: two different locations never share the
/// derived identifier of their display names. (This holds of the sentinel `Local` too.)
pub proof fn lemma_location_identifiers_distinct(a: Location, b: Location)
    requires
        a != b,
    ensures
        location_identifier(a.spec_name()) != location_identifier(b.spec_name()),
{
    lemma_location_identifier_is_tag(a);
    lemma_location_identifier_is_tag(b);
    lemma_location_tags_distinct(a, b);
}

/// The code that a table of `(name, code)` entries holds under `name`. Where a name occurs
/// more than once, the last entry counts.
pub open spec fn code_of(table: Seq<(Seq<char>, Seq<char>)>, name: Seq<char>) -> Option<Seq<char>>
    decreases table.len(),
{
    if table.len() == 0 {
        None
    } else if table.last().0 == name {
        Some(table.last().1)
    } else {
        code_of(table.drop_last(), name)
    }
}

/// The table of three-letter country codes, keyed by the countries' display names.
pub struct CountryCodes {
    pub entries: Vec<(String, String)>,
}

impl View for CountryCodes {
    type V = Seq<(Seq<char>, Seq<char>)>;

    open spec fn view(&self) -> Seq<(Seq<char>, Seq<char>)> {
        self.entries.deep_view()
    }
}

impl CountryCodes {
    /// A table of the given `(name, code)` entries. A later entry replaces an earlier one of
    /// the same name.
    pub fn new(entries: Vec<(String, String)>) -> (table: CountryCodes)
        ensures
            table@ == entries.deep_view(),
    {
        CountryCodes { entries }
    }

    /// The code held under `name`, if any.
    pub fn get(&self, name: &str) -> (code: Option<String>)
        ensures
            code.deep_view() == code_of(self@, name@),
    {
        let mut i: usize = self.entries.len();
        assert(self@.take(i as int) =~= self@);
        while i > 0
            invariant
                i <= self.entries.len(),
                code_of(self@, name@) == code_of(self@.take(i as int), name@),
            decreases i,
        {
            i -= 1;
            proof {
                let table = self@.take(i + 1);
                assert(table.drop_last() =~= self@.take(i as int));
                assert(table.last() == self@[i as int]);
                assert(self@[i as int] == self.entries@[i as int].deep_view());
            }
            if same_text(self.entries[i].0.as_str(), name) {
                return Some(self.entries[i].1.clone());
            }
        }
        None
    }
}

} // verus!
