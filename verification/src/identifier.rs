//! Derived identifiers: the normalized form of a place name by which catalog entries and
//! stored features are matched.

use crate::text::{same_text, strip, without};
use vstd::prelude::*;
use vstd::string::*;

verus! {

/// The derived identifier of a place name: the name without spaces and underscores, with
/// `City` appended to the two names that would otherwise collide with a country's name.
pub open spec fn location_identifier(name: Seq<char>) -> Seq<char> {
    let bare = without(name, ' ', '_');
    if bare == "Singapore"@ || bare == "HongKong"@ {
        bare + "City"@
    } else {
        bare
    }
}

/// Computes the derived identifier of a place name.
pub fn to_location_identfier_string(from: &str) -> (identifier: String)
    ensures
        identifier@ == location_identifier(from@),
{
    let mut identifier = strip(from, ' ', '_');
    if same_text(identifier.as_str(), "Singapore") || same_text(identifier.as_str(), "HongKong") {
        identifier.append("City");
    }
    identifier
}

/// A name that holds no space and no underscore, and is neither of the two irregular names,
/// is its own identifier.
pub proof fn lemma_identifier_of_plain(name: Seq<char>)
    requires
        crate::text::free_of(name, ' ', '_'),
        name != "Singapore"@,
        name != "HongKong"@,
    ensures
        location_identifier(name) == name,
{
    crate::text::lemma_without_of_free(name, ' ', '_');
}

/// The two irregular names resolve to their suffixed identifiers, which differ from each other
/// and from the bare names.
pub proof fn lemma_irregular_identifiers()
    ensures
        location_identifier("Singapore"@) == "SingaporeCity"@,
        location_identifier("HongKong"@) == "HongKongCity"@,
        location_identifier("Hong Kong"@) == "HongKongCity"@,
        location_identifier("SingaporeCity"@) == "SingaporeCity"@,
        location_identifier("HongKongCity"@) == "HongKongCity"@,
        "SingaporeCity"@ != "HongKongCity"@,
        "SingaporeCity"@ != "Singapore"@,
        "HongKongCity"@ != "HongKong"@,
{
    reveal_strlit("Singapore");
    reveal_strlit("HongKong");
    reveal_strlit("Hong Kong");
    reveal_strlit("City");
    reveal_strlit("SingaporeCity");
    reveal_strlit("HongKongCity");
    crate::text::lemma_without_of_free("Singapore"@, ' ', '_');
    crate::text::lemma_without_of_free("HongKong"@, ' ', '_');
    crate::text::lemma_without_of_free("SingaporeCity"@, ' ', '_');
    crate::text::lemma_without_of_free("HongKongCity"@, ' ', '_');
    assert("Singapore"@ + "City"@ =~= "SingaporeCity"@);
    assert("HongKong"@ + "City"@ =~= "HongKongCity"@);
    assert("Hong Kong"@ =~= "Hong"@.push(' ') + "Kong"@) by {
        reveal_strlit("Hong");
        reveal_strlit("Kong");
    }
    assert(without("Hong Kong"@, ' ', '_') =~= "HongKong"@) by {
        reveal_strlit("Hong");
        reveal_strlit("Kong");
        reveal_with_fuel(Seq::filter, 12);
    }
}

} // verus!
