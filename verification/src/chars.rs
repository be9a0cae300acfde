//! What this library takes from the standard library on trust: three operations on
//! characters that the verifier has no specification for.

use vstd::prelude::*;
use vstd::string::*;

verus! {

/// Whether a character is an uppercase letter, as Unicode defines it.
pub uninterp spec fn upper_case(c: char) -> bool;

/// Whether a character is white space, as Unicode defines it.
pub uninterp spec fn white_space(c: char) -> bool;

/// Appends one character to an owned string.
///
/// Wraps `String::push`; trusted to extend the string's character sequence by exactly `c`.
#[verifier::external_body]
pub(crate) fn push_char(s: &mut String, c: char)
    ensures
        final(s)@ == old(s)@.push(c),
{
    s.push(c)
}

/// Tells whether a character is an uppercase letter.
///
/// Wraps `char::is_uppercase`, which decides by the character's Unicode property
/// `Uppercase`; the property is taken as given, under the name `upper_case`.
#[verifier::external_body]
pub(crate) fn is_upper_case(c: char) -> (upper: bool)
    ensures
        upper == upper_case(c),
{
    c.is_uppercase()
}

/// Tells whether a character is white space.
///
/// Wraps `char::is_whitespace`, which decides by the character's Unicode property
/// `White_Space`; the property is taken as given, under the name `white_space`.
#[verifier::external_body]
pub(crate) fn is_white_space(c: char) -> (white: bool)
    ensures
        white == white_space(c),
{
    c.is_whitespace()
}

} // verus!
