//! Unicode character classification and case mapping.
//!
//! The classifications and mappings below are functions of the character
//! (or string) alone, but their tables span the whole of Unicode; each is
//! therefore given an uninterpreted name, tied to the std function that
//! computes it by one trusted wrapper. Contracts elsewhere in the crate
//! speak of these names.

use vstd::prelude::*;

verus! {

/// What `char::is_alphanumeric` returns: the Unicode Alphabetic or Number
/// classification of `c`.
pub uninterp spec fn unicode_alphanumeric(c: char) -> bool;

/// What `char::is_uppercase` returns: the Unicode Uppercase property of `c`.
pub uninterp spec fn unicode_uppercase(c: char) -> bool;

/// What `char::is_lowercase` returns: the Unicode Lowercase property of `c`.
pub uninterp spec fn unicode_lowercase(c: char) -> bool;

/// What `char::is_numeric` returns: the Unicode Number classification of `c`.
pub uninterp spec fn unicode_numeric(c: char) -> bool;

/// What `char::is_whitespace` returns: the Unicode White_Space property of `c`.
pub uninterp spec fn unicode_whitespace(c: char) -> bool;

/// The first character of `c`'s Unicode lowercase mapping.
pub uninterp spec fn lower_first(c: char) -> char;

/// The first character of `c`'s Unicode uppercase mapping.
pub uninterp spec fn upper_first(c: char) -> char;

/// The Unicode lowercase mapping of a whole string.
pub uninterp spec fn unicode_lower(s: Seq<char>) -> Seq<char>;

/// Relies on `char::is_alphanumeric`: Unicode Alphabetic-or-Number
/// classification, a function of the character alone.
#[verifier::external_body]
pub(crate) fn is_alphanumeric_char(c: char) -> (r: bool)
    ensures
        r == unicode_alphanumeric(c),
{
    c.is_alphanumeric()
}

/// Relies on `char::is_uppercase`: the Unicode Uppercase property, a
/// function of the character alone.
#[verifier::external_body]
pub(crate) fn is_uppercase_char(c: char) -> (r: bool)
    ensures
        r == unicode_uppercase(c),
{
    c.is_uppercase()
}

/// Relies on `char::is_lowercase`: the Unicode Lowercase property, a
/// function of the character alone.
#[verifier::external_body]
pub(crate) fn is_lowercase_char(c: char) -> (r: bool)
    ensures
        r == unicode_lowercase(c),
{
    c.is_lowercase()
}

/// Relies on `char::is_numeric`: the Unicode Number classification, a
/// function of the character alone.
#[verifier::external_body]
pub(crate) fn is_numeric_char(c: char) -> (r: bool)
    ensures
        r == unicode_numeric(c),
{
    c.is_numeric()
}

/// Relies on `char::is_whitespace`: the Unicode White_Space property, a
/// function of the character alone.
#[verifier::external_body]
pub(crate) fn is_whitespace_char(c: char) -> (r: bool)
    ensures
        r == unicode_whitespace(c),
{
    c.is_whitespace()
}

/// Relies on `char::to_lowercase`: its iterator yields at least one
/// character, and the mapping depends on the character alone. Returns the
/// first character of the mapping.
#[verifier::external_body]
pub(crate) fn lower_first_char(c: char) -> (r: char)
    ensures
        r == lower_first(c),
{
    c.to_lowercase().next().unwrap()
}

/// Relies on `char::to_uppercase`: its iterator yields at least one
/// character, and the mapping depends on the character alone. Returns the
/// first character of the mapping.
#[verifier::external_body]
pub(crate) fn upper_first_char(c: char) -> (r: char)
    ensures
        r == upper_first(c),
{
    c.to_uppercase().next().unwrap()
}

/// Relies on `str::to_lowercase`: the result depends on the characters
/// alone.
#[verifier::external_body]
pub(crate) fn to_lowercase_str(s: &str) -> (r: String)
    ensures
        r@ == unicode_lower(s@),
{
    s.to_lowercase()
}

} // verus!
