//! Character classes of the language.

use vstd::prelude::*;

verus! {

/// An ASCII decimal digit, `0` to `9`.
pub open spec fn is_decimal_digit(c: char) -> bool {
    '0' <= c && c <= '9'
}

/// Whether `c` has the Unicode `Alphabetic` property, as `char::is_alphabetic`
/// of the standard library decides it.
pub uninterp spec fn alphabetic(c: char) -> bool;

/// Whether `c` is alphabetic or numeric in the sense of Unicode, as
/// `char::is_alphanumeric` of the standard library decides it.
pub uninterp spec fn alphanumeric(c: char) -> bool;

/// Space, carriage return or tab: separates tokens and is otherwise ignored.
pub open spec fn is_blank(c: char) -> bool {
    c == ' ' || c == '\r' || c == '\t'
}

/// Whether `c` is an ASCII decimal digit.
pub fn is_digit(c: char) -> (digit: bool)
    ensures
        digit == is_decimal_digit(c),
{
    '0' <= c && c <= '9'
}

/// Calls `char::is_alphabetic`. Not verified: the Unicode tables behind that
/// function are outside this library, so its answer is only given the name
/// [`alphabetic`].
#[verifier::external_body]
pub(crate) fn is_alphabetic(c: char) -> (answer: bool)
    ensures
        answer == alphabetic(c),
{
    c.is_alphabetic()
}

/// Calls `char::is_alphanumeric`. Not verified: the Unicode tables behind that
/// function are outside this library, so its answer is only given the name
/// [`alphanumeric`].
#[verifier::external_body]
pub(crate) fn is_alphanumeric(c: char) -> (answer: bool)
    ensures
        answer == alphanumeric(c),
{
    c.is_alphanumeric()
}

} // verus!
