//! The input alphabet of the automaton: the character classes on which it
//! has transitions. Every other character is foreign to it.
use vstd::prelude::*;

verus! {

/// An ASCII decimal digit, `0` to `9`.
pub open spec fn spec_is_digit(c: char) -> bool {
    '0' <= c && c <= '9'
}

/// A sign, `+` or `-`.
pub open spec fn spec_is_sign(c: char) -> bool {
    c == '+' || c == '-'
}

/// The decimal point, `.`.
pub open spec fn spec_is_decimal_point(c: char) -> bool {
    c == '.'
}

/// An exponent marker, `e` or `E`.
pub open spec fn spec_is_exponent_marker(c: char) -> bool {
    c == 'e' || c == 'E'
}

/// A character that can occur in a literal at all: one of the four classes
/// above. The classes are pairwise disjoint.
pub open spec fn spec_in_alphabet(c: char) -> bool {
    is_sign(c) || is_digit(c) || is_decimal_point(c) || is_exponent_marker(c)
}

/// Tests whether `c` is a decimal digit.
#[verifier::when_used_as_spec(spec_is_digit)]
pub fn is_digit(c: char) -> (b: bool)
    ensures
        b == spec_is_digit(c),
{
    '0' <= c && c <= '9'
}

/// Tests whether `c` is a sign.
#[verifier::when_used_as_spec(spec_is_sign)]
pub fn is_sign(c: char) -> (b: bool)
    ensures
        b == spec_is_sign(c),
{
    c == '+' || c == '-'
}

/// Tests whether `c` is the decimal point.
#[verifier::when_used_as_spec(spec_is_decimal_point)]
pub fn is_decimal_point(c: char) -> (b: bool)
    ensures
        b == spec_is_decimal_point(c),
{
    c == '.'
}

/// Tests whether `c` is an exponent marker.
#[verifier::when_used_as_spec(spec_is_exponent_marker)]
pub fn is_exponent_marker(c: char) -> (b: bool)
    ensures
        b == spec_is_exponent_marker(c),
{
    c == 'e' || c == 'E'
}

/// Tests whether `c` belongs to the alphabet.
#[verifier::when_used_as_spec(spec_in_alphabet)]
pub fn in_alphabet(c: char) -> (b: bool)
    ensures
        b == spec_in_alphabet(c),
{
    is_sign(c) || is_digit(c) || is_decimal_point(c) || is_exponent_marker(c)
}

} // verus!
