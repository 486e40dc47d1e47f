//! The grammar of literals, stated on sequences of characters and without
//! the automaton:
//!
//! ```text
//! literal  ::= sign? digits ("." digits)? exponent?
//! sign     ::= "+" | "-"
//! digits   ::= digit+
//! exponent ::= ("e" | "E") digits
//! ```
//!
//! The exponent has no sign of its own: `1e+3` is no literal.
use vstd::prelude::*;
use crate::alphabet::{is_decimal_point, is_digit, is_exponent_marker, is_sign};

verus! {

/// `sign`: a single `+` or `-`.
pub open spec fn is_sign_part(s: Seq<char>) -> bool {
    s.len() == 1 && is_sign(s[0])
}

/// `digits`: one or more digits.
pub open spec fn is_digits(s: Seq<char>) -> bool {
    s.len() > 0 && forall|i: int| 0 <= i < s.len() ==> is_digit(#[trigger] s[i])
}

/// `"." digits`: a decimal point and one or more digits.
pub open spec fn is_fraction(s: Seq<char>) -> bool {
    s.len() > 0 && is_decimal_point(s.first()) && is_digits(s.drop_first())
}

/// `exponent`: an exponent marker and one or more digits.
pub open spec fn is_exponent(s: Seq<char>) -> bool {
    s.len() > 0 && is_exponent_marker(s.first()) && is_digits(s.drop_first())
}

/// `s` is a literal made of these four parts, in this order. The sign, the
/// fraction and the exponent may each be missing, that is, empty.
pub open spec fn is_literal_of(
    s: Seq<char>,
    sign: Seq<char>,
    whole: Seq<char>,
    fraction: Seq<char>,
    exponent: Seq<char>,
) -> bool {
    &&& s == sign + whole + fraction + exponent
    &&& sign.len() == 0 || is_sign_part(sign)
    &&& is_digits(whole)
    &&& fraction.len() == 0 || is_fraction(fraction)
    &&& exponent.len() == 0 || is_exponent(exponent)
}

/// `literal`: the whole of `s` is a real-number literal.
pub open spec fn is_literal(s: Seq<char>) -> bool {
    exists|sign: Seq<char>, whole: Seq<char>, fraction: Seq<char>, exponent: Seq<char>|
        is_literal_of(s, sign, whole, fraction, exponent)
}

} // verus!
