//! The automaton recognizes the grammar, and nothing else.
//!
//! Each state but `Error` stands for a shape of the input consumed so far,
//! given by [`has_consumed`]. The automaton, started in `Start`, is in a
//! state exactly when the input so far has that state's shape, and in `Error`
//! exactly when it has none of the shapes. The three accepting states are
//! those whose shape is a whole literal.
use vstd::prelude::*;
use crate::alphabet::{in_alphabet, is_decimal_point, is_digit, is_exponent_marker};
use crate::grammar::{is_digits, is_exponent, is_fraction, is_literal, is_literal_of, is_sign_part};
use crate::state::{
    lemma_after_concat, lemma_after_one, lemma_after_push, lemma_foreign_char_ends_in_error, State,
};

verus! {

/// The shape of the input that leads from `Start` to `state`: the four parts
/// of a literal, each as far as it has been consumed. No input has the shape
/// of `Error`.
pub open spec fn has_consumed(
    state: State,
    sign: Seq<char>,
    whole: Seq<char>,
    fraction: Seq<char>,
    exponent: Seq<char>,
) -> bool {
    let signed = sign.len() == 0 || is_sign_part(sign);
    let fractioned = fraction.len() == 0 || is_fraction(fraction);
    match state {
        State::Start => {
            &&& sign.len() == 0
            &&& whole.len() == 0
            &&& fraction.len() == 0
            &&& exponent.len() == 0
        },
        State::Sign => {
            &&& is_sign_part(sign)
            &&& whole.len() == 0
            &&& fraction.len() == 0
            &&& exponent.len() == 0
        },
        State::WholePart => {
            &&& signed
            &&& is_digits(whole)
            &&& fraction.len() == 0
            &&& exponent.len() == 0
        },
        State::DecimalPoint => {
            &&& signed
            &&& is_digits(whole)
            &&& fraction.len() == 1
            &&& is_decimal_point(fraction[0])
            &&& exponent.len() == 0
        },
        State::FractionalPart => {
            &&& signed
            &&& is_digits(whole)
            &&& is_fraction(fraction)
            &&& exponent.len() == 0
        },
        State::Exponent => {
            &&& signed
            &&& is_digits(whole)
            &&& fractioned
            &&& exponent.len() == 1
            &&& is_exponent_marker(exponent[0])
        },
        State::ExponentPart => {
            &&& signed
            &&& is_digits(whole)
            &&& fractioned
            &&& is_exponent(exponent)
        },
        State::Error => false,
    }
}

/// `input` has the shape of `state`, for some way of cutting it in four.
pub open spec fn leads_to(input: Seq<char>, state: State) -> bool {
    exists|sign: Seq<char>, whole: Seq<char>, fraction: Seq<char>, exponent: Seq<char>|
        input == sign + whole + fraction + exponent && #[trigger] has_consumed(
            state,
            sign,
            whole,
            fraction,
            exponent,
        )
}

/// Digits stay digits when one more digit follows.
proof fn lemma_digits_push(s: Seq<char>, c: char)
    requires
        s.len() == 0 || is_digits(s),
        is_digit(c),
    ensures
        is_digits(s.push(c)),
{
    assert forall|i: int| 0 <= i < s.push(c).len() implies is_digit(#[trigger] s.push(c)[i]) by {
        if i < s.len() {
            assert(s.push(c)[i] == s[i]);
        }
    }
}

/// What follows a marker stays digits when one more digit follows.
proof fn lemma_marked_digits_push(s: Seq<char>, c: char)
    requires
        s.len() > 0,
        s.len() == 1 || is_digits(s.drop_first()),
        is_digit(c),
    ensures
        s.push(c).first() == s.first(),
        is_digits(s.push(c).drop_first()),
{
    assert(s.push(c).drop_first() == s.drop_first().push(c));
    lemma_digits_push(s.drop_first(), c);
}

/// One or more digits lead where a single digit leads.
proof fn lemma_after_digits(state: State, s: Seq<char>)
    requires
        is_digits(s),
    ensures
        state.after(s) == state.transition('0'),
    decreases s.len(),
{
    let next = state.transition(s.first());
    assert(is_digit(s[0]));
    assert(next == state.transition('0'));
    if s.len() > 1 {
        let rest = s.drop_first();
        assert forall|i: int| 0 <= i < rest.len() implies is_digit(#[trigger] rest[i]) by {
            assert(rest[i] == s[i + 1]);
        }
        lemma_after_digits(next, rest);
    } else {
        assert(s.drop_first().len() == 0);
        assert(next.after(s.drop_first()) == next);
    }
}

/// A marker and its digits lead where the marker and a single digit lead.
proof fn lemma_after_marked_digits(state: State, s: Seq<char>)
    requires
        s.len() > 0,
        is_digits(s.drop_first()),
    ensures
        state.after(s) == state.transition(s.first()).transition('0'),
{
    lemma_after_digits(state.transition(s.first()), s.drop_first());
}

/// Whatever leads to a state has that state's shape: the parts of the input
/// consumed so far, unless the state is `Error`.
pub proof fn lemma_state_has_consumed(input: Seq<char>) -> (parts: (
    Seq<char>,
    Seq<char>,
    Seq<char>,
    Seq<char>,
))
    ensures
        State::Start.after(input) !is Error ==> {
            &&& input == parts.0 + parts.1 + parts.2 + parts.3
            &&& has_consumed(State::Start.after(input), parts.0, parts.1, parts.2, parts.3)
        },
    decreases input.len(),
{
    let empty = Seq::<char>::empty();
    if input.len() == 0 {
        assert(input == empty + empty + empty + empty);
        (empty, empty, empty, empty)
    } else {
        let before = input.drop_last();
        let c = input.last();
        assert(input == before.push(c));
        lemma_after_push(State::Start, before, c);
        let (sign, whole, fraction, exponent) = lemma_state_has_consumed(before);
        let state = State::Start.after(input);
        match state {
            State::Sign => {
                assert(input == sign.push(c) + whole + fraction + exponent);
                (sign.push(c), whole, fraction, exponent)
            },
            State::WholePart => {
                lemma_digits_push(whole, c);
                assert(input == sign + whole.push(c) + fraction + exponent);
                (sign, whole.push(c), fraction, exponent)
            },
            State::DecimalPoint => {
                assert(input == sign + whole + fraction.push(c) + exponent);
                (sign, whole, fraction.push(c), exponent)
            },
            State::FractionalPart => {
                lemma_marked_digits_push(fraction, c);
                assert(input == sign + whole + fraction.push(c) + exponent);
                (sign, whole, fraction.push(c), exponent)
            },
            State::Exponent => {
                assert(input == sign + whole + fraction + exponent.push(c));
                (sign, whole, fraction, exponent.push(c))
            },
            State::ExponentPart => {
                lemma_marked_digits_push(exponent, c);
                assert(input == sign + whole + fraction + exponent.push(c));
                (sign, whole, fraction, exponent.push(c))
            },
            _ => (sign, whole, fraction, exponent),
        }
    }
}

/// Whatever has a state's shape leads to that state.
pub proof fn lemma_consumed_leads_to_state(
    state: State,
    sign: Seq<char>,
    whole: Seq<char>,
    fraction: Seq<char>,
    exponent: Seq<char>,
)
    requires
        has_consumed(state, sign, whole, fraction, exponent),
    ensures
        State::Start.after(sign + whole + fraction + exponent) == state,
{
    let start = State::Start;
    lemma_after_concat(start, sign + whole + fraction, exponent);
    lemma_after_concat(start, sign + whole, fraction);
    lemma_after_concat(start, sign, whole);
    let after_sign = start.after(sign);
    let after_whole = after_sign.after(whole);
    let after_fraction = after_whole.after(fraction);
    if sign.len() > 0 {
        assert(sign == seq![sign[0]]);
        lemma_after_one(start, sign[0]);
    }
    if whole.len() > 0 {
        lemma_after_digits(after_sign, whole);
    }
    if fraction.len() == 1 {
        assert(fraction == seq![fraction[0]]);
        lemma_after_one(after_whole, fraction[0]);
    } else if fraction.len() > 1 {
        lemma_after_marked_digits(after_whole, fraction);
    }
    if exponent.len() == 1 {
        assert(exponent == seq![exponent[0]]);
        lemma_after_one(after_fraction, exponent[0]);
    } else if exponent.len() > 1 {
        lemma_after_marked_digits(after_fraction, exponent);
    }
}

/// The meaning of the states: the automaton is in a state other than `Error`
/// exactly when the input so far has that state's shape, and in `Error`
/// exactly when it has the shape of no state.
pub proof fn lemma_state_meaning(input: Seq<char>, state: State)
    ensures
        state !is Error ==> (State::Start.after(input) == state <==> leads_to(input, state)),
        State::Start.after(input) is Error <==> forall|other: State| !leads_to(input, other),
{
    let reached = State::Start.after(input);
    let parts = lemma_state_has_consumed(input);
    if reached !is Error {
        assert(has_consumed(reached, parts.0, parts.1, parts.2, parts.3));
        assert(leads_to(input, reached));
    }
    assert forall|other: State| leads_to(input, other) implies reached == other by {
        let (sign, whole, fraction, exponent) = choose|
            sign: Seq<char>,
            whole: Seq<char>,
            fraction: Seq<char>,
            exponent: Seq<char>,
        |
            input == sign + whole + fraction + exponent && #[trigger] has_consumed(
                other,
                sign,
                whole,
                fraction,
                exponent,
            );
        lemma_consumed_leads_to_state(other, sign, whole, fraction, exponent);
    }
    if reached is Error {
        assert forall|other: State| !leads_to(input, other) by {
            if leads_to(input, other) {
                assert(reached == other);
                assert(!leads_to(input, State::Error));
            }
        }
    }
}

/// The shape of an accepting state is that of a whole literal.
pub proof fn lemma_accepting_shape_is_literal(
    state: State,
    sign: Seq<char>,
    whole: Seq<char>,
    fraction: Seq<char>,
    exponent: Seq<char>,
)
    requires
        state.is_accepting(),
        has_consumed(state, sign, whole, fraction, exponent),
    ensures
        is_literal_of(sign + whole + fraction + exponent, sign, whole, fraction, exponent),
{
}

/// A whole literal has the shape of an accepting state: that of its last
/// part.
pub proof fn lemma_literal_has_accepting_shape(
    s: Seq<char>,
    sign: Seq<char>,
    whole: Seq<char>,
    fraction: Seq<char>,
    exponent: Seq<char>,
) -> (state: State)
    requires
        is_literal_of(s, sign, whole, fraction, exponent),
    ensures
        state.is_accepting(),
        has_consumed(state, sign, whole, fraction, exponent),
{
    if exponent.len() > 0 {
        State::ExponentPart
    } else if fraction.len() > 0 {
        State::FractionalPart
    } else {
        State::WholePart
    }
}

/// The automaton accepts a sequence exactly when it is a literal.
pub proof fn lemma_accepts_exactly_literals(input: Seq<char>)
    ensures
        State::Start.after(input).is_accepting() <==> is_literal(input),
{
    let reached = State::Start.after(input);
    if reached.is_accepting() {
        let (sign, whole, fraction, exponent) = lemma_state_has_consumed(input);
        lemma_accepting_shape_is_literal(reached, sign, whole, fraction, exponent);
        assert(is_literal_of(input, sign, whole, fraction, exponent));
    }
    if is_literal(input) {
        let (sign, whole, fraction, exponent) = choose|
            sign: Seq<char>,
            whole: Seq<char>,
            fraction: Seq<char>,
            exponent: Seq<char>,
        | is_literal_of(input, sign, whole, fraction, exponent);
        let accepting = lemma_literal_has_accepting_shape(input, sign, whole, fraction, exponent);
        lemma_consumed_leads_to_state(accepting, sign, whole, fraction, exponent);
    }
}

/// A string with a character outside the alphabet is no literal, whatever
/// the rest of it is.
pub proof fn lemma_foreign_char_is_in_no_literal(input: Seq<char>, i: int)
    requires
        0 <= i < input.len(),
        !in_alphabet(input[i]),
    ensures
        !is_literal(input),
{
    lemma_foreign_char_ends_in_error(State::Start, input, i);
    lemma_accepts_exactly_literals(input);
}

/// A match is of the whole input and not of a prefix: every literal has a
/// continuation, here `rest`, with which it is a literal no more.
pub proof fn lemma_whole_match_only(literal: Seq<char>) -> (rest: Seq<char>)
    requires
        is_literal(literal),
    ensures
        rest.len() > 0,
        !is_literal(literal + rest),
{
    let rest = seq!['x'];
    assert(!in_alphabet(rest[0]));
    assert((literal + rest)[literal.len() as int] == rest[0]);
    lemma_foreign_char_is_in_no_literal(literal + rest, literal.len() as int);
    rest
}

} // verus!
