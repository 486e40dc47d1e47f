//! The states of the automaton and its transition function.
use vstd::prelude::*;
use crate::alphabet::{in_alphabet, is_decimal_point, is_digit, is_exponent_marker, is_sign};

verus! {

/// Where the recognizer stands in the grammar after the characters consumed
/// so far.
#[derive(Clone, Copy, Debug, PartialEq, Eq, Structural)]
pub enum State {
    /// Nothing consumed yet.
    Start,
    /// A leading sign consumed, no digit yet.
    Sign,
    /// At least one digit of the integer part consumed.
    WholePart,
    /// The decimal point consumed right after the integer part, no
    /// fractional digit yet.
    DecimalPoint,
    /// At least one digit consumed after the decimal point.
    FractionalPart,
    /// The exponent marker consumed, no exponent digit yet.
    Exponent,
    /// At least one digit consumed after the exponent marker.
    ExponentPart,
    /// A character was seen that the grammar does not allow at its place.
    Error,
}

impl State {
    /// The successor of `self` on `c`. Every pair of a state and a character
    /// has one; where the grammar has no use for `c`, it is `Error`.
    pub open spec fn transition(self, c: char) -> State {
        match self {
            State::Start => if is_sign(c) {
                State::Sign
            } else if is_digit(c) {
                State::WholePart
            } else {
                State::Error
            },
            State::Sign => if is_digit(c) {
                State::WholePart
            } else {
                State::Error
            },
            State::WholePart => if is_digit(c) {
                State::WholePart
            } else if is_decimal_point(c) {
                State::DecimalPoint
            } else if is_exponent_marker(c) {
                State::Exponent
            } else {
                State::Error
            },
            State::DecimalPoint => if is_digit(c) {
                State::FractionalPart
            } else {
                State::Error
            },
            State::FractionalPart => if is_digit(c) {
                State::FractionalPart
            } else if is_exponent_marker(c) {
                State::Exponent
            } else {
                State::Error
            },
            State::Exponent => if is_digit(c) {
                State::ExponentPart
            } else {
                State::Error
            },
            State::ExponentPart => if is_digit(c) {
                State::ExponentPart
            } else {
                State::Error
            },
            State::Error => State::Error,
        }
    }

    /// Whether input that ends in this state is a literal.
    pub open spec fn is_accepting(self) -> bool {
        self is WholePart || self is FractionalPart || self is ExponentPart
    }

    /// The state reached from `self` by consuming `input` from left to right.
    pub open spec fn after(self, input: Seq<char>) -> State
        decreases input.len(),
    {
        if input.len() == 0 {
            self
        } else {
            self.transition(input.first()).after(input.drop_first())
        }
    }

    /// Consumes one character. Every state has a successor on every
    /// character; a character outside the alphabet leads to `Error`, and
    /// `Error` is never left.
    pub fn consume(self, c: char) -> (next: State)
        ensures
            next == self.transition(c),
            !in_alphabet(c) ==> next is Error,
            self is Error ==> next is Error,
    {
        match self {
            State::Start => Self::from_start(c),
            State::Sign => Self::from_sign(c),
            State::WholePart => Self::from_whole_part(c),
            State::DecimalPoint => Self::from_decimal_point(c),
            State::FractionalPart => Self::from_fractional_part(c),
            State::Exponent => Self::from_exponent(c),
            State::ExponentPart => Self::from_exponent_part(c),
            State::Error => State::Error,
        }
    }

    /// Tells whether input may end here.
    pub fn accepting(&self) -> (b: bool)
        ensures
            b == self.is_accepting(),
    {
        match self {
            State::WholePart | State::FractionalPart | State::ExponentPart => true,
            _ => false,
        }
    }

    fn from_start(c: char) -> (next: State)
        ensures
            next == State::Start.transition(c),
    {
        if is_sign(c) {
            State::Sign
        } else if is_digit(c) {
            State::WholePart
        } else {
            State::Error
        }
    }

    fn from_sign(c: char) -> (next: State)
        ensures
            next == State::Sign.transition(c),
    {
        if is_digit(c) {
            State::WholePart
        } else {
            State::Error
        }
    }

    fn from_whole_part(c: char) -> (next: State)
        ensures
            next == State::WholePart.transition(c),
    {
        if is_digit(c) {
            State::WholePart
        } else if is_decimal_point(c) {
            State::DecimalPoint
        } else if is_exponent_marker(c) {
            State::Exponent
        } else {
            State::Error
        }
    }

    fn from_decimal_point(c: char) -> (next: State)
        ensures
            next == State::DecimalPoint.transition(c),
    {
        if is_digit(c) {
            State::FractionalPart
        } else {
            State::Error
        }
    }

    fn from_fractional_part(c: char) -> (next: State)
        ensures
            next == State::FractionalPart.transition(c),
    {
        if is_digit(c) {
            State::FractionalPart
        } else if is_exponent_marker(c) {
            State::Exponent
        } else {
            State::Error
        }
    }

    fn from_exponent(c: char) -> (next: State)
        ensures
            next == State::Exponent.transition(c),
    {
        if is_digit(c) {
            State::ExponentPart
        } else {
            State::Error
        }
    }

    fn from_exponent_part(c: char) -> (next: State)
        ensures
            next == State::ExponentPart.transition(c),
    {
        if is_digit(c) {
            State::ExponentPart
        } else {
            State::Error
        }
    }
}

/// `Error` is absorbing: no character leads out of it.
pub proof fn lemma_error_is_absorbing(c: char)
    ensures
        State::Error.transition(c) == State::Error,
{
}

/// No input leads out of `Error`.
pub proof fn lemma_error_is_never_left(input: Seq<char>)
    ensures
        State::Error.after(input) == State::Error,
    decreases input.len(),
{
    if input.len() > 0 {
        lemma_error_is_absorbing(input.first());
        lemma_error_is_never_left(input.drop_first());
    }
}

/// A character outside the alphabet leads to `Error` from every state.
pub proof fn lemma_foreign_char_leads_to_error(state: State, c: char)
    requires
        !in_alphabet(c),
    ensures
        state.transition(c) == State::Error,
{
}

/// Consuming `front + back` is consuming `front`, then `back`.
pub proof fn lemma_after_concat(state: State, front: Seq<char>, back: Seq<char>)
    ensures
        state.after(front + back) == state.after(front).after(back),
    decreases front.len(),
{
    if front.len() == 0 {
        assert(front + back == back);
    } else {
        assert((front + back).first() == front.first());
        assert((front + back).drop_first() == front.drop_first() + back);
        lemma_after_concat(state.transition(front.first()), front.drop_first(), back);
    }
}

/// Consuming a single character is one transition.
pub proof fn lemma_after_one(state: State, c: char)
    ensures
        state.after(seq![c]) == state.transition(c),
{
    assert(seq![c].first() == c);
    assert(seq![c].drop_first().len() == 0);
    reveal_with_fuel(State::after, 2);
}

/// The state after one more character is the successor of the state before
/// it: the automaton never looks back.
pub proof fn lemma_after_push(state: State, input: Seq<char>, c: char)
    ensures
        state.after(input.push(c)) == state.after(input).transition(c),
{
    assert(input.push(c) == input + seq![c]);
    lemma_after_concat(state, input, seq![c]);
    lemma_after_one(state.after(input), c);
}

/// One foreign character anywhere in the input leads to `Error` for good,
/// whatever stands before and after it.
pub proof fn lemma_foreign_char_ends_in_error(state: State, input: Seq<char>, i: int)
    requires
        0 <= i < input.len(),
        !in_alphabet(input[i]),
    ensures
        state.after(input) == State::Error,
{
    let before = input.take(i);
    let behind = input.skip(i + 1);
    assert(input == before.push(input[i]) + behind);
    lemma_after_concat(state, before.push(input[i]), behind);
    lemma_after_push(state, before, input[i]);
    lemma_foreign_char_leads_to_error(state.after(before), input[i]);
    lemma_error_is_never_left(behind);
}

/// An accepting state is entered on a digit only.
pub proof fn lemma_accepting_is_entered_on_digit(state: State, c: char)
    requires
        state.transition(c).is_accepting(),
    ensures
        is_digit(c),
{
}

/// Input that ends in an accepting state is not empty and ends in a digit: a
/// bare sign, decimal point or exponent marker is never enough.
pub proof fn lemma_accepted_ends_in_digit(input: Seq<char>)
    requires
        State::Start.after(input).is_accepting(),
    ensures
        input.len() > 0,
        is_digit(input.last()),
{
    if input.len() > 0 {
        assert(input == input.drop_last().push(input.last()));
        lemma_after_push(State::Start, input.drop_last(), input.last());
        lemma_accepting_is_entered_on_digit(State::Start.after(input.drop_last()), input.last());
    }
}

} // verus!
