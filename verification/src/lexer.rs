//! The driver: runs the automaton over a whole string and asks the state in
//! which it ends.
use vstd::prelude::*;
use crate::alphabet::{in_alphabet, is_digit};
use crate::grammar::is_literal;
use crate::recognition::lemma_accepts_exactly_literals;
use crate::state::{lemma_accepted_ends_in_digit, lemma_foreign_char_ends_in_error, State};

verus! {

/// The recognizer of real-number literals.
pub struct Lexer {}

impl Lexer {
    /// The automaton, started in `Start` and run over the whole of `input`,
    /// ends in an accepting state.
    pub open spec fn recognizes(input: Seq<char>) -> bool {
        State::Start.after(input).is_accepting()
    }

    /// The state in which the automaton ends on `input`: one transition for
    /// each character, in order, from `Start`.
    pub fn final_state(input: &str) -> (state: State)
        ensures
            state == State::Start.after(input@),
    {
        let mut state = State::Start;
        assert(input@.skip(0) == input@);
        for c in it: input.chars()
            invariant
                it.seq() == input@,
                state.after(input@.skip(it.index())) == State::Start.after(input@),
        {
            proof {
                let rest = input@.skip(it.index());
                assert(rest.first() == c);
                assert(rest.drop_first() == input@.skip(it.index() + 1));
            }
            state = state.consume(c);
        }
        state
    }

    /// Decides whether the whole of `input` is a real-number literal.
    ///
    /// The answer is that of the automaton, and it is `true` exactly on the
    /// strings of the grammar. So the empty string is no literal, a literal
    /// ends in a digit, and a string with a character outside the alphabet
    /// is no literal, wherever the character stands.
    pub fn accepts(input: &str) -> (accepted: bool)
        ensures
            accepted == is_literal(input@),
            accepted == Self::recognizes(input@),
            accepted ==> input@.len() > 0 && is_digit(input@.last()),
            accepted ==> forall|i: int| 0 <= i < input@.len() ==> in_alphabet(#[trigger] input@[i]),
    {
        let state = Self::final_state(input);
        proof {
            lemma_accepts_exactly_literals(input@);
            if state.is_accepting() {
                lemma_accepted_ends_in_digit(input@);
                assert forall|i: int| 0 <= i < input@.len() implies in_alphabet(
                    #[trigger] input@[i],
                ) by {
                    if !in_alphabet(input@[i]) {
                        lemma_foreign_char_ends_in_error(State::Start, input@, i);
                    }
                }
            }
        }
        state.accepting()
    }
}

} // verus!
