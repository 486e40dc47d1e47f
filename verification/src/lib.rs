//! A recognizer for real-number literals.
//!
//! A literal is an optional sign, one or more digits, an optional fractional
//! part (a decimal point and one or more digits) and an optional exponent part
//! (`e` or `E` and one or more digits). The recognizer is a deterministic
//! finite automaton; [`lexer::Lexer::accepts`] runs it over a whole string and
//! is proved to answer `true` exactly on the strings of that grammar.
pub mod alphabet;
pub mod grammar;
pub mod lexer;
pub mod recognition;
pub mod state;
