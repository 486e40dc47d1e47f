use number_lexer::lexer::Lexer;
use number_lexer::state::State;

fn assert_accepts(input: &str) {
    assert!(Lexer::accepts(input));
}

fn assert_rejects(input: &str) {
    assert!(!Lexer::accepts(input));
}

#[test]
fn lexer_accepts_floating_point_numbers() {
    assert_accepts("+1");
    assert_accepts("1392480");
    assert_accepts("3.14");
    assert_accepts("-1");
    assert_accepts("-2230498.0940258340985");
}

#[test]
fn lexer_accepts_scientific_notation() {
    assert_accepts("1E10");
    assert_accepts("3.14e2");
}

#[test]
fn lexer_rejects_misplaced_e() {
    assert_rejects("e");
    assert_rejects("1e");
    assert_rejects("e1");
}

#[test]
fn lexer_rejects_misplaced_sign() {
    assert_rejects("-");
    assert_rejects("1-");
    assert_rejects("+");
    assert_rejects("1+3");
    assert_rejects("1e+3");
}

#[test]
fn lexer_rejects_misplaced_decimal_point() {
    assert_rejects(".");
    assert_rejects("1.");
    assert_rejects(".1");
    assert_rejects("0.0.1");
    assert_rejects("3.e4");
    assert_rejects("3e.1");
}

#[test]
fn lexer_rejects_invalid_characters() {
    assert_rejects("a");
    assert_rejects("3.a4");
}

#[test]
fn lexer_rejects_empty_input() {
    assert_rejects("");
    assert_eq!(Lexer::final_state(""), State::Start);
}

#[test]
fn lexer_rejects_sign_without_digits() {
    assert_rejects("+");
    assert_rejects("-");
    assert_eq!(Lexer::final_state("+"), State::Sign);
    assert_eq!(Lexer::final_state("-"), State::Sign);
    assert_rejects("+-1");
    assert_rejects("--1");
    assert_rejects("+.5");
    assert_rejects("-e5");
}

#[test]
fn lexer_matches_whole_input_only() {
    assert_accepts("1e10");
    assert_rejects("1e10x");
    assert_rejects("1e10 ");
    assert_rejects(" 1e10");
    assert_rejects("3.14\n");
    assert_rejects("1,5");
}

#[test]
fn lexer_rejects_sign_in_exponent() {
    assert_rejects("1e+3");
    assert_rejects("1e-3");
    assert_rejects("1E+3");
    assert_rejects("3.14e-2");
    assert_accepts("1e3");
    assert_accepts("1E3");
}

#[test]
fn lexer_rejects_second_exponent_and_late_fraction() {
    assert_rejects("1e2e3");
    assert_rejects("1e2.5");
    assert_rejects("1e2E3");
    assert_rejects("1.2.3");
    assert_rejects("1..2");
    assert_rejects("1ee2");
}

#[test]
fn lexer_accepts_every_shape_of_literal() {
    assert_accepts("0");
    assert_accepts("007");
    assert_accepts("+0.0");
    assert_accepts("-12e34");
    assert_accepts("+12.34E56");
    assert_accepts("9.9e9");
    assert_accepts("00000000000000000000000000000000000000000000000000");
}

#[test]
fn lexer_rejects_characters_outside_the_alphabet_anywhere() {
    let literal = "-12.5e7";
    assert_accepts(literal);
    let count = literal.chars().count();
    for foreign in ['x', ' ', '_', ',', '/', ':', 'f', 'd', '\u{0}', '\u{e9}', '\u{663}', '\u{ff11}'] {
        for at in 0..=count {
            let mut spoiled = String::new();
            for (i, c) in literal.chars().enumerate() {
                if i == at {
                    spoiled.push(foreign);
                }
                spoiled.push(c);
            }
            if at == count {
                spoiled.push(foreign);
            }
            assert!(!Lexer::accepts(&spoiled), "{:?}", spoiled);
            assert_eq!(Lexer::final_state(&spoiled), State::Error);
        }
    }
}

#[test]
fn lexer_rejects_digits_that_are_not_ascii() {
    assert_rejects("\u{661}\u{662}");
    assert_rejects("\u{ff11}");
    assert_rejects("1\u{b2}");
    assert_rejects("\u{2212}1");
}

#[test]
fn lexer_ends_in_the_state_of_the_last_part() {
    assert_eq!(Lexer::final_state("7"), State::WholePart);
    assert_eq!(Lexer::final_state("-7"), State::WholePart);
    assert_eq!(Lexer::final_state("7."), State::DecimalPoint);
    assert_eq!(Lexer::final_state("7.25"), State::FractionalPart);
    assert_eq!(Lexer::final_state("7e"), State::Exponent);
    assert_eq!(Lexer::final_state("7.25E"), State::Exponent);
    assert_eq!(Lexer::final_state("7.25E2"), State::ExponentPart);
    assert_eq!(Lexer::final_state("7e10"), State::ExponentPart);
    assert_eq!(Lexer::final_state("0.0.1"), State::Error);
    assert_eq!(Lexer::final_state("7e+"), State::Error);
    assert_eq!(Lexer::final_state(".7"), State::Error);
}

#[test]
fn lexer_answers_as_the_final_state_does() {
    for input in ["", "+", "1", "1.", "1.5", "1e", "1e5", "1.5e5", "x", "1x", "+1", "-.1"] {
        assert_eq!(Lexer::accepts(input), Lexer::final_state(input).accepting());
    }
}

#[test]
fn lexer_accepted_input_ends_in_a_digit() {
    for input in ["1", "+1", "1.5", "1e5", "-1.5E55"] {
        assert_accepts(input);
        assert!(input.chars().last().unwrap().is_ascii_digit());
        let mut longer = String::from(input);
        longer.push('.');
        assert_rejects(&longer);
    }
}
