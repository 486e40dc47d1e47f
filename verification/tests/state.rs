use number_lexer::state::State;

const STATES: [State; 8] = [
    State::Start,
    State::Sign,
    State::WholePart,
    State::DecimalPoint,
    State::FractionalPart,
    State::Exponent,
    State::ExponentPart,
    State::Error,
];

/// The transition table, written out: the successor on a sign, a digit, the
/// decimal point and an exponent marker, in this order.
fn row(state: State) -> [State; 4] {
    match state {
        State::Start => [State::Sign, State::WholePart, State::Error, State::Error],
        State::Sign => [State::Error, State::WholePart, State::Error, State::Error],
        State::WholePart => [State::Error, State::WholePart, State::DecimalPoint, State::Exponent],
        State::DecimalPoint => [State::Error, State::FractionalPart, State::Error, State::Error],
        State::FractionalPart => {
            [State::Error, State::FractionalPart, State::Error, State::Exponent]
        }
        State::Exponent => [State::Error, State::ExponentPart, State::Error, State::Error],
        State::ExponentPart => [State::Error, State::ExponentPart, State::Error, State::Error],
        State::Error => [State::Error, State::Error, State::Error, State::Error],
    }
}

#[test]
fn state_consume_follows_the_table() {
    for state in STATES {
        let [on_sign, on_digit, on_point, on_marker] = row(state);
        assert_eq!(state.consume('+'), on_sign);
        assert_eq!(state.consume('-'), on_sign);
        for digit in '0'..='9' {
            assert_eq!(state.consume(digit), on_digit);
        }
        assert_eq!(state.consume('.'), on_point);
        assert_eq!(state.consume('e'), on_marker);
        assert_eq!(state.consume('E'), on_marker);
    }
}

#[test]
fn state_consume_is_total() {
    let mut pairs: u32 = 0;
    for state in STATES {
        for code in 0..=0x10ffff_u32 {
            if let Some(c) = char::from_u32(code) {
                let next = state.consume(c);
                let in_alphabet = matches!(c, '+' | '-' | '.' | 'e' | 'E' | '0'..='9');
                if !in_alphabet {
                    assert_eq!(next, State::Error);
                }
                pairs += 1;
            }
        }
    }
    assert_eq!(pairs, 8 * (0x110000 - 0x800));
}

#[test]
fn state_error_is_absorbing() {
    for code in 0..=0x10ffff_u32 {
        if let Some(c) = char::from_u32(code) {
            assert_eq!(State::Error.consume(c), State::Error);
        }
    }
    assert!(!State::Error.accepting());
}

#[test]
fn state_accepting_states_are_the_three_with_digits() {
    assert!(!State::Start.accepting());
    assert!(!State::Sign.accepting());
    assert!(State::WholePart.accepting());
    assert!(!State::DecimalPoint.accepting());
    assert!(State::FractionalPart.accepting());
    assert!(!State::Exponent.accepting());
    assert!(State::ExponentPart.accepting());
    assert!(!State::Error.accepting());
}

#[test]
fn state_accepting_is_entered_on_a_digit_only() {
    for state in STATES {
        for c in ['+', '-', '.', 'e', 'E', 'x', ' ', '\u{663}'] {
            assert!(!state.consume(c).accepting());
        }
    }
}

#[test]
fn state_consume_walks_a_literal() {
    let mut state = State::Start;
    let expected = [
        ('-', State::Sign),
        ('4', State::WholePart),
        ('2', State::WholePart),
        ('.', State::DecimalPoint),
        ('0', State::FractionalPart),
        ('5', State::FractionalPart),
        ('E', State::Exponent),
        ('1', State::ExponentPart),
        ('9', State::ExponentPart),
        ('+', State::Error),
        ('1', State::Error),
    ];
    for (c, next) in expected {
        state = state.consume(c);
        assert_eq!(state, next);
    }
}

#[test]
fn state_is_a_plain_value() {
    let state = State::WholePart;
    let copy = state;
    assert_eq!(state, copy);
    assert_eq!(state.clone(), State::WholePart);
    assert_ne!(state, State::FractionalPart);
    assert_eq!(format!("{:?}", State::ExponentPart), "ExponentPart");
}
