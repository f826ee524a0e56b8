use lox_syntax::error::{LoxError, LoxErrorType};
use lox_syntax::text::push_decimal;

#[test]
fn unexpected_character_message() {
    let kind = LoxErrorType::UnexpectedCharacter('@');
    assert_eq!(kind.to_string(), "Unexpected character `@`.");
}

#[test]
fn unexpected_character_message_shows_non_ascii() {
    let kind = LoxErrorType::UnexpectedCharacter('\u{e9}');
    assert_eq!(kind.to_string(), "Unexpected character `\u{e9}`.");
}

#[test]
fn unterminated_string_message() {
    let kind = LoxErrorType::UnterminatedString;
    assert_eq!(kind.to_string(), "String was not terminated.");
}

#[test]
fn error_keeps_line_and_kind() {
    let error = LoxError::new(7, LoxErrorType::UnterminatedString);
    assert_eq!(error.line(), 7);
    assert_eq!(error.kind(), LoxErrorType::UnterminatedString);
}

#[test]
fn diagnostic_for_unexpected_character() {
    let error = LoxError::new(3, LoxErrorType::UnexpectedCharacter('#'));
    assert_eq!(error.to_string(), "[line 3] Error: Unexpected character `#`.");
}

#[test]
fn diagnostic_for_unterminated_string() {
    let error = LoxError::new(12, LoxErrorType::UnterminatedString);
    assert_eq!(error.to_string(), "[line 12] Error: String was not terminated.");
}

#[test]
fn diagnostic_line_extremes() {
    let first = LoxError::new(0, LoxErrorType::UnterminatedString);
    assert_eq!(first.to_string(), "[line 0] Error: String was not terminated.");
    let last = LoxError::new(u32::MAX, LoxErrorType::UnterminatedString);
    assert_eq!(
        last.to_string(),
        "[line 4294967295] Error: String was not terminated."
    );
}

#[test]
fn decimal_numerals() {
    let cases: [(u32, &str); 8] = [
        (0, "0"),
        (7, "7"),
        (9, "9"),
        (10, "10"),
        (99, "99"),
        (100, "100"),
        (12345, "12345"),
        (4294967295, "4294967295"),
    ];
    for (n, numeral) in cases {
        let mut out = String::new();
        push_decimal(&mut out, n);
        assert_eq!(out, numeral);
    }
}

#[test]
fn decimal_is_appended() {
    let mut out = String::from("line ");
    push_decimal(&mut out, 42);
    assert_eq!(out, "line 42");
}

#[test]
fn decimal_agrees_with_std() {
    let mut n: u32 = 1;
    for _ in 0..40 {
        let mut out = String::new();
        push_decimal(&mut out, n);
        assert_eq!(out, format!("{}", n));
        n = n.wrapping_mul(7).wrapping_add(3);
    }
}
