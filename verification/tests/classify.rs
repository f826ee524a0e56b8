use lox_syntax::classify::{find_keyword, is_word, operator, punctuation, scan_run, ByteClass};
use lox_syntax::lines::count_newlines;
use lox_syntax::scanner::TokenKind;

#[test]
fn byte_classes() {
    for b in 0..=255u8 {
        assert_eq!(ByteClass::Blank.contains(b), b == b' ' || b == b'\t' || b == b'\r');
        assert_eq!(ByteClass::Digit.contains(b), b.is_ascii_digit());
        assert_eq!(
            ByteClass::Letter.contains(b),
            b.is_ascii_alphabetic() || b == b'_'
        );
        assert_eq!(ByteClass::InLine.contains(b), b != b'\n');
        assert_eq!(ByteClass::Unquoted.contains(b), b != b'"');
    }
}

#[test]
fn run_ends_at_the_first_byte_outside_the_class() {
    assert_eq!(scan_run(b"123abc", ByteClass::Digit, 0), 3);
    assert_eq!(scan_run(b"123abc", ByteClass::Digit, 1), 3);
    assert_eq!(scan_run(b"123abc", ByteClass::Digit, 3), 3);
    assert_eq!(scan_run(b"123abc", ByteClass::Letter, 3), 6);
    assert_eq!(scan_run(b"123abc", ByteClass::Letter, 6), 6);
    assert_eq!(scan_run(b"ab\ncd", ByteClass::InLine, 0), 2);
    assert_eq!(scan_run(b"ab\"cd", ByteClass::Unquoted, 0), 2);
    assert_eq!(scan_run(b"", ByteClass::Blank, 0), 0);
}

#[test]
fn punctuation_table() {
    assert_eq!(punctuation('('), Some(TokenKind::LeftParen));
    assert_eq!(punctuation(')'), Some(TokenKind::RightParen));
    assert_eq!(punctuation('{'), Some(TokenKind::LeftBrace));
    assert_eq!(punctuation('}'), Some(TokenKind::RightBrace));
    assert_eq!(punctuation(','), Some(TokenKind::Comma));
    assert_eq!(punctuation('.'), Some(TokenKind::Dot));
    assert_eq!(punctuation('-'), Some(TokenKind::Minus));
    assert_eq!(punctuation('+'), Some(TokenKind::Plus));
    assert_eq!(punctuation(';'), Some(TokenKind::Semicolon));
    assert_eq!(punctuation('*'), Some(TokenKind::Star));
    assert_eq!(punctuation('/'), None);
    assert_eq!(punctuation('='), None);
    assert_eq!(punctuation('a'), None);
}

#[test]
fn operator_table() {
    assert_eq!(operator('='), Some((TokenKind::Equal, TokenKind::EqualEqual)));
    assert_eq!(operator('>'), Some((TokenKind::Greater, TokenKind::GreaterEqual)));
    assert_eq!(operator('<'), Some((TokenKind::Less, TokenKind::LessEqual)));
    assert_eq!(operator('!'), Some((TokenKind::Bang, TokenKind::BangEqual)));
    assert_eq!(operator('+'), None);
}

#[test]
fn words() {
    assert!(is_word(b"and", "and"));
    assert!(!is_word(b"an", "and"));
    assert!(!is_word(b"andy", "and"));
    assert!(!is_word(b"And", "and"));
    assert!(is_word(b"", ""));
    assert_eq!(find_keyword(b"super"), Some(TokenKind::Super));
    assert_eq!(find_keyword(b"false"), None);
    assert_eq!(find_keyword(b"SUPER"), None);
    assert_eq!(find_keyword(b""), None);
}

#[test]
fn newline_counts() {
    assert_eq!(count_newlines(b""), 0);
    assert_eq!(count_newlines(b"abc"), 0);
    assert_eq!(count_newlines(b"\n"), 1);
    assert_eq!(count_newlines(b"a\nb\r\n\nc"), 3);
}
