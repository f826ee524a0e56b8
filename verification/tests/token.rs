use lox_syntax::scanner::{Token, TokenKind};

#[test]
fn token_keeps_its_parts() {
    let token = Token::new(TokenKind::Number, "12.5".into(), "12.5".into(), 4);
    assert_eq!(token.kind(), TokenKind::Number);
    assert_eq!(token.lexeme(), "12.5");
    assert_eq!(token.literal(), "12.5");
    assert_eq!(token.line(), 4);
}

#[test]
fn token_display_with_empty_literal() {
    let token = Token::new(TokenKind::Minus, "-".into(), "".into(), 1);
    assert_eq!(token.to_string(), "Minus `-` ");
}

#[test]
fn token_display_with_literal() {
    let token = Token::new(TokenKind::String, "\"hi\"".into(), "hi".into(), 1);
    assert_eq!(token.to_string(), "String `\"hi\"` hi");
}

#[test]
fn kind_names() {
    let cases: [(TokenKind, &str); 41] = [
        (TokenKind::LeftParen, "LeftParen"),
        (TokenKind::RightParen, "RightParen"),
        (TokenKind::LeftBrace, "LeftBrace"),
        (TokenKind::RightBrace, "RightBrace"),
        (TokenKind::Comma, "Comma"),
        (TokenKind::Dot, "Dot"),
        (TokenKind::Minus, "Minus"),
        (TokenKind::Plus, "Plus"),
        (TokenKind::Semicolon, "Semicolon"),
        (TokenKind::Slash, "Slash"),
        (TokenKind::Star, "Star"),
        (TokenKind::Bang, "Bang"),
        (TokenKind::BangEqual, "BangEqual"),
        (TokenKind::Equal, "Equal"),
        (TokenKind::EqualEqual, "EqualEqual"),
        (TokenKind::Greater, "Greater"),
        (TokenKind::GreaterEqual, "GreaterEqual"),
        (TokenKind::Less, "Less"),
        (TokenKind::LessEqual, "LessEqual"),
        (TokenKind::Identifier, "Identifier"),
        (TokenKind::String, "String"),
        (TokenKind::Number, "Number"),
        (TokenKind::And, "And"),
        (TokenKind::Class, "Class"),
        (TokenKind::Else, "Else"),
        (TokenKind::False, "False"),
        (TokenKind::Func, "Func"),
        (TokenKind::For, "For"),
        (TokenKind::If, "If"),
        (TokenKind::Nil, "Nil"),
        (TokenKind::Or, "Or"),
        (TokenKind::Print, "Print"),
        (TokenKind::Return, "Return"),
        (TokenKind::Super, "Super"),
        (TokenKind::This, "This"),
        (TokenKind::True, "True"),
        (TokenKind::Var, "Var"),
        (TokenKind::While, "While"),
        (TokenKind::Comment, "Comment"),
        (TokenKind::NewLine, "NewLine"),
        (TokenKind::WhiteSpace, "WhiteSpace"),
    ];
    for (kind, name) in cases {
        assert_eq!(kind.as_str(), name);
        assert_eq!(kind.to_string(), name);
    }
}

#[test]
fn comma_is_shown_under_its_name() {
    assert_eq!(TokenKind::Comma.to_string(), "Comma");
    let token = Token::new(TokenKind::Comma, ",".into(), "".into(), 1);
    assert_eq!(token.to_string(), "Comma `,` ");
}
