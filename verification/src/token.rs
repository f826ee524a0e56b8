//! Tokens: the closed set of kinds, and the unit that the scanner yields.

use vstd::prelude::*;
use vstd::string::*;

verus! {

/// The category of a lexeme.
#[derive(Debug, Clone, Copy, PartialEq, Eq, Structural)]
pub enum TokenKind {
    // single-character punctuation
    LeftParen,
    RightParen,
    LeftBrace,
    RightBrace,
    Comma,
    Dot,
    Minus,
    Plus,
    Semicolon,
    Slash,
    Star,
    // operators of one or two characters
    Bang,
    BangEqual,
    Equal,
    EqualEqual,
    Greater,
    GreaterEqual,
    Less,
    LessEqual,
    // literals
    Identifier,
    String,
    Number,
    // reserved words
    And,
    Class,
    Else,
    False,
    Func,
    For,
    If,
    Nil,
    Or,
    Print,
    Return,
    Super,
    This,
    True,
    Var,
    While,
    // what a consumer filters out before parsing
    Comment,
    NewLine,
    WhiteSpace,
}

impl TokenKind {
    /// The name under which the kind is displayed: its own.
    pub open spec fn name(self) -> Seq<char> {
        match self {
            TokenKind::LeftParen => "LeftParen"@,
            TokenKind::RightParen => "RightParen"@,
            TokenKind::LeftBrace => "LeftBrace"@,
            TokenKind::RightBrace => "RightBrace"@,
            TokenKind::Comma => "Comma"@,
            TokenKind::Dot => "Dot"@,
            TokenKind::Minus => "Minus"@,
            TokenKind::Plus => "Plus"@,
            TokenKind::Semicolon => "Semicolon"@,
            TokenKind::Slash => "Slash"@,
            TokenKind::Star => "Star"@,
            TokenKind::Bang => "Bang"@,
            TokenKind::BangEqual => "BangEqual"@,
            TokenKind::Equal => "Equal"@,
            TokenKind::EqualEqual => "EqualEqual"@,
            TokenKind::Greater => "Greater"@,
            TokenKind::GreaterEqual => "GreaterEqual"@,
            TokenKind::Less => "Less"@,
            TokenKind::LessEqual => "LessEqual"@,
            TokenKind::Identifier => "Identifier"@,
            TokenKind::String => "String"@,
            TokenKind::Number => "Number"@,
            TokenKind::And => "And"@,
            TokenKind::Class => "Class"@,
            TokenKind::Else => "Else"@,
            TokenKind::False => "False"@,
            TokenKind::Func => "Func"@,
            TokenKind::For => "For"@,
            TokenKind::If => "If"@,
            TokenKind::Nil => "Nil"@,
            TokenKind::Or => "Or"@,
            TokenKind::Print => "Print"@,
            TokenKind::Return => "Return"@,
            TokenKind::Super => "Super"@,
            TokenKind::This => "This"@,
            TokenKind::True => "True"@,
            TokenKind::Var => "Var"@,
            TokenKind::While => "While"@,
            TokenKind::Comment => "Comment"@,
            TokenKind::NewLine => "NewLine"@,
            TokenKind::WhiteSpace => "WhiteSpace"@,
        }
    }

    /// The displayed name of the kind, as a string slice.
    pub fn as_str(&self) -> (s: &'static str)
        ensures
            s@ == self.name(),
    {
        match self {
            TokenKind::LeftParen => "LeftParen",
            TokenKind::RightParen => "RightParen",
            TokenKind::LeftBrace => "LeftBrace",
            TokenKind::RightBrace => "RightBrace",
            TokenKind::Comma => "Comma",
            TokenKind::Dot => "Dot",
            TokenKind::Minus => "Minus",
            TokenKind::Plus => "Plus",
            TokenKind::Semicolon => "Semicolon",
            TokenKind::Slash => "Slash",
            TokenKind::Star => "Star",
            TokenKind::Bang => "Bang",
            TokenKind::BangEqual => "BangEqual",
            TokenKind::Equal => "Equal",
            TokenKind::EqualEqual => "EqualEqual",
            TokenKind::Greater => "Greater",
            TokenKind::GreaterEqual => "GreaterEqual",
            TokenKind::Less => "Less",
            TokenKind::LessEqual => "LessEqual",
            TokenKind::Identifier => "Identifier",
            TokenKind::String => "String",
            TokenKind::Number => "Number",
            TokenKind::And => "And",
            TokenKind::Class => "Class",
            TokenKind::Else => "Else",
            TokenKind::False => "False",
            TokenKind::Func => "Func",
            TokenKind::For => "For",
            TokenKind::If => "If",
            TokenKind::Nil => "Nil",
            TokenKind::Or => "Or",
            TokenKind::Print => "Print",
            TokenKind::Return => "Return",
            TokenKind::Super => "Super",
            TokenKind::This => "This",
            TokenKind::True => "True",
            TokenKind::Var => "Var",
            TokenKind::While => "While",
            TokenKind::Comment => "Comment",
            TokenKind::NewLine => "NewLine",
            TokenKind::WhiteSpace => "WhiteSpace",
        }
    }

    /// The displayed name of the kind, as an owned string.
    pub fn to_string(&self) -> (s: String)
        ensures
            s@ == self.name(),
    {
        String::from_str(self.as_str())
    }
}

/// A token as plain values.
pub struct TokenView {
    pub kind: TokenKind,
    /// The text of the source that the token was read from.
    pub lexeme: Seq<char>,
    /// The decoded value of a literal.
    pub literal: Seq<char>,
    /// The line, counted from 1, on which the token ends.
    pub line: u32,
}

impl TokenView {
    /// How the token is displayed: its kind's name, the lexeme between
    /// backticks, and the literal.
    pub open spec fn text(self) -> Seq<char> {
        self.kind.name() + " `"@ + self.lexeme + "` "@ + self.literal
    }
}

/// One classified unit of source text. A token is made once and never
/// changed.
#[derive(Debug, PartialEq, Eq)]
pub struct Token {
    kind: TokenKind,
    lexeme: String,
    literal: String,
    line: u32,
}

impl View for Token {
    type V = TokenView;

    closed spec fn view(&self) -> TokenView {
        TokenView { kind: self.kind, lexeme: self.lexeme@, literal: self.literal@, line: self.line }
    }
}

impl Token {
    /// A token of the given kind, lexeme, literal value and line.
    pub fn new(kind: TokenKind, lexeme: String, literal: String, line: u32) -> (t: Token)
        ensures
            t@ == (TokenView { kind, lexeme: lexeme@, literal: literal@, line }),
    {
        Token { kind, lexeme, literal, line }
    }

    /// The token's kind.
    pub fn kind(&self) -> (k: TokenKind)
        ensures
            k == self@.kind,
    {
        self.kind
    }

    /// The source text that the token was read from.
    pub fn lexeme(&self) -> (s: &str)
        ensures
            s@ == self@.lexeme,
    {
        self.lexeme.as_str()
    }

    /// The decoded value of a literal.
    pub fn literal(&self) -> (s: &str)
        ensures
            s@ == self@.literal,
    {
        self.literal.as_str()
    }

    /// The line, counted from 1, on which the token ends.
    pub fn line(&self) -> (l: u32)
        ensures
            l == self@.line,
    {
        self.line
    }

    /// Renders the token as `<kind> \`<lexeme>\` <literal>`.
    pub fn to_string(&self) -> (s: String)
        ensures
            s@ == self@.text(),
    {
        let mut s = self.kind.to_string();
        s.append(" `");
        s.append(self.lexeme.as_str());
        s.append("` ");
        s.append(self.literal.as_str());
        s
    }
}

} // verus!
