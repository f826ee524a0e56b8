//! The lexical grammar: which token begins a byte sequence, and how long it is.

use crate::error::LoxErrorType;
use crate::token::TokenKind;
use vstd::prelude::*;
use vstd::slice::*;
use vstd::string::*;

verus! {

/// The sets of bytes of which a token may hold a run.
#[derive(Debug, Clone, Copy, PartialEq, Eq, Structural)]
pub enum ByteClass {
    /// Carriage return, tab and space.
    Blank,
    /// The ASCII digits.
    Digit,
    /// The ASCII letters and the underscore.
    Letter,
    /// Every byte but the line feed: what a comment may hold.
    InLine,
    /// Every byte but the double quote: what a string literal may hold
    /// between its quotes.
    Unquoted,
}

impl ByteClass {
    /// Whether `b` belongs to the class.
    pub open spec fn spec_contains(self, b: u8) -> bool {
        match self {
            ByteClass::Blank => b == ' ' as u8 || b == '\t' as u8 || b == '\r' as u8,
            ByteClass::Digit => '0' as u8 <= b <= '9' as u8,
            ByteClass::Letter => ('a' as u8 <= b <= 'z' as u8) || ('A' as u8 <= b <= 'Z' as u8) || b
                == '_' as u8,
            ByteClass::InLine => b != '\n' as u8,
            ByteClass::Unquoted => b != '"' as u8,
        }
    }

    /// Whether `b` belongs to the class.
    #[verifier::when_used_as_spec(spec_contains)]
    pub fn contains(self, b: u8) -> (r: bool)
        ensures
            r == self.spec_contains(b),
    {
        match self {
            ByteClass::Blank => b == ' ' as u8 || b == '\t' as u8 || b == '\r' as u8,
            ByteClass::Digit => '0' as u8 <= b && b <= '9' as u8,
            ByteClass::Letter => ('a' as u8 <= b && b <= 'z' as u8) || ('A' as u8 <= b && b
                <= 'Z' as u8) || b == '_' as u8,
            ByteClass::InLine => b != '\n' as u8,
            ByteClass::Unquoted => b != '"' as u8,
        }
    }
}

/// Where the run of `class` bytes that begins at `from` ends: the first
/// index at or after `from` whose byte is outside the class, or the length of
/// `s` if there is none.
pub open spec fn run_end(s: Seq<u8>, class: ByteClass, from: int) -> int
    decreases s.len() - from,
{
    if 0 <= from < s.len() && class.contains(s[from]) {
        run_end(s, class, from + 1)
    } else {
        from
    }
}

/// Whether the bytes of `s` from `from` up to `end` are a maximal run of
/// `class`: they lie within `s`, every one of them belongs to the class, and
/// the byte after them, if there is one, does not.
pub open spec fn is_run(s: Seq<u8>, class: ByteClass, from: int, end: int) -> bool {
    &&& from <= end <= s.len()
    &&& forall|i: int| from <= i < end ==> class.contains(#[trigger] s[i])
    &&& end < s.len() ==> !class.contains(s[end])
}

/// What [`run_end`] finds is the maximal run.
pub proof fn lemma_run_end(s: Seq<u8>, class: ByteClass, from: int)
    requires
        0 <= from <= s.len(),
    ensures
        is_run(s, class, from, run_end(s, class, from)),
    decreases s.len() - from,
{
    if from < s.len() && class.contains(s[from]) {
        lemma_run_end(s, class, from + 1);
    }
}

/// Finds the end of the run of `class` bytes that begins at `from`.
pub fn scan_run(value: &[u8], class: ByteClass, from: usize) -> (end: usize)
    requires
        from <= value@.len(),
    ensures
        end == run_end(value@, class, from as int),
        from <= end <= value@.len(),
{
    let mut end: usize = from;
    while end < value.len() && class.contains(value[end])
        invariant
            from <= end <= value@.len(),
            run_end(value@, class, end as int) == run_end(value@, class, from as int),
        decreases value@.len() - end,
    {
        end += 1;
    }
    end
}

/// The kind that a punctuation character stands for by itself.
pub open spec fn spec_punctuation(c: char) -> Option<TokenKind> {
    if c == '(' {
        Some(TokenKind::LeftParen)
    } else if c == ')' {
        Some(TokenKind::RightParen)
    } else if c == '{' {
        Some(TokenKind::LeftBrace)
    } else if c == '}' {
        Some(TokenKind::RightBrace)
    } else if c == ',' {
        Some(TokenKind::Comma)
    } else if c == '.' {
        Some(TokenKind::Dot)
    } else if c == '-' {
        Some(TokenKind::Minus)
    } else if c == '+' {
        Some(TokenKind::Plus)
    } else if c == ';' {
        Some(TokenKind::Semicolon)
    } else if c == '*' {
        Some(TokenKind::Star)
    } else {
        None
    }
}

/// The kind that a punctuation character stands for by itself.
#[verifier::when_used_as_spec(spec_punctuation)]
pub fn punctuation(c: char) -> (kind: Option<TokenKind>)
    ensures
        kind == spec_punctuation(c),
{
    if c == '(' {
        Some(TokenKind::LeftParen)
    } else if c == ')' {
        Some(TokenKind::RightParen)
    } else if c == '{' {
        Some(TokenKind::LeftBrace)
    } else if c == '}' {
        Some(TokenKind::RightBrace)
    } else if c == ',' {
        Some(TokenKind::Comma)
    } else if c == '.' {
        Some(TokenKind::Dot)
    } else if c == '-' {
        Some(TokenKind::Minus)
    } else if c == '+' {
        Some(TokenKind::Plus)
    } else if c == ';' {
        Some(TokenKind::Semicolon)
    } else if c == '*' {
        Some(TokenKind::Star)
    } else {
        None
    }
}

/// For a character that is an operator alone and another operator when an
/// equals sign follows it: the kind alone, then the kind with the equals
/// sign.
pub open spec fn spec_operator(c: char) -> Option<(TokenKind, TokenKind)> {
    if c == '=' {
        Some((TokenKind::Equal, TokenKind::EqualEqual))
    } else if c == '>' {
        Some((TokenKind::Greater, TokenKind::GreaterEqual))
    } else if c == '<' {
        Some((TokenKind::Less, TokenKind::LessEqual))
    } else if c == '!' {
        Some((TokenKind::Bang, TokenKind::BangEqual))
    } else {
        None
    }
}

/// For a character that is an operator alone and another operator when an
/// equals sign follows it: the kind alone, then the kind with the equals
/// sign.
#[verifier::when_used_as_spec(spec_operator)]
pub fn operator(c: char) -> (kinds: Option<(TokenKind, TokenKind)>)
    ensures
        kinds == spec_operator(c),
{
    if c == '=' {
        Some((TokenKind::Equal, TokenKind::EqualEqual))
    } else if c == '>' {
        Some((TokenKind::Greater, TokenKind::GreaterEqual))
    } else if c == '<' {
        Some((TokenKind::Less, TokenKind::LessEqual))
    } else if c == '!' {
        Some((TokenKind::Bang, TokenKind::BangEqual))
    } else {
        None
    }
}

/// Whether the second byte of `s` exists and is the character `c`.
pub open spec fn followed_by(s: Seq<u8>, c: char) -> bool {
    s.len() > 1 && s[1] == c as u8
}

/// Whether `word` is `text`, byte for byte.
pub open spec fn spells(word: Seq<u8>, text: &str) -> bool {
    word == text.spec_bytes()
}

/// Tests whether `word` is `text`, byte for byte.
pub fn is_word(word: &[u8], text: &str) -> (r: bool)
    ensures
        r == spells(word@, text),
{
    let bytes = text.as_bytes();
    if word.len() != bytes.len() {
        return false;
    }
    let mut i: usize = 0;
    while i < word.len()
        invariant
            bytes@ == text.spec_bytes(),
            i <= word@.len() == bytes@.len(),
            forall|j: int| 0 <= j < i ==> word@[j] == bytes@[j],
        decreases word@.len() - i,
    {
        if word[i] != bytes[i] {
            return false;
        }
        i += 1;
    }
    assert(word@ =~= bytes@);
    true
}

/// The reserved word that `word` spells, if it is one. The word `false` is
/// not in the table: it is read as an identifier.
pub open spec fn keyword(word: Seq<u8>) -> Option<TokenKind> {
    if spells(word, "and") {
        Some(TokenKind::And)
    } else if spells(word, "class") {
        Some(TokenKind::Class)
    } else if spells(word, "else") {
        Some(TokenKind::Else)
    } else if spells(word, "func") {
        Some(TokenKind::Func)
    } else if spells(word, "for") {
        Some(TokenKind::For)
    } else if spells(word, "if") {
        Some(TokenKind::If)
    } else if spells(word, "nil") {
        Some(TokenKind::Nil)
    } else if spells(word, "or") {
        Some(TokenKind::Or)
    } else if spells(word, "print") {
        Some(TokenKind::Print)
    } else if spells(word, "return") {
        Some(TokenKind::Return)
    } else if spells(word, "super") {
        Some(TokenKind::Super)
    } else if spells(word, "this") {
        Some(TokenKind::This)
    } else if spells(word, "true") {
        Some(TokenKind::True)
    } else if spells(word, "var") {
        Some(TokenKind::Var)
    } else if spells(word, "while") {
        Some(TokenKind::While)
    } else {
        None
    }
}

/// Looks `word` up in the table of reserved words.
pub fn find_keyword(word: &[u8]) -> (kind: Option<TokenKind>)
    ensures
        kind == keyword(word@),
{
    if is_word(word, "and") {
        Some(TokenKind::And)
    } else if is_word(word, "class") {
        Some(TokenKind::Class)
    } else if is_word(word, "else") {
        Some(TokenKind::Else)
    } else if is_word(word, "func") {
        Some(TokenKind::Func)
    } else if is_word(word, "for") {
        Some(TokenKind::For)
    } else if is_word(word, "if") {
        Some(TokenKind::If)
    } else if is_word(word, "nil") {
        Some(TokenKind::Nil)
    } else if is_word(word, "or") {
        Some(TokenKind::Or)
    } else if is_word(word, "print") {
        Some(TokenKind::Print)
    } else if is_word(word, "return") {
        Some(TokenKind::Return)
    } else if is_word(word, "super") {
        Some(TokenKind::Super)
    } else if is_word(word, "this") {
        Some(TokenKind::This)
    } else if is_word(word, "true") {
        Some(TokenKind::True)
    } else if is_word(word, "var") {
        Some(TokenKind::Var)
    } else if is_word(word, "while") {
        Some(TokenKind::While)
    } else {
        None
    }
}

/// Where the number that begins `s` ends: after its digits, and, where a dot
/// follows them, after that dot and the digits behind it. A second dot is
/// never part of the number.
pub open spec fn number_end(s: Seq<u8>) -> int {
    let whole = run_end(s, ByteClass::Digit, 1);
    if whole < s.len() && s[whole] == '.' as u8 {
        run_end(s, ByteClass::Digit, whole + 1)
    } else {
        whole
    }
}

/// The token that begins `s`: its kind and its length in bytes, or the reason
/// why no token begins there.
pub open spec fn classify(s: Seq<u8>) -> Result<(TokenKind, int), LoxErrorType>
    recommends
        s.len() > 0,
{
    let c = s[0] as char;
    if ByteClass::Blank.contains(s[0]) {
        Ok((TokenKind::WhiteSpace, run_end(s, ByteClass::Blank, 1)))
    } else if c == '\n' {
        Ok((TokenKind::NewLine, 1))
    } else if let Some(kind) = punctuation(c) {
        Ok((kind, 1))
    } else if let Some((alone, with_equal)) = operator(c) {
        if followed_by(s, '=') {
            Ok((with_equal, 2))
        } else {
            Ok((alone, 1))
        }
    } else if c == '/' {
        if followed_by(s, '/') {
            Ok((TokenKind::Comment, run_end(s, ByteClass::InLine, 2)))
        } else {
            Ok((TokenKind::Slash, 1))
        }
    } else if c == '"' {
        let closing = run_end(s, ByteClass::Unquoted, 1);
        if closing < s.len() {
            Ok((TokenKind::String, closing + 1))
        } else {
            Err(LoxErrorType::UnterminatedString)
        }
    } else if ByteClass::Digit.contains(s[0]) {
        Ok((TokenKind::Number, number_end(s)))
    } else if ByteClass::Letter.contains(s[0]) {
        let end = run_end(s, ByteClass::Letter, 1);
        match keyword(s.subrange(0, end)) {
            Some(kind) => Ok((kind, end)),
            None => Ok((TokenKind::Identifier, end)),
        }
    } else {
        Err(LoxErrorType::UnexpectedCharacter(c))
    }
}

/// Every run that [`classify`] may measure in `s` is maximal: the blanks,
/// the string body, the letters and the digits behind the first byte, the
/// comment body behind two slashes, and the digits behind the dot of a
/// number.
pub proof fn lemma_token_runs(s: Seq<u8>)
    requires
        s.len() > 0,
    ensures
        is_run(s, ByteClass::Blank, 1, run_end(s, ByteClass::Blank, 1)),
        is_run(s, ByteClass::Unquoted, 1, run_end(s, ByteClass::Unquoted, 1)),
        is_run(s, ByteClass::Letter, 1, run_end(s, ByteClass::Letter, 1)),
        is_run(s, ByteClass::Digit, 1, run_end(s, ByteClass::Digit, 1)),
        followed_by(s, '/') ==> is_run(s, ByteClass::InLine, 2, run_end(s, ByteClass::InLine, 2)),
        run_end(s, ByteClass::Digit, 1) < s.len() ==> is_run(
            s,
            ByteClass::Digit,
            run_end(s, ByteClass::Digit, 1) + 1,
            run_end(s, ByteClass::Digit, run_end(s, ByteClass::Digit, 1) + 1),
        ),
{
    lemma_run_end(s, ByteClass::Blank, 1);
    lemma_run_end(s, ByteClass::Unquoted, 1);
    lemma_run_end(s, ByteClass::Letter, 1);
    lemma_run_end(s, ByteClass::Digit, 1);
    if followed_by(s, '/') {
        lemma_run_end(s, ByteClass::InLine, 2);
    }
    let whole = run_end(s, ByteClass::Digit, 1);
    if whole < s.len() {
        lemma_run_end(s, ByteClass::Digit, whole + 1);
    }
}

/// A token is never empty and never longer than the bytes it was read from.
pub proof fn lemma_classify_len(s: Seq<u8>)
    requires
        s.len() > 0,
    ensures
        classify(s) matches Ok((_, len)) ==> 1 <= len <= s.len(),
{
    lemma_token_runs(s);
}

/// Whether some token begins with the byte `b`: a blank, a line feed, a
/// punctuation or operator character, a slash, a double quote, a digit, a
/// letter or an underscore.
pub open spec fn begins_token(b: u8) -> bool {
    let c = b as char;
    ||| ByteClass::Blank.contains(b)
    ||| c == '\n'
    ||| punctuation(c) is Some
    ||| operator(c) is Some
    ||| c == '/'
    ||| c == '"'
    ||| ByteClass::Digit.contains(b)
    ||| ByteClass::Letter.contains(b)
}

/// Whether `s` opens a string literal that it never closes: it begins with
/// a double quote and holds no second one.
pub open spec fn opens_unclosed_string(s: Seq<u8>) -> bool {
    &&& s.len() > 0
    &&& s[0] == '"' as u8
    &&& forall|i: int| 1 <= i < s.len() ==> s[i] != '"' as u8
}

/// Reading fails in two cases and in no other: as an unterminated string
/// where the bytes open a string literal and never close it, and with an
/// unexpected character, which is the first byte taken as a character, where
/// no token begins with that byte.
pub proof fn lemma_classify_fails(s: Seq<u8>)
    requires
        s.len() > 0,
    ensures
        classify(s) matches Err(LoxErrorType::UnterminatedString) <==> opens_unclosed_string(s),
        classify(s) matches Err(LoxErrorType::UnexpectedCharacter(_)) <==> !begins_token(s[0]),
        classify(s) matches Err(LoxErrorType::UnexpectedCharacter(c)) ==> c == s[0] as char,
        classify(s) is Ok <==> begins_token(s[0]) && !opens_unclosed_string(s),
{
    lemma_run_end(s, ByteClass::Unquoted, 1);
}

/// No token is of kind `False`: the word `false` is not reserved, so it is
/// read as an identifier.
pub proof fn lemma_false_is_never_read(s: Seq<u8>)
    requires
        s.len() > 0,
    ensures
        classify(s) matches Ok((kind, _)) ==> kind != TokenKind::False,
{
}

impl TokenKind {
    /// Reads the token that begins `value`: its kind and its length in
    /// bytes. Fails if the first byte begins no token, or opens a string
    /// literal that is never closed.
    pub fn from_utf8(value: &[u8]) -> (r: Result<(TokenKind, usize), LoxErrorType>)
        requires
            value@.len() > 0,
        ensures
            match r {
                Ok((kind, len)) => classify(value@) == Ok::<(TokenKind, int), LoxErrorType>(
                    (kind, len as int),
                ) && 1 <= len <= value@.len(),
                Err(e) => classify(value@) == Err::<(TokenKind, int), LoxErrorType>(e),
            },
    {
        proof {
            lemma_classify_len(value@);
        }
        let first = value[0];
        let c = first as char;
        if ByteClass::Blank.contains(first) {
            Ok((TokenKind::WhiteSpace, scan_run(value, ByteClass::Blank, 1)))
        } else if c == '\n' {
            Ok((TokenKind::NewLine, 1))
        } else if let Some(kind) = punctuation(c) {
            Ok((kind, 1))
        } else if let Some((alone, with_equal)) = operator(c) {
            if value.len() > 1 && value[1] == '=' as u8 {
                Ok((with_equal, 2))
            } else {
                Ok((alone, 1))
            }
        } else if c == '/' {
            if value.len() > 1 && value[1] == '/' as u8 {
                Ok((TokenKind::Comment, scan_run(value, ByteClass::InLine, 2)))
            } else {
                Ok((TokenKind::Slash, 1))
            }
        } else if c == '"' {
            let closing = scan_run(value, ByteClass::Unquoted, 1);
            if closing < value.len() {
                Ok((TokenKind::String, closing + 1))
            } else {
                Err(LoxErrorType::UnterminatedString)
            }
        } else if ByteClass::Digit.contains(first) {
            let whole = scan_run(value, ByteClass::Digit, 1);
            if whole < value.len() && value[whole] == '.' as u8 {
                Ok((TokenKind::Number, scan_run(value, ByteClass::Digit, whole + 1)))
            } else {
                Ok((TokenKind::Number, whole))
            }
        } else if ByteClass::Letter.contains(first) {
            let end = scan_run(value, ByteClass::Letter, 1);
            match find_keyword(slice_subrange(value, 0, end)) {
                Some(kind) => Ok((kind, end)),
                None => Ok((TokenKind::Identifier, end)),
            }
        } else {
            Err(LoxErrorType::UnexpectedCharacter(c))
        }
    }
}

} // verus!
