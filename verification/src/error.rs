//! Lexical errors: what went wrong with one token, and on which line.

use crate::text::{decimal, push_decimal};
use vstd::prelude::*;
use vstd::string::*;

verus! {

/// The ways in which a single token can be malformed.
#[derive(Debug, Clone, Copy, PartialEq, Eq, Structural)]
pub enum LoxErrorType {
    /// No token begins with this character.
    UnexpectedCharacter(char),
    /// A string literal was opened and the input ended before its closing quote.
    UnterminatedString,
}

impl LoxErrorType {
    /// The sentence that describes the failure to a user.
    pub open spec fn message(self) -> Seq<char> {
        match self {
            LoxErrorType::UnexpectedCharacter(c) => "Unexpected character `"@.push(c) + "`."@,
            LoxErrorType::UnterminatedString => "String was not terminated."@,
        }
    }

    /// Renders the failure as the sentence of [`LoxErrorType::message`].
    pub fn to_string(&self) -> (s: String)
        ensures
            s@ == self.message(),
    {
        match self {
            LoxErrorType::UnexpectedCharacter(c) => {
                let mut s = String::from_str("Unexpected character `");
                s.push(*c);
                s.append("`.");
                s
            },
            LoxErrorType::UnterminatedString => String::from_str("String was not terminated."),
        }
    }
}

/// A lexical error as plain values: its kind and the line on which it was
/// detected.
pub struct LoxErrorView {
    pub line: u32,
    pub kind: LoxErrorType,
}

impl LoxErrorView {
    /// The diagnostic shown to a user: `[line L] Error: <message>`.
    pub open spec fn text(self) -> Seq<char> {
        "[line "@ + decimal(self.line as nat) + "] Error: "@ + self.kind.message()
    }
}

/// One malformed token: the kind of failure and the line on which it was
/// detected. It reports a single event; scanning can go on after it.
#[derive(Debug, Clone, Copy, PartialEq, Eq, Structural)]
pub struct LoxError {
    line: u32,
    type_: LoxErrorType,
}

impl View for LoxError {
    type V = LoxErrorView;

    closed spec fn view(&self) -> LoxErrorView {
        LoxErrorView { line: self.line, kind: self.type_ }
    }
}

impl LoxError {
    /// An error of kind `type_` detected on line `line`.
    pub fn new(line: u32, type_: LoxErrorType) -> (e: LoxError)
        ensures
            e@ == (LoxErrorView { line, kind: type_ }),
    {
        LoxError { line, type_ }
    }

    /// The line on which the error was detected.
    pub fn line(&self) -> (l: u32)
        ensures
            l == self@.line,
    {
        self.line
    }

    /// The kind of failure.
    pub fn kind(&self) -> (k: LoxErrorType)
        ensures
            k == self@.kind,
    {
        self.type_
    }

    /// Renders the diagnostic `[line L] Error: <message>`.
    pub fn to_string(&self) -> (s: String)
        ensures
            s@ == self@.text(),
    {
        let mut s = String::from_str("[line ");
        push_decimal(&mut s, self.line);
        s.append("] Error: ");
        let message = self.type_.to_string();
        s.append(message.as_str());
        s
    }
}

} // verus!
