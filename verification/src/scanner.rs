//! The scanner: a cursor over a byte buffer that yields one token, or one
//! error, per pull.

use crate::classify::{classify, lemma_classify_len, lemma_token_runs};
use crate::error::{LoxError, LoxErrorView};
use crate::lines::{
    count_newlines, lemma_line_advance, lemma_newlines_bounds, line_at, newlines,
};
use crate::text::{text_of, utf8_lossy};
pub use crate::token::{Token, TokenKind, TokenView};
use vstd::prelude::*;
use vstd::slice::*;

verus! {

/// Moves a cursor `size` bytes on and sets its line, in one step.
fn move_cursor(current: &mut usize, line: &mut u32, size: usize, new_line: u32)
    requires
        *old(current) + size <= usize::MAX,
    ensures
        *final(current) == *old(current) + size,
        *final(line) == new_line,
    no_unwind
{
    *current += size;
    *line = new_line;
}

/// A scanner as plain values: the buffer, how much of it has been read, the
/// reserved span start, and the line that the cursor is on.
pub struct ScannerView {
    pub content: Seq<u8>,
    /// The offset of the next unread byte.
    pub current: int,
    /// Reserved for the offset at which the span being read begins: 0 in a
    /// new scanner, and left as it is by every pull.
    pub start: int,
    /// The line, counted from 1, of the next unread byte.
    pub line: u32,
}

impl ScannerView {
    /// The cursor lies within the buffer, and the line counter is one more
    /// than the number of line feeds before the cursor. Every scanner is
    /// consistent.
    pub open spec fn consistent(self) -> bool {
        &&& 0 <= self.current <= self.content.len()
        &&& self.line == line_at(self.content, self.current)
    }
}

/// How many bytes the pull at offset `pos` consumes: the length of the token
/// that begins there, or the one byte that is skipped where none does.
pub open spec fn step_len(content: Seq<u8>, pos: int) -> int {
    match classify(content.skip(pos)) {
        Ok((_, len)) => len,
        Err(_) => 1,
    }
}

/// What the pull at offset `pos` yields. A token carries the text of the
/// bytes it spans, an empty literal, and the line on which it ends; an error
/// carries the line on which it begins.
pub open spec fn item_at(content: Seq<u8>, pos: int) -> Result<TokenView, LoxErrorView> {
    match classify(content.skip(pos)) {
        Ok((kind, len)) => Ok(
            TokenView {
                kind,
                lexeme: text_of(content.subrange(pos, pos + len)),
                literal: Seq::empty(),
                line: line_at(content, pos + len) as u32,
            },
        ),
        Err(kind) => Err(LoxErrorView { line: line_at(content, pos) as u32, kind }),
    }
}

/// Everything that scanning yields from offset `pos` to the end of the
/// buffer, in order.
pub open spec fn items_from(content: Seq<u8>, pos: int) -> Seq<Result<TokenView, LoxErrorView>>
    decreases content.len() - pos,
{
    if 0 <= pos < content.len() {
        proof {
            lemma_classify_len(content.skip(pos));
        }
        seq![item_at(content, pos)] + items_from(content, pos + step_len(content, pos))
    } else {
        Seq::empty()
    }
}

/// A yielded item as plain values.
pub open spec fn outcome(item: Result<Token, LoxError>) -> Result<TokenView, LoxErrorView> {
    match item {
        Ok(token) => Ok(token@),
        Err(error) => Err(error@),
    }
}

/// Only a line break and a string literal hold line feeds: the line break
/// one, every other token none; and the byte at which scanning fails is no
/// line feed.
pub proof fn lemma_token_newlines(s: Seq<u8>)
    requires
        s.len() > 0,
    ensures
        match classify(s) {
            Ok((kind, len)) => {
                &&& kind == TokenKind::NewLine ==> newlines(s.take(len)) == 1
                &&& kind != TokenKind::NewLine && kind != TokenKind::String ==> newlines(
                    s.take(len),
                ) == 0
            },
            Err(_) => newlines(s.take(1)) == 0,
        },
{
    lemma_token_runs(s);
    match classify(s) {
        Ok((kind, len)) => {
            if kind == TokenKind::NewLine {
                reveal_with_fuel(newlines, 2);
            } else if kind != TokenKind::String {
                lemma_newlines_bounds(s.take(len));
            }
        },
        Err(_) => {
            lemma_newlines_bounds(s.take(1));
        },
    }
}

/// A cursor over a byte buffer. Each pull reads one token at the cursor and
/// moves past it, until the buffer is used up. Where no token begins at the
/// cursor, the pull reports the error and moves past one byte, so that
/// scanning always goes on. To scan again, make a new scanner.
pub struct Scanner {
    content: Vec<u8>,
    current: usize,
    /// Reserved for the offset at which the span being read begins.
    #[allow(dead_code)]
    start: usize,
    line: u32,
}

impl View for Scanner {
    type V = ScannerView;

    closed spec fn view(&self) -> ScannerView {
        ScannerView {
            content: self.content@,
            current: self.current as int,
            start: self.start as int,
            line: self.line,
        }
    }
}

impl Scanner {
    /// The cursor lies within the buffer, the line counter is that of the
    /// cursor, and it will not overflow before the buffer ends.
    #[verifier::type_invariant]
    spec fn well_formed(self) -> bool {
        &&& self@.consistent()
        &&& line_at(self.content@, self.content@.len() as int) <= u32::MAX
    }

    /// A scanner at the start of `content`, on line 1, with its span start
    /// at 0. The lines of `content` must be countable in 32 bits.
    pub fn new(content: Vec<u8>) -> (scanner: Scanner)
        requires
            line_at(content@, content@.len() as int) <= u32::MAX,
        ensures
            scanner@ == (ScannerView { content: content@, current: 0, start: 0, line: 1 }),
            scanner@.consistent(),
    {
        Scanner { content, current: 0, start: 0, line: 1 }
    }

    /// A scanner at the start of `content`, or nothing where `content` has
    /// more lines than 32 bits can count.
    pub fn try_new(content: Vec<u8>) -> (made: Option<Scanner>)
        ensures
            match made {
                Some(scanner) => {
                    &&& line_at(content@, content@.len() as int) <= u32::MAX
                    &&& scanner@ == (ScannerView {
                        content: content@,
                        current: 0,
                        start: 0,
                        line: 1,
                    })
                },
                None => line_at(content@, content@.len() as int) > u32::MAX,
            },
    {
        let line_feeds = count_newlines(content.as_slice());
        assert(content@.take(content@.len() as int) =~= content@);
        if line_feeds < u32::MAX as usize {
            Some(Scanner::new(content))
        } else {
            None
        }
    }

    /// Pulls the next item. At the end of the buffer there is none, and the
    /// scanner stays as it is. Before the end the pull yields the token that
    /// begins at the cursor and moves past it, or yields the reason why none
    /// begins there and moves past one byte.
    pub fn next(&mut self) -> (item: Option<Result<Token, LoxError>>)
        ensures
            final(self)@.content == old(self)@.content,
            final(self)@.start == old(self)@.start,
            final(self)@.consistent(),
            old(self)@.current >= old(self)@.content.len() ==> item is None && final(self)@ == old(
                self,
            )@,
            old(self)@.current < old(self)@.content.len() ==> {
                &&& item matches Some(found)
                &&& outcome(found) == item_at(old(self)@.content, old(self)@.current)
                &&& final(self)@.current == old(self)@.current + step_len(
                    old(self)@.content,
                    old(self)@.current,
                )
            },
    {
        proof {
            use_type_invariant(&*self);
        }
        if self.current >= self.content.len() {
            return None;
        }
        let ghost content = self.content@;
        let ghost pos = self.current as int;
        let rest = slice_subrange(self.content.as_slice(), self.current, self.content.len());
        proof {
            lemma_token_newlines(rest@);
        }
        match TokenKind::from_utf8(rest) {
            Ok((kind, size)) => {
                let span = slice_subrange(rest, 0, size);
                assert(span@ =~= content.subrange(pos, pos + size));
                proof {
                    lemma_line_advance(content, pos, size as int);
                }
                let lexeme = utf8_lossy(span);
                let line = match kind {
                    TokenKind::NewLine => self.line + 1,
                    TokenKind::String => {
                        let inside = count_newlines(span);
                        self.line + inside as u32
                    },
                    _ => self.line,
                };
                move_cursor(&mut self.current, &mut self.line, size, line);
                Some(Ok(Token::new(kind, lexeme, String::new(), line)))
            },
            Err(kind) => {
                assert(content.subrange(pos, pos + 1) =~= rest@.take(1));
                proof {
                    lemma_line_advance(content, pos, 1);
                }
                let error = LoxError::new(self.line, kind);
                self.current += 1;
                Some(Err(error))
            },
        }
    }

    /// Pulls until the buffer is used up, and returns what was yielded, in
    /// order.
    pub fn drain(&mut self) -> (items: Vec<Result<Token, LoxError>>)
        ensures
            final(self)@.content == old(self)@.content,
            final(self)@.current == old(self)@.content.len(),
            final(self)@.start == old(self)@.start,
            final(self)@.consistent(),
            items@.map_values(|item| outcome(item)) == items_from(
                old(self)@.content,
                old(self)@.current,
            ),
    {
        proof {
            use_type_invariant(&*self);
        }
        let ghost content = self@.content;
        let ghost begin = self@.current;
        let ghost start = self@.start;
        let mut items: Vec<Result<Token, LoxError>> = Vec::new();
        loop
            invariant
                self@.content == content,
                self@.start == start,
                0 <= begin <= self@.current <= content.len(),
                items@.map_values(|item| outcome(item)) + items_from(content, self@.current)
                    == items_from(content, begin),
            ensures
                self@.current == content.len(),
                self@.start == start,
                self@.consistent(),
                items@.map_values(|item| outcome(item)) == items_from(content, begin),
            decreases content.len() - self@.current,
        {
            proof {
                if self@.current < content.len() {
                    lemma_classify_len(content.skip(self@.current));
                }
            }
            match self.next() {
                Some(found) => {
                    items.push(found);
                },
                None => {
                    break ;
                },
            }
        }
        items
    }
}

} // verus!
