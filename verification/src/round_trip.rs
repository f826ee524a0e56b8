//! Coverage: scanning neither drops nor repeats a byte of the buffer.

use crate::classify::{classify, lemma_classify_len, lemma_token_runs};
use crate::error::{LoxErrorType, LoxErrorView};
use crate::scanner::{item_at, items_from, step_len};
use crate::text::text_of;
use crate::token::TokenView;
use vstd::prelude::*;
use vstd::utf8::*;

verus! {

/// The bytes that the pull at offset `pos` consumes.
pub open spec fn span_at(content: Seq<u8>, pos: int) -> Seq<u8> {
    content.subrange(pos, pos + step_len(content, pos))
}

/// The spans that scanning consumes from offset `pos` to the end of the
/// buffer, one for each item of [`items_from`], in order.
pub open spec fn spans_from(content: Seq<u8>, pos: int) -> Seq<Seq<u8>>
    decreases content.len() - pos,
{
    if 0 <= pos < content.len() {
        proof {
            lemma_classify_len(content.skip(pos));
        }
        seq![span_at(content, pos)] + spans_from(content, pos + step_len(content, pos))
    } else {
        Seq::empty()
    }
}

/// The bytes that a yielded item stands for: the UTF-8 encoding of a token's
/// lexeme, and, for an error, the one byte that was skipped.
pub open spec fn item_bytes(item: Result<TokenView, LoxErrorView>) -> Seq<u8> {
    match item {
        Ok(token) => encode_utf8(token.lexeme),
        Err(error) => match error.kind {
            LoxErrorType::UnexpectedCharacter(c) => seq![c as u8],
            LoxErrorType::UnterminatedString => seq!['"' as u8],
        },
    }
}

/// Whether `item` is what a pull yields for the bytes `span`: a token whose
/// lexeme is the text of the span, or an error that names the span's one
/// byte.
pub open spec fn yielded_for(item: Result<TokenView, LoxErrorView>, span: Seq<u8>) -> bool {
    match item {
        Ok(token) => token.lexeme == text_of(span),
        Err(_) => item_bytes(item) == span,
    }
}

/// The spans of a scan partition the buffer, whatever its bytes are: joined
/// in order they are the bytes from `pos` to the end, and each of them is the
/// span of the item yielded in its place.
pub proof fn lemma_spans_cover(content: Seq<u8>, pos: int)
    requires
        0 <= pos <= content.len(),
    ensures
        spans_from(content, pos).flatten() == content.skip(pos),
        spans_from(content, pos).len() == items_from(content, pos).len(),
        forall|i: int|
            0 <= i < spans_from(content, pos).len() ==> yielded_for(
                items_from(content, pos)[i],
                #[trigger] spans_from(content, pos)[i],
            ),
    decreases content.len() - pos,
{
    if pos < content.len() {
        let s = content.skip(pos);
        lemma_classify_len(s);
        let next = pos + step_len(content, pos);
        lemma_spans_cover(content, next);
        let rest = spans_from(content, next);
        assert((seq![span_at(content, pos)] + rest).drop_first() =~= rest);
        assert(yielded_for(item_at(content, pos), span_at(content, pos))) by {
            if classify(s) is Err {
                assert(span_at(content, pos) =~= seq![s[0]]);
            }
        }
    }
}

/// In valid UTF-8 a character begins right after every ASCII byte.
proof fn lemma_boundary_after_ascii(bytes: Seq<u8>, i: int)
    requires
        valid_utf8(bytes),
        0 <= i < bytes.len(),
        bytes[i] < 0x80,
    ensures
        is_char_boundary(bytes, i + 1),
    decreases bytes.len(),
{
    let width = length_of_first_scalar(bytes);
    let rest = pop_first_scalar(bytes);
    reveal_with_fuel(is_char_boundary, 2);
    if i > 0 {
        is_char_boundary_iff_not_is_continuation_byte(bytes, i);
        lemma_boundary_after_ascii(rest, i - width);
    }
}

/// A token begins with an ASCII byte, and it ends at the end of the bytes,
/// after an ASCII byte, or before a line feed.
proof fn lemma_token_edges(s: Seq<u8>)
    requires
        s.len() > 0,
    ensures
        classify(s) matches Ok((kind, len)) ==> {
            &&& 1 <= len <= s.len()
            &&& s[0] < 0x80
            &&& len == s.len() || s[len - 1] < 0x80 || s[len] == '\n' as u8
        },
{
    lemma_token_runs(s);
}

/// A token read from valid UTF-8 spans valid UTF-8.
pub proof fn lemma_token_span_is_utf8(content: Seq<u8>, pos: int)
    requires
        valid_utf8(content),
        0 <= pos < content.len(),
        classify(content.skip(pos)) is Ok,
    ensures
        valid_utf8(span_at(content, pos)),
{
    let s = content.skip(pos);
    let len = step_len(content, pos);
    lemma_token_edges(s);
    is_char_boundary_iff_not_is_continuation_byte(content, pos);
    valid_utf8_split(content, pos);
    if len == s.len() {
        is_char_boundary_start_end_of_seq(s);
    } else if s[len - 1] < 0x80 {
        lemma_boundary_after_ascii(s, len - 1);
    } else {
        is_char_boundary_iff_not_is_continuation_byte(s, len);
    }
    valid_utf8_split(s, len);
    assert(s.subrange(0, len) =~= span_at(content, pos));
}

/// Whether every token that scanning yields from offset `pos` on spans valid
/// UTF-8. Only the lexeme of such a token encodes to the bytes it was read
/// from.
pub open spec fn tokens_are_utf8(content: Seq<u8>, pos: int) -> bool
    decreases content.len() - pos,
{
    0 <= pos < content.len() ==> {
        proof {
            lemma_classify_len(content.skip(pos));
        }
        &&& item_at(content, pos) is Ok ==> valid_utf8(span_at(content, pos))
        &&& tokens_are_utf8(content, pos + step_len(content, pos))
    }
}

/// In a buffer of valid UTF-8 every token spans valid UTF-8.
pub proof fn lemma_utf8_tokens(content: Seq<u8>, pos: int)
    requires
        valid_utf8(content),
        0 <= pos <= content.len(),
    ensures
        tokens_are_utf8(content, pos),
    decreases content.len() - pos,
{
    if pos < content.len() {
        lemma_classify_len(content.skip(pos));
        if item_at(content, pos) is Ok {
            lemma_token_span_is_utf8(content, pos);
        }
        lemma_utf8_tokens(content, pos + step_len(content, pos));
    }
}

/// Scanning loses nothing: where the tokens span valid UTF-8, their lexemes
/// and the bytes skipped at errors, joined in the order in which they are
/// yielded, are the bytes from `pos` to the end of the buffer.
pub proof fn lemma_round_trip_from(content: Seq<u8>, pos: int)
    requires
        0 <= pos <= content.len(),
        tokens_are_utf8(content, pos),
    ensures
        items_from(content, pos).map_values(|item| item_bytes(item)).flatten() == content.skip(
            pos,
        ),
    decreases content.len() - pos,
{
    let pieces = items_from(content, pos).map_values(|item| item_bytes(item));
    if pos < content.len() {
        let s = content.skip(pos);
        lemma_classify_len(s);
        let next = pos + step_len(content, pos);
        lemma_round_trip_from(content, next);
        assert(item_bytes(item_at(content, pos)) == span_at(content, pos)) by {
            if classify(s) is Ok {
                decode_utf8_encode_utf8(span_at(content, pos));
            }
        }
        let rest = items_from(content, next).map_values(|item| item_bytes(item));
        assert(pieces.drop_first() =~= rest);
    }
}

/// Scanning a buffer from its start and joining what is yielded gives back
/// the buffer, where its tokens span valid UTF-8. By [`lemma_utf8_tokens`]
/// they do in every buffer that is valid UTF-8 as a whole.
pub proof fn lemma_round_trip(content: Seq<u8>)
    requires
        tokens_are_utf8(content, 0),
    ensures
        items_from(content, 0).map_values(|item| item_bytes(item)).flatten() == content,
{
    lemma_round_trip_from(content, 0);
}

} // verus!
