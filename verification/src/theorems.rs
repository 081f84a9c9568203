//! What holds of every scan: which buffers yield no token, how words are
//! classified, and how the tokens of a scan lie in the buffer.

use crate::grammar::{
    cursor_after, is_whitespace, is_word_byte, lemma_next_stop, lemma_next_stop_is,
    lemma_step_advances, lex, lex_from, next_step, next_stop, stops, token_start, Lexed, Stop,
};
use crate::keyword::{
    is_word, lemma_keyword_of_spells, lemma_longer_word_is_not_reserved, lemma_spelling_is_word,
    spelling, spells, word_kind,
};
use crate::token::{LexError, Span, Token, TokenKind};
use vstd::prelude::*;
use vstd::string::StringSliceAdditionalSpecFns;
use vstd::utf8::{
    is_char_boundary, is_char_boundary_iff_not_is_continuation_byte,
    is_char_boundary_start_end_of_seq, is_continuation_byte, length_of_first_scalar,
    pop_first_scalar, valid_first_scalar, valid_utf8,
};

verus! {

/// Whether `s` holds nothing but whitespace between the offsets `from` and
/// `to`.
pub open spec fn is_gap(s: Seq<u8>, from: int, to: int) -> bool {
    from <= to && forall|k: int| from <= k < to ==> is_whitespace(#[trigger] s[k])
}

/// Whether `tokens` lie in `s` between the offsets `from` and `to` one behind
/// the other, none of them empty, with nothing but whitespace in front of
/// them, between them and behind them.
pub open spec fn tiles(s: Seq<u8>, tokens: Seq<Token>, from: int, to: int) -> bool
    decreases tokens.len(),
{
    if tokens.len() == 0 {
        is_gap(s, from, to)
    } else {
        let span = tokens[0].span;
        &&& is_gap(s, from, span.start as int)
        &&& span.start < span.end <= to
        &&& tiles(s, tokens.drop_first(), span.end as int, to)
    }
}

/// The text between `from` and `to` as the tokens spell it: the bytes under
/// each span in turn, with the bytes that lie in front of it put back before
/// it, and the bytes behind the last span at the end.
pub open spec fn reassembled(s: Seq<u8>, tokens: Seq<Token>, from: int, to: int) -> Seq<u8>
    decreases tokens.len(),
{
    if tokens.len() == 0 {
        s.subrange(from, to)
    } else {
        let span = tokens[0].span;
        s.subrange(from, span.start as int) + s.subrange(span.start as int, span.end as int)
            + reassembled(s, tokens.drop_first(), span.end as int, to)
    }
}

/// The offset up to which a scan has made tokens of the buffer: the offset of
/// its failure, or the end of the buffer where it did not fail.
pub open spec fn scanned_to(s: Seq<u8>, lexed: Lexed) -> int {
    match lexed.failure {
        Some(failure) => failure.offset() as int,
        None => s.len() as int,
    }
}

/// A buffer that holds nothing but whitespace yields no token and no failure.
pub proof fn lemma_whitespace_yields_no_token(s: Seq<u8>)
    requires
        forall|k: int| 0 <= k < s.len() ==> is_whitespace(#[trigger] s[k]),
    ensures
        lex(s) == (Lexed { tokens: Seq::empty(), failure: None }),
{
    lemma_next_stop_is(s, 0, Stop::NonWhitespace, s.len() as int);
}

/// A buffer that holds one word and nothing else yields one token, which
/// spans the whole buffer and has the kind of the word.
pub proof fn lemma_word_is_one_token(word: Seq<u8>)
    requires
        is_word(word),
        word.len() <= usize::MAX,
    ensures
        lex(word) == (Lexed {
            tokens: seq![
                Token { kind: word_kind(word), span: Span { start: 0, end: word.len() as usize } },
            ],
            failure: None,
        }),
{
    let end = word.len() as int;
    lemma_next_stop_is(word, 1, Stop::NonWord, end);
    assert(word.subrange(0, end) =~= word);
    assert(cursor_after(word, 0) == end);
    assert(lex_from(word, end).tokens =~= Seq::<Token>::empty());
    assert(lex(word).tokens =~= seq![
        Token { kind: word_kind(word), span: Span { start: 0, end: word.len() as usize } },
    ]);
}

/// A reserved word, spelled exactly, is scanned as a token of its keyword
/// kind.
pub proof fn lemma_reserved_word_is_keyword(kind: TokenKind)
    requires
        spelling(kind) is Some,
    ensures
        lex(spelling(kind)->0.spec_bytes()) == (Lexed {
            tokens: seq![
                Token {
                    kind,
                    span: Span { start: 0, end: spelling(kind)->0.spec_bytes().len() as usize },
                },
            ],
            failure: None,
        }),
{
    lemma_spelling_is_word(kind);
    lemma_word_is_one_token(spelling(kind)->0.spec_bytes());
}

/// A reserved word with one more word byte behind it is scanned as an
/// identifier.
pub proof fn lemma_longer_word_is_identifier(kind: TokenKind, tail: u8)
    requires
        spelling(kind) is Some,
        is_word_byte(tail),
    ensures
        lex(spelling(kind)->0.spec_bytes().push(tail)) == (Lexed {
            tokens: seq![
                Token {
                    kind: TokenKind::Identifier,
                    span: Span {
                        start: 0,
                        end: (spelling(kind)->0.spec_bytes().len() + 1) as usize,
                    },
                },
            ],
            failure: None,
        }),
{
    let word = spelling(kind)->0.spec_bytes();
    lemma_spelling_is_word(kind);
    lemma_longer_word_is_not_reserved(kind, tail);
    assert(is_word(word.push(tail)));
    lemma_word_is_one_token(word.push(tail));
}

/// Every token of a scan is what one step of the scan yields: the result
/// is an offset from which the next step hands out token `i`.
pub proof fn lemma_token_comes_from_step(s: Seq<u8>, cursor: int, i: int) -> (at: int)
    requires
        0 <= cursor <= s.len(),
        0 <= i < lex_from(s, cursor).tokens.len(),
    ensures
        cursor <= at <= s.len(),
        next_step(s, at) == Some(Ok::<Token, LexError>(lex_from(s, cursor).tokens[i])),
    decreases i,
{
    lemma_step_advances(s, cursor);
    if i == 0 {
        cursor
    } else {
        lemma_token_comes_from_step(s, cursor_after(s, cursor), i - 1)
    }
}

/// The token that a step yields is of a keyword kind exactly when its text
/// is the reserved word of that kind.
pub proof fn lemma_step_keyword_iff_spelled(s: Seq<u8>, cursor: int, kind: TokenKind)
    requires
        0 <= cursor <= s.len() <= usize::MAX,
        spelling(kind) is Some,
    ensures
        next_step(s, cursor) matches Some(Ok(token)) ==> (token.kind == kind <==> spells(
            s.subrange(token.span.start as int, token.span.end as int),
            kind,
        )),
{
    lemma_step_advances(s, cursor);
    let start = token_start(s, cursor);
    match next_step(s, cursor) {
        Some(Ok(token)) => {
            let word = s.subrange(start, cursor_after(s, cursor));
            lemma_keyword_of_spells(s.subrange(start, next_stop(s, start + 1, Stop::NonWord)), kind);
            if spells(word, kind) {
                lemma_spelling_is_word(kind);
                assert(word[0] == s[start]);
            }
        },
        _ => {},
    }
}

/// A token of a scan is of a keyword kind exactly when its text is the
/// reserved word of that kind. So a reserved word is never an identifier, and
/// a word that is longer or shorter than a reserved word is never a keyword.
pub proof fn lemma_keyword_iff_spelled(s: Seq<u8>, i: int, kind: TokenKind)
    requires
        s.len() <= usize::MAX,
        0 <= i < lex(s).tokens.len(),
        spelling(kind) is Some,
    ensures
        lex(s).tokens[i].kind == kind <==> spells(
            s.subrange(lex(s).tokens[i].span.start as int, lex(s).tokens[i].span.end as int),
            kind,
        ),
{
    let at = lemma_token_comes_from_step(s, 0, i);
    lemma_step_keyword_iff_spelled(s, at, kind);
}

/// The tokens that a scan yields from `cursor` on tile the buffer from
/// `cursor` up to the offset where the scan ends.
pub proof fn lemma_scan_tiles_from(s: Seq<u8>, cursor: int)
    requires
        0 <= cursor <= s.len() <= usize::MAX,
    ensures
        cursor <= scanned_to(s, lex_from(s, cursor)) <= s.len(),
        tiles(s, lex_from(s, cursor).tokens, cursor, scanned_to(s, lex_from(s, cursor))),
    decreases s.len() - cursor,
{
    lemma_step_advances(s, cursor);
    lemma_next_stop(s, cursor, Stop::NonWhitespace);
    let start = token_start(s, cursor);
    assert forall|k: int| cursor <= k < start implies is_whitespace(#[trigger] s[k]) by {
        assert(!stops(Stop::NonWhitespace, s, k));
    }
    match next_step(s, cursor) {
        Some(Ok(token)) => {
            let next = cursor_after(s, cursor);
            let rest = lex_from(s, next);
            lemma_scan_tiles_from(s, next);
            assert((seq![token] + rest.tokens).drop_first() =~= rest.tokens);
        },
        _ => {},
    }
}

/// Where `tokens` tile the buffer, the text that they spell between `from`
/// and `to` is the text of the buffer between these offsets.
pub proof fn lemma_tiles_reassemble(s: Seq<u8>, tokens: Seq<Token>, from: int, to: int)
    requires
        0 <= from,
        to <= s.len(),
        tiles(s, tokens, from, to),
    ensures
        from <= to,
        reassembled(s, tokens, from, to) == s.subrange(from, to),
    decreases tokens.len(),
{
    if tokens.len() > 0 {
        let span = tokens[0].span;
        lemma_tiles_reassemble(s, tokens.drop_first(), span.end as int, to);
        assert(s.subrange(from, span.start as int) + s.subrange(span.start as int, span.end as int)
            + s.subrange(span.end as int, to) =~= s.subrange(from, to));
    }
}

/// Where `tokens` tile the buffer, each of them lies between `from` and `to`,
/// and an earlier one ends before a later one begins.
pub proof fn lemma_tiles_in_order(
    s: Seq<u8>,
    tokens: Seq<Token>,
    from: int,
    to: int,
    i: int,
    j: int,
)
    requires
        tiles(s, tokens, from, to),
        0 <= i <= j < tokens.len(),
    ensures
        from <= tokens[i].span.start < tokens[i].span.end <= to,
        i < j ==> tokens[i].span.end <= tokens[j].span.start,
        from <= tokens[j].span.start < tokens[j].span.end <= to,
    decreases tokens.len(),
{
    let rest = tokens.drop_first();
    let next = tokens[0].span.end as int;
    if i > 0 {
        lemma_tiles_in_order(s, rest, next, to, i - 1, j - 1);
    } else if j > 0 {
        lemma_tiles_in_order(s, rest, next, to, j - 1, j - 1);
    }
}

/// The tokens of a scan and the whitespace around them account for every
/// byte of the buffer up to the offset where the scan ends: the tokens tile
/// that part of the buffer, and putting the bytes under their spans together
/// with the whitespace between them gives that part of the buffer back. A
/// scan that does not fail gives the whole buffer back.
pub proof fn lemma_scan_covers(s: Seq<u8>)
    requires
        s.len() <= usize::MAX,
    ensures
        0 <= scanned_to(s, lex(s)) <= s.len(),
        tiles(s, lex(s).tokens, 0, scanned_to(s, lex(s))),
        reassembled(s, lex(s).tokens, 0, scanned_to(s, lex(s))) == s.subrange(
            0,
            scanned_to(s, lex(s)),
        ),
        lex(s).failure is None ==> reassembled(s, lex(s).tokens, 0, s.len() as int) == s,
{
    lemma_scan_tiles_from(s, 0);
    lemma_tiles_reassemble(s, lex(s).tokens, 0, scanned_to(s, lex(s)));
    assert(s.subrange(0, s.len() as int) =~= s);
}

/// The tokens of a scan come in the order of their offsets and do not
/// overlap: each lies inside the buffer and is not empty, and an earlier one
/// ends before a later one begins.
pub proof fn lemma_spans_in_order(s: Seq<u8>, i: int, j: int)
    requires
        s.len() <= usize::MAX,
        0 <= i < j < lex(s).tokens.len(),
    ensures
        lex(s).tokens[i].span.start < lex(s).tokens[i].span.end,
        lex(s).tokens[i].span.end <= lex(s).tokens[j].span.start,
        lex(s).tokens[j].span.start < lex(s).tokens[j].span.end <= s.len(),
{
    lemma_scan_tiles_from(s, 0);
    lemma_tiles_in_order(s, lex(s).tokens, 0, scanned_to(s, lex(s)), i, j);
}

/// In UTF-8 text, a continuation byte never stands directly behind an ASCII
/// byte.
proof fn lemma_continuation_is_not_behind_ascii(bytes: Seq<u8>, at: int)
    requires
        valid_utf8(bytes),
        0 < at < bytes.len(),
        is_continuation_byte(bytes[at]),
    ensures
        bytes[at - 1] >= 0x80,
    decreases bytes.len(),
{
    let width = length_of_first_scalar(bytes);
    let rest = pop_first_scalar(bytes);
    assert(valid_first_scalar(bytes) && valid_utf8(rest));
    assert(1 <= width <= bytes.len());
    if at == width {
        assert(valid_first_scalar(rest));
        assert(rest[0] == bytes[at]);
    } else if at > width {
        assert(rest[at - width] == bytes[at]);
        assert(rest[at - width - 1] == bytes[at - 1]);
        lemma_continuation_is_not_behind_ascii(rest, at - width);
    }
}

/// In UTF-8 text, an ASCII byte has a character boundary before it and one
/// behind it.
proof fn lemma_ascii_is_a_character(bytes: Seq<u8>, at: int)
    requires
        valid_utf8(bytes),
        0 <= at < bytes.len(),
        bytes[at] < 0x80,
    ensures
        is_char_boundary(bytes, at),
        is_char_boundary(bytes, at + 1),
{
    is_char_boundary_iff_not_is_continuation_byte(bytes, at);
    if at + 1 < bytes.len() {
        is_char_boundary_iff_not_is_continuation_byte(bytes, at + 1);
        if is_continuation_byte(bytes[at + 1]) {
            lemma_continuation_is_not_behind_ascii(bytes, at + 1);
        }
    } else {
        is_char_boundary_start_end_of_seq(bytes);
    }
}

/// In UTF-8 text, the token that a step yields begins and ends on a
/// character boundary.
pub proof fn lemma_step_fits_text(s: Seq<u8>, cursor: int)
    requires
        valid_utf8(s),
        0 <= cursor <= s.len() <= usize::MAX,
    ensures
        next_step(s, cursor) matches Some(Ok(token)) ==> token.span.fits_text(s),
{
    lemma_step_advances(s, cursor);
    let start = token_start(s, cursor);
    match next_step(s, cursor) {
        Some(Ok(token)) => {
            let end = cursor_after(s, cursor);
            lemma_ascii_is_a_character(s, start);
            lemma_next_stop(s, start + 1, Stop::NonWord);
            lemma_next_stop(s, start + 1, Stop::ClosingQuote);
            lemma_next_stop(s, start + 1, Stop::SlashOrNewline);
            if start + 1 < s.len() {
                lemma_next_stop(s, start + 2, Stop::Newline);
            }
            let body_end = next_stop(s, start + 1, Stop::SlashOrNewline);
            if body_end < s.len() {
                lemma_next_stop(s, body_end, Stop::NonSlash);
            }
            if end == s.len() {
                is_char_boundary_start_end_of_seq(s);
            } else if token.kind == TokenKind::LineComment {
                lemma_ascii_is_a_character(s, end);
            } else {
                if start + 1 < end {
                    assert(token.kind == TokenKind::Regex ==> !stops(Stop::NonSlash, s, end - 1));
                    assert(token.kind != TokenKind::Regex && token.kind != TokenKind::String
                        ==> !stops(Stop::NonWord, s, end - 1));
                }
                lemma_ascii_is_a_character(s, end - 1);
            }
        },
        _ => {},
    }
}

/// In UTF-8 text, every token of a scan begins and ends on a character
/// boundary, so that its text can be cut out of the source text.
pub proof fn lemma_tokens_fit_text(s: Seq<u8>, i: int)
    requires
        valid_utf8(s),
        s.len() <= usize::MAX,
        0 <= i < lex(s).tokens.len(),
    ensures
        lex(s).tokens[i].span.fits_text(s),
{
    let at = lemma_token_comes_from_step(s, 0, i);
    lemma_step_fits_text(s, at);
}

} // verus!
