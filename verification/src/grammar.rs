//! The lexical grammar, as a mathematical description of what a scan of a
//! byte sequence yields.
//!
//! A scan skips whitespace, then looks at the first byte of what follows:
//!
//! * `/` is resolved by looking ahead, see [`slash_at`];
//! * any other punctuation byte is a token of one byte;
//! * a letter begins a word, which runs as far as word bytes go and is a
//!   keyword when it spells a reserved word and an identifier otherwise;
//! * `"` begins a string literal, which must be closed;
//! * every other byte is unrecognized.
//!
//! Offsets count bytes. In UTF-8 text every byte of a character outside ASCII
//! is at least `0x80`, so such characters pass through string literals, regex
//! literals and comments untouched and are unrecognized elsewhere.

use crate::keyword::word_kind;
use crate::token::{LexError, Span, Token, TokenKind};
use vstd::prelude::*;

verus! {

/// Space, tab, newline and form feed separate tokens and are never part of one.
pub open spec fn is_whitespace(b: u8) -> bool {
    b == ' ' as u8 || b == '\t' as u8 || b == '\n' as u8 || b == 0x0c
}

/// An ASCII letter: the only bytes that can begin a word.
pub open spec fn is_letter(b: u8) -> bool {
    ('a' as u8 <= b <= 'z' as u8) || ('A' as u8 <= b <= 'Z' as u8)
}

/// A byte that can continue a word: a letter, a digit, `_` or `-`.
pub open spec fn is_word_byte(b: u8) -> bool {
    is_letter(b) || ('0' as u8 <= b <= '9' as u8) || b == '_' as u8 || b == '-' as u8
}

/// The operator or punctuation kind that a single byte spells, if any.
pub open spec fn punctuation_kind(b: u8) -> Option<TokenKind> {
    if b == '+' as u8 {
        Some(TokenKind::Plus)
    } else if b == '-' as u8 {
        Some(TokenKind::Minus)
    } else if b == '*' as u8 {
        Some(TokenKind::Star)
    } else if b == '/' as u8 {
        Some(TokenKind::Slash)
    } else if b == '%' as u8 {
        Some(TokenKind::Percent)
    } else if b == '^' as u8 {
        Some(TokenKind::Caret)
    } else if b == '&' as u8 {
        Some(TokenKind::Ampersand)
    } else if b == '|' as u8 {
        Some(TokenKind::Pipe)
    } else if b == '!' as u8 {
        Some(TokenKind::Bang)
    } else if b == '?' as u8 {
        Some(TokenKind::Question)
    } else if b == '.' as u8 {
        Some(TokenKind::Period)
    } else if b == ':' as u8 {
        Some(TokenKind::Colon)
    } else if b == ',' as u8 {
        Some(TokenKind::Comma)
    } else if b == '{' as u8 {
        Some(TokenKind::BraceOpen)
    } else if b == '}' as u8 {
        Some(TokenKind::BraceClose)
    } else if b == '(' as u8 {
        Some(TokenKind::ParenOpen)
    } else if b == ')' as u8 {
        Some(TokenKind::ParenClose)
    } else if b == '[' as u8 {
        Some(TokenKind::BracketOpen)
    } else if b == ']' as u8 {
        Some(TokenKind::BracketClose)
    } else if b == '<' as u8 {
        Some(TokenKind::AngleOpen)
    } else if b == '>' as u8 {
        Some(TokenKind::AngleClose)
    } else if b == '=' as u8 {
        Some(TokenKind::Equal)
    } else {
        None
    }
}

/// The places at which a run of bytes ends. Each rule of the grammar that
/// consumes a run names the first offset that no longer belongs to it.
#[derive(Clone, Copy, Debug, PartialEq, Eq, Structural)]
pub enum Stop {
    /// A byte that is not whitespace.
    NonWhitespace,
    /// A byte that cannot continue a word.
    NonWord,
    /// A newline.
    Newline,
    /// A `"` that no backslash stands directly in front of.
    ClosingQuote,
    /// A `/` or a newline.
    SlashOrNewline,
    /// A byte other than `/`.
    NonSlash,
}

/// Whether offset `at` of `s` is a place of the kind `stop`.
pub open spec fn stops(stop: Stop, s: Seq<u8>, at: int) -> bool {
    match stop {
        Stop::NonWhitespace => !is_whitespace(s[at]),
        Stop::NonWord => !is_word_byte(s[at]),
        Stop::Newline => s[at] == '\n' as u8,
        Stop::ClosingQuote => s[at] == '"' as u8 && s[at - 1] != '\\' as u8,
        Stop::SlashOrNewline => s[at] == '/' as u8 || s[at] == '\n' as u8,
        Stop::NonSlash => s[at] != '/' as u8,
    }
}

/// The first offset at or after `from` that is a place of the kind `stop`,
/// or the length of `s` when there is none.
pub open spec fn next_stop(s: Seq<u8>, from: int, stop: Stop) -> int
    decreases s.len() - from,
{
    if from >= s.len() {
        s.len() as int
    } else if stops(stop, s, from) {
        from
    } else {
        next_stop(s, from + 1, stop)
    }
}

/// What the rules make of the text that begins at one offset.
pub enum Scan {
    /// A token of the given kind that ends before offset `end`.
    Token { kind: TokenKind, end: int },
    /// A string literal that is still open where the buffer ends.
    UnterminatedString,
    /// Text that no rule matches.
    UnrecognizedCharacter,
}

/// What a `/` at offset `at` begins. Three rules compete for this byte, and
/// the longest match wins:
///
/// * `//` opens a line comment, which runs up to the next newline or to the
///   end of the buffer;
/// * otherwise, when another `/` follows later on the same line, the text up
///   to it is a regex literal, which closes with the first `/` that is not
///   itself directly followed by another `/`;
/// * otherwise the `/` stands alone as the division operator.
pub open spec fn slash_at(s: Seq<u8>, at: int) -> Scan {
    if at + 1 < s.len() && s[at + 1] == '/' as u8 {
        Scan::Token { kind: TokenKind::LineComment, end: next_stop(s, at + 2, Stop::Newline) }
    } else {
        let body_end = next_stop(s, at + 1, Stop::SlashOrNewline);
        if body_end < s.len() && s[body_end] == '/' as u8 {
            Scan::Token { kind: TokenKind::Regex, end: next_stop(s, body_end, Stop::NonSlash) }
        } else {
            Scan::Token { kind: TokenKind::Slash, end: at + 1 }
        }
    }
}

/// What the word that begins with the letter at offset `at` is: a keyword if
/// the whole word spells one, an identifier otherwise.
pub open spec fn word_at(s: Seq<u8>, at: int) -> Scan {
    let end = next_stop(s, at + 1, Stop::NonWord);
    Scan::Token { kind: word_kind(s.subrange(at, end)), end }
}

/// What the `"` at offset `at` begins: a string literal that runs through the
/// first later `"` that is not escaped by a backslash directly in front of
/// it, or a failure when the buffer holds no such `"`.
pub open spec fn string_at(s: Seq<u8>, at: int) -> Scan {
    let close = next_stop(s, at + 1, Stop::ClosingQuote);
    if close < s.len() {
        Scan::Token { kind: TokenKind::String, end: close + 1 }
    } else {
        Scan::UnterminatedString
    }
}

/// What the rules make of the text at offset `at`, which holds a byte that
/// is not whitespace.
pub open spec fn scan_at(s: Seq<u8>, at: int) -> Scan
    recommends
        0 <= at < s.len(),
{
    let b = s[at];
    if b == '/' as u8 {
        slash_at(s, at)
    } else if punctuation_kind(b) is Some {
        Scan::Token { kind: punctuation_kind(b)->0, end: at + 1 }
    } else if is_letter(b) {
        word_at(s, at)
    } else if b == '"' as u8 {
        string_at(s, at)
    } else {
        Scan::UnrecognizedCharacter
    }
}

/// The offset at which the next token or failure after `cursor` begins: the
/// end of the whitespace at `cursor`.
pub open spec fn token_start(s: Seq<u8>, cursor: int) -> int {
    next_stop(s, cursor, Stop::NonWhitespace)
}

/// The token or the failure that the text at offset `start` amounts to.
pub open spec fn outcome_at(s: Seq<u8>, start: int) -> Result<Token, LexError> {
    match scan_at(s, start) {
        Scan::Token { kind, end } => Ok(
            Token { kind, span: Span { start: start as usize, end: end as usize } },
        ),
        Scan::UnterminatedString => Err(
            LexError::UnterminatedString { start_offset: start as usize },
        ),
        Scan::UnrecognizedCharacter => Err(
            LexError::UnrecognizedCharacter { offset: start as usize },
        ),
    }
}

/// What a consumer that has read up to `cursor` is handed next: a token, a
/// failure, or `None` when only whitespace is left.
pub open spec fn next_step(s: Seq<u8>, cursor: int) -> Option<Result<Token, LexError>> {
    let start = token_start(s, cursor);
    if start >= s.len() {
        None
    } else {
        Some(outcome_at(s, start))
    }
}

/// Where the consumer stands after that step: behind the token, or at the
/// end of the buffer once the scan is over, whether it ended in a failure or
/// ran out of text.
pub open spec fn cursor_after(s: Seq<u8>, cursor: int) -> int {
    let start = token_start(s, cursor);
    if start >= s.len() {
        s.len() as int
    } else {
        match scan_at(s, start) {
            Scan::Token { kind, end } => end,
            _ => s.len() as int,
        }
    }
}

/// The outcome of a whole scan: the tokens in the order of their offsets and,
/// where the scan failed, the failure that ended it.
pub struct Lexed {
    pub tokens: Seq<Token>,
    pub failure: Option<LexError>,
}

/// The outcome of scanning `s` from `cursor` on.
pub open spec fn lex_from(s: Seq<u8>, cursor: int) -> Lexed
    decreases s.len() - cursor,
{
    match next_step(s, cursor) {
        None => Lexed { tokens: Seq::empty(), failure: None },
        Some(Err(failure)) => Lexed { tokens: Seq::empty(), failure: Some(failure) },
        Some(Ok(token)) => {
            proof {
                lemma_step_advances(s, cursor);
            }
            let rest = lex_from(s, cursor_after(s, cursor));
            Lexed { tokens: seq![token] + rest.tokens, failure: rest.failure }
        },
    }
}

/// The outcome of scanning the whole of `s`.
pub open spec fn lex(s: Seq<u8>) -> Lexed {
    lex_from(s, 0)
}

/// `next_stop` lies between `from` and the end, is a stop unless it is the
/// end, and no offset before it is one.
pub proof fn lemma_next_stop(s: Seq<u8>, from: int, stop: Stop)
    requires
        from <= s.len(),
    ensures
        from <= next_stop(s, from, stop) <= s.len(),
        next_stop(s, from, stop) < s.len() ==> stops(stop, s, next_stop(s, from, stop)),
        forall|k: int| from <= k < next_stop(s, from, stop) ==> !#[trigger] stops(stop, s, k),
    decreases s.len() - from,
{
    if from < s.len() && !stops(stop, s, from) {
        lemma_next_stop(s, from + 1, stop);
    }
}

/// An offset with no stop before it that is itself a stop, or the end, is
/// the next stop.
pub proof fn lemma_next_stop_is(s: Seq<u8>, from: int, stop: Stop, at: int)
    requires
        from <= at <= s.len(),
        forall|k: int| from <= k < at ==> !#[trigger] stops(stop, s, k),
        at < s.len() ==> stops(stop, s, at),
    ensures
        next_stop(s, from, stop) == at,
    decreases at - from,
{
    if from < at {
        lemma_next_stop_is(s, from + 1, stop, at);
    }
}

/// Every token ends behind the offset at which it begins, and inside the
/// buffer.
pub proof fn lemma_token_is_not_empty(s: Seq<u8>, at: int)
    requires
        at < s.len(),
    ensures
        scan_at(s, at) matches Scan::Token { kind, end } ==> at < end <= s.len(),
{
    lemma_next_stop(s, at + 1, Stop::NonWord);
    lemma_next_stop(s, at + 1, Stop::ClosingQuote);
    lemma_next_stop(s, at + 1, Stop::SlashOrNewline);
    if at + 1 < s.len() {
        lemma_next_stop(s, at + 2, Stop::Newline);
    }
    let body_end = next_stop(s, at + 1, Stop::SlashOrNewline);
    if body_end < s.len() {
        lemma_next_stop(s, body_end, Stop::NonSlash);
    }
}

/// A step never moves the cursor back, and a step that yields a token moves
/// it forward.
pub proof fn lemma_step_advances(s: Seq<u8>, cursor: int)
    requires
        cursor <= s.len(),
    ensures
        cursor <= token_start(s, cursor) <= cursor_after(s, cursor) <= s.len(),
        next_step(s, cursor) matches Some(Ok(token)) ==> token_start(s, cursor) < cursor_after(
            s,
            cursor,
        ),
{
    lemma_next_stop(s, cursor, Stop::NonWhitespace);
    let start = token_start(s, cursor);
    if start < s.len() {
        lemma_token_is_not_empty(s, start);
    }
}

} // verus!
