//! The tokenizer: a cursor over a source buffer that hands out one token per
//! call, and a function that collects a whole scan.

use crate::grammar::{
    cursor_after, is_letter, is_whitespace, is_word_byte, lemma_step_advances, lex, lex_from,
    next_step, next_stop, outcome_at, punctuation_kind, stops, Lexed, Stop,
};
use crate::keyword::keyword_kind;
use crate::token::{LexError, Span, Token, TokenKind};
use vstd::prelude::*;
use vstd::slice::slice_subrange;
use vstd::string::StringSliceAdditionalSpecFns;

verus! {

fn whitespace(b: u8) -> (yes: bool)
    ensures
        yes == is_whitespace(b),
{
    b == ' ' as u8 || b == '\t' as u8 || b == '\n' as u8 || b == 0x0c
}

fn letter(b: u8) -> (yes: bool)
    ensures
        yes == is_letter(b),
{
    ('a' as u8 <= b && b <= 'z' as u8) || ('A' as u8 <= b && b <= 'Z' as u8)
}

fn word_byte(b: u8) -> (yes: bool)
    ensures
        yes == is_word_byte(b),
{
    letter(b) || ('0' as u8 <= b && b <= '9' as u8) || b == '_' as u8 || b == '-' as u8
}

fn punctuation(b: u8) -> (kind: Option<TokenKind>)
    ensures
        kind == punctuation_kind(b),
{
    if b == '+' as u8 {
        Some(TokenKind::Plus)
    } else if b == '-' as u8 {
        Some(TokenKind::Minus)
    } else if b == '*' as u8 {
        Some(TokenKind::Star)
    } else if b == '/' as u8 {
        Some(TokenKind::Slash)
    } else if b == '%' as u8 {
        Some(TokenKind::Percent)
    } else if b == '^' as u8 {
        Some(TokenKind::Caret)
    } else if b == '&' as u8 {
        Some(TokenKind::Ampersand)
    } else if b == '|' as u8 {
        Some(TokenKind::Pipe)
    } else if b == '!' as u8 {
        Some(TokenKind::Bang)
    } else if b == '?' as u8 {
        Some(TokenKind::Question)
    } else if b == '.' as u8 {
        Some(TokenKind::Period)
    } else if b == ':' as u8 {
        Some(TokenKind::Colon)
    } else if b == ',' as u8 {
        Some(TokenKind::Comma)
    } else if b == '{' as u8 {
        Some(TokenKind::BraceOpen)
    } else if b == '}' as u8 {
        Some(TokenKind::BraceClose)
    } else if b == '(' as u8 {
        Some(TokenKind::ParenOpen)
    } else if b == ')' as u8 {
        Some(TokenKind::ParenClose)
    } else if b == '[' as u8 {
        Some(TokenKind::BracketOpen)
    } else if b == ']' as u8 {
        Some(TokenKind::BracketClose)
    } else if b == '<' as u8 {
        Some(TokenKind::AngleOpen)
    } else if b == '>' as u8 {
        Some(TokenKind::AngleClose)
    } else if b == '=' as u8 {
        Some(TokenKind::Equal)
    } else {
        None
    }
}

fn stops_at(source: &[u8], at: usize, stop: Stop) -> (yes: bool)
    requires
        at < source@.len(),
        stop is ClosingQuote ==> at >= 1,
    ensures
        yes == stops(stop, source@, at as int),
{
    let b = source[at];
    match stop {
        Stop::NonWhitespace => !whitespace(b),
        Stop::NonWord => !word_byte(b),
        Stop::Newline => b == '\n' as u8,
        Stop::ClosingQuote => b == '"' as u8 && source[at - 1] != '\\' as u8,
        Stop::SlashOrNewline => b == '/' as u8 || b == '\n' as u8,
        Stop::NonSlash => b != '/' as u8,
    }
}

fn find_stop(source: &[u8], from: usize, stop: Stop) -> (at: usize)
    requires
        from <= source@.len(),
        stop is ClosingQuote ==> from >= 1,
    ensures
        at == next_stop(source@, from as int, stop),
        from <= at <= source@.len(),
{
    let mut at = from;
    while at < source.len() && !stops_at(source, at, stop)
        invariant
            from <= at <= source@.len(),
            stop is ClosingQuote ==> from >= 1,
            next_stop(source@, from as int, stop) == next_stop(source@, at as int, stop),
        decreases source@.len() - at,
    {
        at = at + 1;
    }
    at
}

fn token(kind: TokenKind, start: usize, end: usize) -> (token: Token)
    ensures
        token == (Token { kind, span: Span { start, end } }),
{
    Token { kind, span: Span { start, end } }
}

fn scan_slash(source: &[u8], at: usize) -> (outcome: Result<Token, LexError>)
    requires
        at < source@.len(),
        source@[at as int] == '/' as u8,
    ensures
        outcome == outcome_at(source@, at as int),
{
    let len = source.len();
    if at + 1 < len && source[at + 1] == '/' as u8 {
        Ok(token(TokenKind::LineComment, at, find_stop(source, at + 2, Stop::Newline)))
    } else {
        let body_end = find_stop(source, at + 1, Stop::SlashOrNewline);
        if body_end < len && source[body_end] == '/' as u8 {
            Ok(token(TokenKind::Regex, at, find_stop(source, body_end, Stop::NonSlash)))
        } else {
            Ok(token(TokenKind::Slash, at, at + 1))
        }
    }
}

fn scan(source: &[u8], at: usize) -> (outcome: Result<Token, LexError>)
    requires
        at < source@.len(),
    ensures
        outcome == outcome_at(source@, at as int),
{
    let b = source[at];
    if b == '/' as u8 {
        return scan_slash(source, at);
    }
    if let Some(kind) = punctuation(b) {
        return Ok(token(kind, at, at + 1));
    }
    if letter(b) {
        let end = find_stop(source, at + 1, Stop::NonWord);
        let kind = match keyword_kind(slice_subrange(source, at, end)) {
            Some(keyword) => keyword,
            None => TokenKind::Identifier,
        };
        return Ok(token(kind, at, end));
    }
    if b == '"' as u8 {
        let close = find_stop(source, at + 1, Stop::ClosingQuote);
        if close < source.len() {
            return Ok(token(TokenKind::String, at, close + 1));
        }
        return Err(LexError::UnterminatedString { start_offset: at });
    }
    Err(LexError::UnrecognizedCharacter { offset: at })
}

/// A cursor over a source buffer. Each call of [`Lexer::next_token`] hands
/// out the next token; tokens already handed out are not kept.
pub struct Lexer<'a> {
    source: &'a [u8],
    cursor: usize,
}

impl<'a> Lexer<'a> {
    #[verifier::type_invariant]
    spec fn cursor_in_source(self) -> bool {
        self.cursor <= self.source@.len()
    }

    /// The bytes of the buffer that is scanned.
    pub closed spec fn source(&self) -> Seq<u8> {
        self.source@
    }

    /// The offset up to which the buffer has been consumed.
    pub closed spec fn cursor(&self) -> int {
        self.cursor as int
    }

    /// What is still to come: the outcome of scanning the rest of the buffer.
    pub open spec fn pending(&self) -> Lexed {
        lex_from(self.source(), self.cursor())
    }

    /// A lexer at the start of the text `source`.
    pub fn new(source: &'a str) -> (lexer: Self)
        ensures
            lexer.source() == source.spec_bytes(),
            lexer.cursor() == 0,
    {
        Lexer { source: source.as_bytes(), cursor: 0 }
    }

    /// A lexer at the start of the bytes `source`.
    pub fn from_bytes(source: &'a [u8]) -> (lexer: Self)
        ensures
            lexer.source() == source@,
            lexer.cursor() == 0,
    {
        Lexer { source, cursor: 0 }
    }

    /// The offset up to which the buffer has been consumed.
    pub fn offset(&self) -> (offset: usize)
        ensures
            offset == self.cursor(),
            offset <= self.source().len(),
    {
        proof {
            use_type_invariant(self);
        }
        self.cursor
    }

    /// Skips whitespace and hands out what follows: `Some(Ok(token))` for the
    /// next token, `Some(Err(failure))` where no token can be made of the
    /// text, and `None` at the end of the buffer. A token leaves the cursor
    /// directly behind it. A failure ends the scan: it leaves the cursor at
    /// the end of the buffer, so that every later call returns `None`.
    pub fn next_token(&mut self) -> (step: Option<Result<Token, LexError>>)
        ensures
            final(self).source() == old(self).source(),
            step == next_step(old(self).source(), old(self).cursor()),
            final(self).cursor() == cursor_after(old(self).source(), old(self).cursor()),
            old(self).cursor() <= final(self).cursor() <= final(self).source().len(),
            step matches Some(Ok(token)) ==> old(self).pending().tokens == seq![token]
                + final(self).pending().tokens,
            step matches Some(Ok(token)) ==> old(self).pending().failure
                == final(self).pending().failure,
            step matches Some(Err(failure)) ==> old(self).pending() == (Lexed {
                tokens: Seq::empty(),
                failure: Some(failure),
            }),
            step is None ==> old(self).pending() == (Lexed { tokens: Seq::empty(), failure: None }),
    {
        proof {
            use_type_invariant(&*self);
            lemma_step_advances(self.source@, self.cursor as int);
        }
        let source = self.source;
        let start = find_stop(source, self.cursor, Stop::NonWhitespace);
        if start >= source.len() {
            self.cursor = source.len();
            return None;
        }
        let outcome = scan(source, start);
        match outcome {
            Ok(token) => {
                self.cursor = token.span.end;
            },
            Err(_) => {
                self.cursor = source.len();
            },
        }
        Some(outcome)
    }
}

/// Scans the whole of `source`. The result is `Ok` with every token, in the
/// order of their offsets, when the scan reaches the end of the buffer, and
/// `Err` with the failure that ended it otherwise.
pub fn tokenize_bytes(source: &[u8]) -> (result: Result<Vec<Token>, LexError>)
    ensures
        match result {
            Ok(tokens) => lex(source@) == (Lexed { tokens: tokens@, failure: None }),
            Err(failure) => lex(source@).failure == Some(failure),
        },
{
    let mut lexer = Lexer::from_bytes(source);
    let mut tokens: Vec<Token> = Vec::new();
    loop
        invariant
            lexer.source() == source@,
            0 <= lexer.cursor() <= source@.len(),
            lex(source@).tokens == tokens@ + lexer.pending().tokens,
            lex(source@).failure == lexer.pending().failure,
        decreases source@.len() - lexer.cursor(),
    {
        proof {
            lemma_step_advances(source@, lexer.cursor());
        }
        match lexer.next_token() {
            None => {
                return Ok(tokens);
            },
            Some(Err(failure)) => {
                return Err(failure);
            },
            Some(Ok(token)) => {
                tokens.push(token);
            },
        }
    }
}

/// Scans the whole of the text `source`; offsets count the bytes of its
/// UTF-8 encoding. See [`tokenize_bytes`].
pub fn tokenize(source: &str) -> (result: Result<Vec<Token>, LexError>)
    ensures
        match result {
            Ok(tokens) => lex(source.spec_bytes()) == (Lexed { tokens: tokens@, failure: None }),
            Err(failure) => lex(source.spec_bytes()).failure == Some(failure),
        },
{
    tokenize_bytes(source.as_bytes())
}

} // verus!
