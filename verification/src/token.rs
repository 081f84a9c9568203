//! Tokens: their kinds, their positions, and the ways a scan can fail.

use vstd::prelude::*;
use vstd::string::StringSliceAdditionalSpecFns;
use vstd::utf8::{
    encode_utf8_valid_utf8, is_char_boundary, is_char_boundary_iff_not_is_continuation_byte,
    is_char_boundary_start_end_of_seq,
};

verus! {

/// The closed set of token classes of the language.
#[derive(Clone, Copy, Debug, PartialEq, Eq, Structural)]
pub enum TokenKind {
    Import,
    Include,
    From,
    Let,
    Var,
    Enum,
    Model,
    Type,
    Function,
    Struct,
    Config,
    Native,
    Where,
    Plus,
    Minus,
    Star,
    Slash,
    Percent,
    Caret,
    Ampersand,
    Pipe,
    Bang,
    Question,
    Period,
    Colon,
    Comma,
    BraceOpen,
    BraceClose,
    ParenOpen,
    ParenClose,
    BracketOpen,
    BracketClose,
    AngleOpen,
    AngleClose,
    Equal,
    Identifier,
    Regex,
    String,
    LineComment,
}

/// A half-open range `[start, end)` of byte offsets into a source buffer.
#[derive(Clone, Copy, Debug, PartialEq, Eq, Structural)]
pub struct Span {
    pub start: usize,
    pub end: usize,
}

/// A classified stretch of source text. It holds no text of its own: the
/// span says where in the buffer the text lies.
#[derive(Clone, Copy, Debug, PartialEq, Eq, Structural)]
pub struct Token {
    pub kind: TokenKind,
    pub span: Span,
}

/// Why a scan stopped before the end of the buffer.
#[derive(Clone, Copy, Debug, PartialEq, Eq, Structural)]
pub enum LexError {
    /// No rule matches the text at `offset`.
    UnrecognizedCharacter { offset: usize },
    /// The string literal opened at `start_offset` is never closed.
    UnterminatedString { start_offset: usize },
}

impl Span {
    /// Whether the span lies inside a buffer of `len` bytes.
    pub open spec fn fits(&self, len: nat) -> bool {
        self.start <= self.end <= len
    }

    /// Whether the span lies inside the UTF-8 text `bytes` and both of its
    /// ends fall between two characters.
    pub open spec fn fits_text(&self, bytes: Seq<u8>) -> bool {
        &&& self.fits(bytes.len())
        &&& is_char_boundary(bytes, self.start as int)
        &&& is_char_boundary(bytes, self.end as int)
    }

    /// The bytes of `source` that the span covers, or `None` when the span
    /// does not lie inside `source`.
    pub fn slice<'a>(&self, source: &'a [u8]) -> (text: Option<&'a [u8]>)
        ensures
            match text {
                Some(t) => self.fits(source@.len()) && t@ == source@.subrange(
                    self.start as int,
                    self.end as int,
                ),
                None => !self.fits(source@.len()),
            },
    {
        if self.start <= self.end && self.end <= source.len() {
            Some(vstd::slice::slice_subrange(source, self.start, self.end))
        } else {
            None
        }
    }

    /// The part of the text `source` that the span covers, or `None` when
    /// the span does not lie inside `source` or cuts a character in two.
    pub fn text<'a>(&self, source: &'a str) -> (text: Option<&'a str>)
        ensures
            match text {
                Some(t) => self.fits_text(source.spec_bytes()) && t.spec_bytes()
                    == source.spec_bytes().subrange(self.start as int, self.end as int),
                None => !self.fits_text(source.spec_bytes()),
            },
    {
        let len = source.as_bytes().len();
        if self.start <= self.end && self.end <= len && source.is_char_boundary(self.start)
            && source.is_char_boundary(self.end) {
            let (head, _) = source.split_at(self.end);
            proof {
                let bytes = source.spec_bytes();
                let kept = head.spec_bytes();
                encode_utf8_valid_utf8(source@);
                encode_utf8_valid_utf8(head@);
                if self.start < self.end {
                    is_char_boundary_iff_not_is_continuation_byte(bytes, self.start as int);
                    is_char_boundary_iff_not_is_continuation_byte(kept, self.start as int);
                } else {
                    is_char_boundary_start_end_of_seq(kept);
                }
            }
            let (_, text) = head.split_at(self.start);
            assert(text.spec_bytes() =~= source.spec_bytes().subrange(
                self.start as int,
                self.end as int,
            ));
            Some(text)
        } else {
            None
        }
    }
}

impl LexError {
    /// The byte offset at which the failing text begins.
    pub open spec fn spec_offset(&self) -> usize {
        match *self {
            LexError::UnrecognizedCharacter { offset } => offset,
            LexError::UnterminatedString { start_offset } => start_offset,
        }
    }

    /// The byte offset at which the failing text begins.
    #[verifier::when_used_as_spec(spec_offset)]
    pub fn offset(&self) -> (offset: usize)
        ensures
            offset == self.spec_offset(),
    {
        match *self {
            LexError::UnrecognizedCharacter { offset } => offset,
            LexError::UnterminatedString { start_offset } => start_offset,
        }
    }
}

} // verus!
