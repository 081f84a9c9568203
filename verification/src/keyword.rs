//! The reserved words of the language.

use crate::grammar::{is_letter, is_word_byte};
use crate::token::TokenKind;
use vstd::prelude::*;
use vstd::string::{is_ascii_spec_bytes, StringSliceAdditionalSpecFns};

verus! {

/// The spelling of a keyword kind; `None` for every other kind.
pub open spec fn spelling(kind: TokenKind) -> Option<&'static str> {
    match kind {
        TokenKind::Import => Some("import"),
        TokenKind::Include => Some("include"),
        TokenKind::From => Some("from"),
        TokenKind::Let => Some("let"),
        TokenKind::Var => Some("var"),
        TokenKind::Enum => Some("enum"),
        TokenKind::Model => Some("model"),
        TokenKind::Type => Some("type"),
        TokenKind::Function => Some("function"),
        TokenKind::Struct => Some("struct"),
        TokenKind::Config => Some("config"),
        TokenKind::Native => Some("native"),
        TokenKind::Where => Some("where"),
        _ => None,
    }
}

/// The bytes of a text, that is, its UTF-8 encoding. The table is stated
/// over this name, which proofs do not unfold unless they ask for it, so that
/// reasoning about the table does not drag the encoding of each reserved
/// word along.
#[verifier::opaque]
pub open spec fn text_bytes(text: &str) -> Seq<u8> {
    text.spec_bytes()
}

/// Whether the bytes `word` are the spelling of the keyword kind `kind`.
pub open spec fn spells(word: Seq<u8>, kind: TokenKind) -> bool {
    spelling(kind) matches Some(text) && text_bytes(text) == word
}

/// The keyword kind that `word` spells, if it is a reserved word.
pub open spec fn keyword_of(word: Seq<u8>) -> Option<TokenKind> {
    if spells(word, TokenKind::Import) {
        Some(TokenKind::Import)
    } else if spells(word, TokenKind::Include) {
        Some(TokenKind::Include)
    } else if spells(word, TokenKind::From) {
        Some(TokenKind::From)
    } else if spells(word, TokenKind::Let) {
        Some(TokenKind::Let)
    } else if spells(word, TokenKind::Var) {
        Some(TokenKind::Var)
    } else if spells(word, TokenKind::Enum) {
        Some(TokenKind::Enum)
    } else if spells(word, TokenKind::Model) {
        Some(TokenKind::Model)
    } else if spells(word, TokenKind::Type) {
        Some(TokenKind::Type)
    } else if spells(word, TokenKind::Function) {
        Some(TokenKind::Function)
    } else if spells(word, TokenKind::Struct) {
        Some(TokenKind::Struct)
    } else if spells(word, TokenKind::Config) {
        Some(TokenKind::Config)
    } else if spells(word, TokenKind::Native) {
        Some(TokenKind::Native)
    } else if spells(word, TokenKind::Where) {
        Some(TokenKind::Where)
    } else {
        None
    }
}

/// The kind of a word: the keyword that it spells, or an identifier.
pub open spec fn word_kind(word: Seq<u8>) -> TokenKind {
    match keyword_of(word) {
        Some(kind) => kind,
        None => TokenKind::Identifier,
    }
}

/// The reserved word that a keyword kind stands for; `None` for a kind that
/// is not a keyword.
pub fn reserved_word(kind: TokenKind) -> (word: Option<&'static str>)
    ensures
        word == spelling(kind),
{
    match kind {
        TokenKind::Import => Some("import"),
        TokenKind::Include => Some("include"),
        TokenKind::From => Some("from"),
        TokenKind::Let => Some("let"),
        TokenKind::Var => Some("var"),
        TokenKind::Enum => Some("enum"),
        TokenKind::Model => Some("model"),
        TokenKind::Type => Some("type"),
        TokenKind::Function => Some("function"),
        TokenKind::Struct => Some("struct"),
        TokenKind::Config => Some("config"),
        TokenKind::Native => Some("native"),
        TokenKind::Where => Some("where"),
        _ => None,
    }
}

/// The keyword kinds, in the order in which the language lists its reserved
/// words: every kind that has a reserved word, each of them once.
pub fn keyword_kinds() -> (kinds: [TokenKind; 13])
    ensures
        forall|kind: TokenKind| spelling(kind) is Some <==> kinds@.contains(kind),
        kinds@.no_duplicates(),
{
    let kinds = [
        TokenKind::Import,
        TokenKind::Include,
        TokenKind::From,
        TokenKind::Let,
        TokenKind::Var,
        TokenKind::Enum,
        TokenKind::Model,
        TokenKind::Type,
        TokenKind::Function,
        TokenKind::Struct,
        TokenKind::Config,
        TokenKind::Native,
        TokenKind::Where,
    ];
    assert forall|kind: TokenKind| spelling(kind) is Some implies kinds@.contains(kind) by {
        match kind {
            TokenKind::Import => assert(kinds@[0] == kind),
            TokenKind::Include => assert(kinds@[1] == kind),
            TokenKind::From => assert(kinds@[2] == kind),
            TokenKind::Let => assert(kinds@[3] == kind),
            TokenKind::Var => assert(kinds@[4] == kind),
            TokenKind::Enum => assert(kinds@[5] == kind),
            TokenKind::Model => assert(kinds@[6] == kind),
            TokenKind::Type => assert(kinds@[7] == kind),
            TokenKind::Function => assert(kinds@[8] == kind),
            TokenKind::Struct => assert(kinds@[9] == kind),
            TokenKind::Config => assert(kinds@[10] == kind),
            TokenKind::Native => assert(kinds@[11] == kind),
            TokenKind::Where => assert(kinds@[12] == kind),
            _ => {},
        }
    }
    kinds
}

/// Whether two byte slices hold the same bytes.
fn same_bytes(a: &[u8], b: &[u8]) -> (same: bool)
    ensures
        same == (a@ == b@),
{
    if a.len() != b.len() {
        return false;
    }
    let mut i: usize = 0;
    while i < a.len()
        invariant
            a@.len() == b@.len(),
            i <= a@.len(),
            forall|k: int| 0 <= k < i ==> a@[k] == b@[k],
        decreases a@.len() - i,
    {
        if a[i] != b[i] {
            return false;
        }
        i = i + 1;
    }
    assert(a@ =~= b@);
    true
}

/// Whether `word` is the reserved word of the keyword kind `kind`.
fn is_spelling(word: &[u8], kind: TokenKind) -> (same: bool)
    ensures
        same == spells(word@, kind),
{
    proof {
        reveal(text_bytes);
    }
    match reserved_word(kind) {
        Some(text) => same_bytes(word, text.as_bytes()),
        None => false,
    }
}

/// Looks `word` up in the table of reserved words.
pub fn keyword_kind(word: &[u8]) -> (kind: Option<TokenKind>)
    ensures
        kind == keyword_of(word@),
{
    if is_spelling(word, TokenKind::Import) {
        Some(TokenKind::Import)
    } else if is_spelling(word, TokenKind::Include) {
        Some(TokenKind::Include)
    } else if is_spelling(word, TokenKind::From) {
        Some(TokenKind::From)
    } else if is_spelling(word, TokenKind::Let) {
        Some(TokenKind::Let)
    } else if is_spelling(word, TokenKind::Var) {
        Some(TokenKind::Var)
    } else if is_spelling(word, TokenKind::Enum) {
        Some(TokenKind::Enum)
    } else if is_spelling(word, TokenKind::Model) {
        Some(TokenKind::Model)
    } else if is_spelling(word, TokenKind::Type) {
        Some(TokenKind::Type)
    } else if is_spelling(word, TokenKind::Function) {
        Some(TokenKind::Function)
    } else if is_spelling(word, TokenKind::Struct) {
        Some(TokenKind::Struct)
    } else if is_spelling(word, TokenKind::Config) {
        Some(TokenKind::Config)
    } else if is_spelling(word, TokenKind::Native) {
        Some(TokenKind::Native)
    } else if is_spelling(word, TokenKind::Where) {
        Some(TokenKind::Where)
    } else {
        None
    }
}

/// Whether `word` has the shape of a word of the language: a letter,
/// followed by letters, digits, `_` and `-`.
pub open spec fn is_word(word: Seq<u8>) -> bool {
    &&& word.len() > 0
    &&& is_letter(word[0])
    &&& forall|k: int| 0 < k < word.len() ==> is_word_byte(#[trigger] word[k])
}

/// Whether `word` has the shape of a word and has `len` bytes, the first two
/// of which are `first` and `second`.
spec fn is_spelt(word: Seq<u8>, len: nat, first: u8, second: u8) -> bool {
    is_word(word) && word.len() == len && word[0] == first && word[1] == second
}

/// Each reserved word has the shape of a word. No two reserved words agree in
/// their length and their first two bytes.
proof fn lemma_spellings()
    ensures
        is_spelt(text_bytes("import"), 6, 'i' as u8, 'm' as u8),
        is_spelt(text_bytes("include"), 7, 'i' as u8, 'n' as u8),
        is_spelt(text_bytes("from"), 4, 'f' as u8, 'r' as u8),
        is_spelt(text_bytes("let"), 3, 'l' as u8, 'e' as u8),
        is_spelt(text_bytes("var"), 3, 'v' as u8, 'a' as u8),
        is_spelt(text_bytes("enum"), 4, 'e' as u8, 'n' as u8),
        is_spelt(text_bytes("model"), 5, 'm' as u8, 'o' as u8),
        is_spelt(text_bytes("type"), 4, 't' as u8, 'y' as u8),
        is_spelt(text_bytes("function"), 8, 'f' as u8, 'u' as u8),
        is_spelt(text_bytes("struct"), 6, 's' as u8, 't' as u8),
        is_spelt(text_bytes("config"), 6, 'c' as u8, 'o' as u8),
        is_spelt(text_bytes("native"), 6, 'n' as u8, 'a' as u8),
        is_spelt(text_bytes("where"), 5, 'w' as u8, 'h' as u8),
{
    assert(is_spelt(text_bytes("import"), 6, 'i' as u8, 'm' as u8)) by {
        reveal(text_bytes);
        reveal_strlit("import");
        is_ascii_spec_bytes("import");
    }
    assert(is_spelt(text_bytes("include"), 7, 'i' as u8, 'n' as u8)) by {
        reveal(text_bytes);
        reveal_strlit("include");
        is_ascii_spec_bytes("include");
    }
    assert(is_spelt(text_bytes("from"), 4, 'f' as u8, 'r' as u8)) by {
        reveal(text_bytes);
        reveal_strlit("from");
        is_ascii_spec_bytes("from");
    }
    assert(is_spelt(text_bytes("let"), 3, 'l' as u8, 'e' as u8)) by {
        reveal(text_bytes);
        reveal_strlit("let");
        is_ascii_spec_bytes("let");
    }
    assert(is_spelt(text_bytes("var"), 3, 'v' as u8, 'a' as u8)) by {
        reveal(text_bytes);
        reveal_strlit("var");
        is_ascii_spec_bytes("var");
    }
    assert(is_spelt(text_bytes("enum"), 4, 'e' as u8, 'n' as u8)) by {
        reveal(text_bytes);
        reveal_strlit("enum");
        is_ascii_spec_bytes("enum");
    }
    assert(is_spelt(text_bytes("model"), 5, 'm' as u8, 'o' as u8)) by {
        reveal(text_bytes);
        reveal_strlit("model");
        is_ascii_spec_bytes("model");
    }
    assert(is_spelt(text_bytes("type"), 4, 't' as u8, 'y' as u8)) by {
        reveal(text_bytes);
        reveal_strlit("type");
        is_ascii_spec_bytes("type");
    }
    assert(is_spelt(text_bytes("function"), 8, 'f' as u8, 'u' as u8)) by {
        reveal(text_bytes);
        reveal_strlit("function");
        is_ascii_spec_bytes("function");
    }
    assert(is_spelt(text_bytes("struct"), 6, 's' as u8, 't' as u8)) by {
        reveal(text_bytes);
        reveal_strlit("struct");
        is_ascii_spec_bytes("struct");
    }
    assert(is_spelt(text_bytes("config"), 6, 'c' as u8, 'o' as u8)) by {
        reveal(text_bytes);
        reveal_strlit("config");
        is_ascii_spec_bytes("config");
    }
    assert(is_spelt(text_bytes("native"), 6, 'n' as u8, 'a' as u8)) by {
        reveal(text_bytes);
        reveal_strlit("native");
        is_ascii_spec_bytes("native");
    }
    assert(is_spelt(text_bytes("where"), 5, 'w' as u8, 'h' as u8)) by {
        reveal(text_bytes);
        reveal_strlit("where");
        is_ascii_spec_bytes("where");
    }
}

/// A reserved word as text and as bytes: every reserved word has the shape of
/// a word, and the table leads from its bytes back to its own kind.
pub proof fn lemma_spelling_is_word(kind: TokenKind)
    requires
        spelling(kind) is Some,
    ensures
        spells(spelling(kind)->0.spec_bytes(), kind),
        is_word(spelling(kind)->0.spec_bytes()),
        3 <= spelling(kind)->0.spec_bytes().len() <= 8,
        keyword_of(spelling(kind)->0.spec_bytes()) == Some(kind),
{
    lemma_spellings();
    assert(text_bytes(spelling(kind)->0) == spelling(kind)->0.spec_bytes()) by {
        reveal(text_bytes);
    }
}

/// The table of reserved words is one to one: it finds a kind for a word
/// exactly when the word is the spelling of that kind.
pub proof fn lemma_keyword_of_spells(word: Seq<u8>, kind: TokenKind)
    ensures
        keyword_of(word) == Some(kind) <==> spells(word, kind),
{
    lemma_spellings();
}

/// A reserved word with one more byte behind it is no reserved word.
pub proof fn lemma_longer_word_is_not_reserved(kind: TokenKind, tail: u8)
    requires
        spelling(kind) is Some,
    ensures
        keyword_of(spelling(kind)->0.spec_bytes().push(tail)) is None,
{
    lemma_spellings();
    let word = text_bytes(spelling(kind)->0);
    assert(word == spelling(kind)->0.spec_bytes()) by {
        reveal(text_bytes);
    }
    let longer = word.push(tail);
    assert(longer.len() == word.len() + 1);
    assert(longer[0] == word[0]);
    assert(longer[1] == word[1]);
}

} // verus!
