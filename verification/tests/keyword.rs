use teo_language_parser::keyword::{keyword_kind, keyword_kinds, reserved_word};
use teo_language_parser::token::TokenKind;

const KEYWORDS: [(&str, TokenKind); 13] = [
    ("import", TokenKind::Import),
    ("include", TokenKind::Include),
    ("from", TokenKind::From),
    ("let", TokenKind::Let),
    ("var", TokenKind::Var),
    ("enum", TokenKind::Enum),
    ("model", TokenKind::Model),
    ("type", TokenKind::Type),
    ("function", TokenKind::Function),
    ("struct", TokenKind::Struct),
    ("config", TokenKind::Config),
    ("native", TokenKind::Native),
    ("where", TokenKind::Where),
];

const OTHER_KINDS: [TokenKind; 26] = [
    TokenKind::Plus,
    TokenKind::Minus,
    TokenKind::Star,
    TokenKind::Slash,
    TokenKind::Percent,
    TokenKind::Caret,
    TokenKind::Ampersand,
    TokenKind::Pipe,
    TokenKind::Bang,
    TokenKind::Question,
    TokenKind::Period,
    TokenKind::Colon,
    TokenKind::Comma,
    TokenKind::BraceOpen,
    TokenKind::BraceClose,
    TokenKind::ParenOpen,
    TokenKind::ParenClose,
    TokenKind::BracketOpen,
    TokenKind::BracketClose,
    TokenKind::AngleOpen,
    TokenKind::AngleClose,
    TokenKind::Equal,
    TokenKind::Identifier,
    TokenKind::Regex,
    TokenKind::String,
    TokenKind::LineComment,
];

#[test]
fn reserved_word_table_maps_each_keyword_to_its_spelling() {
    for (word, kind) in KEYWORDS {
        assert_eq!(reserved_word(kind), Some(word));
    }
}

#[test]
fn kinds_that_are_no_keywords_have_no_reserved_word() {
    for kind in OTHER_KINDS {
        assert_eq!(reserved_word(kind), None);
    }
}

#[test]
fn keyword_kind_finds_each_reserved_word() {
    for (word, kind) in KEYWORDS {
        assert_eq!(keyword_kind(word.as_bytes()), Some(kind));
    }
}

#[test]
fn keyword_kind_finds_nothing_else() {
    for word in ["", "i", "impor", "imports", "Import", "IMPORT", "models", "user", "let ", " let"] {
        assert_eq!(keyword_kind(word.as_bytes()), None);
    }
}

#[test]
fn table_lookups_are_inverse_to_each_other() {
    for (_, kind) in KEYWORDS {
        let word = reserved_word(kind).unwrap();
        assert_eq!(keyword_kind(word.as_bytes()), Some(kind));
    }
}

#[test]
fn keyword_kinds_lists_every_keyword_once() {
    let kinds = keyword_kinds();
    let expected: Vec<TokenKind> = KEYWORDS.iter().map(|(_, kind)| *kind).collect();
    assert_eq!(kinds.to_vec(), expected);
    for kind in kinds {
        assert!(reserved_word(kind).is_some());
    }
    for kind in OTHER_KINDS {
        assert!(!kinds.contains(&kind));
    }
}

#[test]
fn reserved_words_in_their_listed_order() {
    let words: Vec<&str> =
        keyword_kinds().iter().map(|kind| reserved_word(*kind).unwrap()).collect();
    assert_eq!(
        words,
        vec![
            "import", "include", "from", "let", "var", "enum", "model", "type", "function",
            "struct", "config", "native", "where",
        ]
    );
}
