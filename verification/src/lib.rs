//! A tokenizer for a small schema language of models, enums, structs,
//! config blocks and imports, together with the file-system utility that
//! loading and importing source files goes through.
//!
//! * [`token`] has the data: token kinds, spans, tokens and failures.
//! * [`keyword`] has the table of reserved words.
//! * [`grammar`] says, as a function on byte sequences, what a scan of a
//!   buffer yields.
//! * [`lexer`] has the tokenizer itself, which is proved to compute just
//!   that.
//! * [`theorems`] has what follows for every scan: a buffer of whitespace
//!   holds no token, reserved words are keywords and longer words are not,
//!   the tokens of a scan, with the whitespace between them, account for
//!   every byte of the buffer, and in UTF-8 text no token cuts a character
//!   in two.
//! * [`fsutil`] has the file-system utility and the default path functions.
//!
//! The tokenizer never looks at anything but its buffer, and it reports
//! positions as byte offsets only.

pub mod fsutil;
pub mod grammar;
pub mod keyword;
pub mod lexer;
pub mod theorems;
pub mod token;
