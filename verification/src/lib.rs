//! A front end for a small declaration language: a tokenizer and a
//! precedence-climbing parser that builds an abstract syntax tree.
//!
//! ```text
//! let total = 1 + 2 * 3;
//! const half = 10 / 4;
//! ```
//!
//! A [`lexer::Lexer`] hands out the tokens of a source text one at a time; a
//! [`parser::Parser`] draws them, with one token of lookahead, and builds the
//! statements. Every function is verified against a specification over
//! sequences of characters and of tokens: [`scan`] says what the tokenizer
//! yields, [`grammar`] what the parser builds from it.
//!
//! The fixed policies of this front end:
//!
//! * At the end of the source the tokenizer has no token; it makes none up.
//!   A statement that lacks its `;` is therefore an error.
//! * A character that begins no token is an error with that character and
//!   its position. It is not skipped.
//! * A statement begins with `let` or `const`; any other token in that place
//!   is an error.
//! * A string literal that is not closed ends with the source. A backslash
//!   in it is dropped and the character behind it kept as it stands.
//! * A number is kept as the text that was found to be a decimal number; no
//!   arithmetic is done on it here.
//! * The first error ends the pass. No part of a program comes with it.
//!
//! What holds of all sources is proved in [`alphabet`], [`unparse`],
//! [`layout`] and [`reparse`]: which characters a source that parses can
//! hold, that a program written out parses to itself, and that whitespace
//! serves to part tokens and for nothing else.

pub mod alphabet;
pub mod ast;
pub mod chars;
pub mod error;
pub mod grammar;
pub mod layout;
pub mod lexer;
pub mod parser;
pub mod reparse;
pub mod scan;
pub mod token;
pub mod unparse;
