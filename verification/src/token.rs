//! Tokens: the lexical units handed from the tokenizer to the parser.

use vstd::prelude::*;

verus! {

/// The closed set of token categories.
#[derive(Debug, Clone, Copy, PartialEq, Eq, Structural)]
pub enum TokenKind {
    Identifier,
    OperatorAssignment,
    OperatorInfixPlus,
    OperatorInfixMinus,
    OperatorInfixMultiply,
    OperatorInfixDivide,
    Declarator,
    LiteralString,
    Number,
    EndOfLine,
}

/// A classified lexical unit together with the text captured for it.
#[derive(Debug, Clone, PartialEq, Eq)]
pub struct Token {
    pub kind: TokenKind,
    pub literal: String,
}

/// The mathematical value of a [`Token`]: its kind and its text as a
/// sequence of characters.
pub ghost struct TokenView {
    pub kind: TokenKind,
    pub literal: Seq<char>,
}

impl View for Token {
    type V = TokenView;

    open spec fn view(&self) -> TokenView {
        TokenView { kind: self.kind, literal: self.literal@ }
    }
}

impl Token {
    pub fn new(kind: TokenKind, literal: String) -> (token: Self)
        ensures
            token.kind == kind,
            token.literal == literal,
    {
        Self { kind, literal }
    }
}

} // verus!
