//! The errors of tokenizing and parsing.

use vstd::prelude::*;
use crate::token::{Token, TokenKind, TokenView};

verus! {

/// A character of the source that begins no token.
#[derive(Debug, Clone, Copy, PartialEq, Eq)]
pub struct LexError {
    /// The offending character.
    pub character: char,
    /// Its index in the source, counted in characters.
    pub position: usize,
}

pub ghost struct LexErrorView {
    pub character: char,
    pub position: int,
}

impl View for LexError {
    type V = LexErrorView;

    open spec fn view(&self) -> LexErrorView {
        LexErrorView { character: self.character, position: self.position as int }
    }
}

/// The first violation met while parsing. `found` is the token met in place
/// of the expected one, or `None` where the input had ended; `token` is the
/// token that should not have stood there.
#[derive(Debug, Clone, PartialEq, Eq)]
pub enum ParseError {
    /// The tokenizer failed while the parser asked for a token.
    Lex(LexError),
    /// A declarator was not followed by an identifier.
    ExpectedIdentifier { found: Option<Token> },
    /// The declared name was not followed by `=`.
    ExpectedAssignment { found: Option<Token> },
    /// An operand was expected, and something other than a number was met.
    ExpectedExpression { found: Option<Token> },
    /// The initializer was not followed by `;`.
    ExpectedTerminator { found: Option<Token> },
    /// A statement began with something other than a declarator.
    UnexpectedToken { token: Token },
    /// A number token whose text is not a decimal number.
    InvalidNumber { literal: String },
}

pub ghost enum ParseErrorView {
    Lex(LexErrorView),
    ExpectedIdentifier { found: Option<TokenView> },
    ExpectedAssignment { found: Option<TokenView> },
    ExpectedExpression { found: Option<TokenView> },
    ExpectedTerminator { found: Option<TokenView> },
    UnexpectedToken { token: TokenView },
    InvalidNumber { literal: Seq<char> },
}

/// The view of a token that may be absent.
pub open spec fn found_view(found: Option<Token>) -> Option<TokenView> {
    match found {
        Some(token) => Some(token@),
        None => None,
    }
}

impl View for ParseError {
    type V = ParseErrorView;

    open spec fn view(&self) -> ParseErrorView {
        match *self {
            ParseError::Lex(e) => ParseErrorView::Lex(e@),
            ParseError::ExpectedIdentifier { found } => ParseErrorView::ExpectedIdentifier {
                found: found_view(found),
            },
            ParseError::ExpectedAssignment { found } => ParseErrorView::ExpectedAssignment {
                found: found_view(found),
            },
            ParseError::ExpectedExpression { found } => ParseErrorView::ExpectedExpression {
                found: found_view(found),
            },
            ParseError::ExpectedTerminator { found } => ParseErrorView::ExpectedTerminator {
                found: found_view(found),
            },
            ParseError::UnexpectedToken { token } => ParseErrorView::UnexpectedToken {
                token: token@,
            },
            ParseError::InvalidNumber { literal } => ParseErrorView::InvalidNumber {
                literal: literal@,
            },
        }
    }
}

impl ParseError {
    /// The kind of token that the parser was looking for when it failed, for
    /// the errors that name one.
    pub open spec fn spec_expected(&self) -> Option<TokenKind> {
        match *self {
            ParseError::Lex(_) => None,
            ParseError::ExpectedIdentifier { .. } => Some(TokenKind::Identifier),
            ParseError::ExpectedAssignment { .. } => Some(TokenKind::OperatorAssignment),
            ParseError::ExpectedExpression { .. } => Some(TokenKind::Number),
            ParseError::ExpectedTerminator { .. } => Some(TokenKind::EndOfLine),
            ParseError::UnexpectedToken { .. } => Some(TokenKind::Declarator),
            ParseError::InvalidNumber { .. } => None,
        }
    }

    /// The kind of token that the parser was looking for when it failed, for
    /// the errors that name one.
    pub fn expected(&self) -> (kind: Option<TokenKind>)
        ensures
            kind == self.spec_expected(),
    {
        match self {
            ParseError::Lex(_) => None,
            ParseError::ExpectedIdentifier { .. } => Some(TokenKind::Identifier),
            ParseError::ExpectedAssignment { .. } => Some(TokenKind::OperatorAssignment),
            ParseError::ExpectedExpression { .. } => Some(TokenKind::Number),
            ParseError::ExpectedTerminator { .. } => Some(TokenKind::EndOfLine),
            ParseError::UnexpectedToken { .. } => Some(TokenKind::Declarator),
            ParseError::InvalidNumber { .. } => None,
        }
    }
}

} // verus!
