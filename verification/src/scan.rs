//! The lexical grammar: what the tokenizer produces from a source text,
//! stated over sequences of characters.

use vstd::prelude::*;
use crate::chars::{digit, quote, word_start, CharClass};
use crate::error::LexErrorView;
use crate::token::{TokenKind, TokenView};

verus! {

/// The end of the maximal run of characters of `class` that begins at `pos`.
pub open spec fn run_end(src: Seq<char>, pos: int, class: CharClass) -> int
    decreases src.len() - pos,
{
    if 0 <= pos < src.len() && class.holds(src[pos]) {
        run_end(src, pos + 1, class)
    } else {
        pos
    }
}

/// The captured text of a number: its characters without the underscores
/// that group digits.
pub open spec fn without_underscores(text: Seq<char>) -> Seq<char> {
    text.filter(|c: char| c != '_')
}

/// The text of a string literal whose first character after the opening
/// quote stands at `pos`, and the position after the literal. A backslash is
/// dropped and the character after it is taken as it stands; a literal that
/// is not closed ends with the input.
pub open spec fn string_body(src: Seq<char>, pos: int, closing: char) -> (Seq<char>, int)
    decreases src.len() - pos,
{
    if pos < 0 || pos >= src.len() {
        (Seq::empty(), src.len() as int)
    } else if src[pos] == closing {
        (Seq::empty(), pos + 1)
    } else if src[pos] == '\\' {
        if pos + 1 >= src.len() {
            (Seq::empty(), src.len() as int)
        } else {
            let rest = string_body(src, pos + 2, closing);
            (seq![src[pos + 1]] + rest.0, rest.1)
        }
    } else {
        let rest = string_body(src, pos + 1, closing);
        (seq![src[pos]] + rest.0, rest.1)
    }
}

pub open spec fn keyword_let() -> Seq<char> {
    seq!['l', 'e', 't']
}

pub open spec fn keyword_const() -> Seq<char> {
    seq!['c', 'o', 'n', 's', 't']
}

/// A word is a declarator where it is exactly one of the two keywords, and
/// an identifier otherwise.
pub open spec fn word_kind(text: Seq<char>) -> TokenKind {
    if text == keyword_let() || text == keyword_const() {
        TokenKind::Declarator
    } else {
        TokenKind::Identifier
    }
}

/// The kind of the token that consists of the single character `c`, if there
/// is one.
pub open spec fn symbol_kind(c: char) -> Option<TokenKind> {
    if c == ';' {
        Some(TokenKind::EndOfLine)
    } else if c == '=' {
        Some(TokenKind::OperatorAssignment)
    } else if c == '+' {
        Some(TokenKind::OperatorInfixPlus)
    } else if c == '-' {
        Some(TokenKind::OperatorInfixMinus)
    } else if c == '*' {
        Some(TokenKind::OperatorInfixMultiply)
    } else if c == '/' {
        Some(TokenKind::OperatorInfixDivide)
    } else {
        None
    }
}

/// What one request for a token yields.
pub ghost enum Scan {
    /// Nothing but whitespace was left.
    End,
    /// A token, and the position after it.
    Token { token: TokenView, end: int },
    /// A character that begins no token.
    Error { error: LexErrorView },
}

/// The token that begins at `start`, where a character that is not
/// whitespace stands.
pub open spec fn scan_at(src: Seq<char>, start: int) -> Scan {
    let c = src[start];
    if symbol_kind(c) is Some {
        Scan::Token {
            token: TokenView { kind: symbol_kind(c)->Some_0, literal: seq![c] },
            end: start + 1,
        }
    } else if quote(c) {
        let body = string_body(src, start + 1, c);
        Scan::Token {
            token: TokenView { kind: TokenKind::LiteralString, literal: body.0 },
            end: body.1,
        }
    } else if digit(c) {
        let end = run_end(src, start, CharClass::NumberPart);
        Scan::Token {
            token: TokenView {
                kind: TokenKind::Number,
                literal: without_underscores(src.subrange(start, end)),
            },
            end,
        }
    } else if word_start(c) {
        let end = run_end(src, start, CharClass::WordPart);
        let text = src.subrange(start, end);
        Scan::Token { token: TokenView { kind: word_kind(text), literal: text }, end }
    } else {
        Scan::Error { error: LexErrorView { character: c, position: start } }
    }
}

/// What a request for a token yields when the cursor stands at `pos`:
/// whitespace is skipped, then the end of the input is met, or a token, or a
/// character that begins none.
pub open spec fn scan(src: Seq<char>, pos: int) -> Scan {
    let start = run_end(src, pos, CharClass::Whitespace);
    if start >= src.len() {
        Scan::End
    } else {
        scan_at(src, start)
    }
}

/// The tokens that a source yields up to its end or up to the first
/// character that begins no token, and that character if there is one.
pub ghost struct TokenStream {
    pub tokens: Seq<TokenView>,
    pub error: Option<LexErrorView>,
}

impl TokenStream {
    /// The stream without its first `n` tokens.
    pub open spec fn skip(self, n: int) -> TokenStream {
        TokenStream { tokens: self.tokens.skip(n), error: self.error }
    }

    /// The stream after one request: without its first token, where it has
    /// one.
    pub open spec fn rest(self) -> TokenStream {
        if self.tokens.len() > 0 {
            self.skip(1)
        } else {
            self
        }
    }
}

/// Everything that repeated requests yield from position `pos` on.
pub open spec fn stream_from(src: Seq<char>, pos: int) -> TokenStream
    decreases src.len() - pos,
    when 0 <= pos <= src.len()
    via stream_from_decreases
{
    match scan(src, pos) {
        Scan::End => TokenStream { tokens: Seq::empty(), error: None },
        Scan::Error { error } => TokenStream { tokens: Seq::empty(), error: Some(error) },
        Scan::Token { token, end } => {
            let rest = stream_from(src, end);
            TokenStream { tokens: seq![token] + rest.tokens, error: rest.error }
        },
    }
}

#[via_fn]
proof fn stream_from_decreases(src: Seq<char>, pos: int) {
    lemma_scan_advances(src, pos);
}

/// A run stays within the source, holds only characters of its class, and
/// is maximal.
pub proof fn lemma_run_end(src: Seq<char>, pos: int, class: CharClass)
    requires
        0 <= pos <= src.len(),
    ensures
        pos <= run_end(src, pos, class) <= src.len(),
        forall|i: int| pos <= i < run_end(src, pos, class) ==> class.holds(#[trigger] src[i]),
        run_end(src, pos, class) < src.len() ==> !class.holds(src[run_end(src, pos, class)]),
    decreases src.len() - pos,
{
    if pos < src.len() && class.holds(src[pos]) {
        lemma_run_end(src, pos + 1, class);
    }
}

/// A string literal ends within the source, and after its first character
/// where it has one.
pub proof fn lemma_string_body_end(src: Seq<char>, pos: int, closing: char)
    requires
        0 <= pos <= src.len(),
    ensures
        pos <= string_body(src, pos, closing).1 <= src.len(),
        pos < src.len() ==> pos < string_body(src, pos, closing).1,
    decreases src.len() - pos,
{
    if pos < src.len() && src[pos] != closing {
        if src[pos] == '\\' {
            if pos + 1 < src.len() {
                lemma_string_body_end(src, pos + 2, closing);
            }
        } else {
            lemma_string_body_end(src, pos + 1, closing);
        }
    }
}

/// A token is not empty and ends within the source; an offending character
/// stands within the source.
pub proof fn lemma_scan_advances(src: Seq<char>, pos: int)
    requires
        0 <= pos <= src.len(),
    ensures
        match scan(src, pos) {
            Scan::End => true,
            Scan::Token { token, end } => pos < end <= src.len(),
            Scan::Error { error } => pos <= error.position < src.len(),
        },
{
    lemma_run_end(src, pos, CharClass::Whitespace);
    let start = run_end(src, pos, CharClass::Whitespace);
    if start < src.len() {
        lemma_string_body_end(src, start + 1, src[start]);
        lemma_run_end(src, start, CharClass::NumberPart);
        lemma_run_end(src, start, CharClass::WordPart);
    }
}

/// The stream from a position is the outcome of one request there, followed
/// by the stream from where that request leaves the cursor.
pub proof fn lemma_stream_unfold(src: Seq<char>, pos: int)
    requires
        0 <= pos <= src.len(),
    ensures
        match scan(src, pos) {
            Scan::End => stream_from(src, pos) == (TokenStream {
                tokens: Seq::empty(),
                error: None,
            }) && stream_from(src, src.len() as int) == stream_from(src, pos),
            Scan::Token { token, end } => {
                &&& stream_from(src, pos).tokens.len() > 0
                &&& stream_from(src, pos).tokens[0] == token
                &&& stream_from(src, pos).rest() == stream_from(src, end)
            },
            Scan::Error { error } => stream_from(src, pos) == (TokenStream {
                tokens: Seq::empty(),
                error: Some(error),
            }) && stream_from(src, error.position) == stream_from(src, pos),
        },
{
    lemma_scan_advances(src, pos);
    lemma_run_end(src, pos, CharClass::Whitespace);
    match scan(src, pos) {
        Scan::End => {
            assert(scan(src, src.len() as int) == Scan::End);
        },
        Scan::Token { token, end } => {
            let rest = stream_from(src, end);
            assert((seq![token] + rest.tokens).skip(1) =~= rest.tokens);
        },
        Scan::Error { error } => {
            assert(run_end(src, error.position, CharClass::Whitespace) == error.position);
            assert(scan(src, error.position) == scan(src, pos));
        },
    }
}

/// Skipping tokens one by one and all at once comes to the same.
pub proof fn lemma_stream_skip(s: TokenStream, n: int, m: int)
    requires
        0 <= n,
        0 <= m,
        n + m <= s.tokens.len(),
    ensures
        s.skip(0) == s,
        s.skip(n).skip(m) == s.skip(n + m),
        s.skip(n).tokens.len() == s.tokens.len() - n,
        n < s.tokens.len() ==> s.skip(n).tokens[0] == s.tokens[n] && s.skip(n).rest() == s.skip(
            n + 1,
        ),
        n == s.tokens.len() ==> s.skip(n).rest() == s.skip(n),
{
    assert(s.skip(0).tokens =~= s.tokens);
    assert(s.skip(n).skip(m).tokens =~= s.skip(n + m).tokens);
    if n < s.tokens.len() {
        assert(s.skip(n).skip(1).tokens =~= s.skip(n + 1).tokens);
    }
}

} // verus!
