//! The characters of which a source that parses consists.
//!
//! The grammar has no place for a string literal, and the tokenizer none for
//! a character outside its classes. So a source parses only where each of
//! its characters is whitespace, one of `; = + - * /`, or part of a number
//! or of a word. A parenthesis is none of these.

use vstd::prelude::*;
use crate::chars::{number_part, whitespace, word_part, CharClass};
use crate::grammar::{absorbs, lemma_expression_end, operand, program, statement};
use crate::scan::{
    lemma_run_end, lemma_scan_advances, lemma_stream_unfold, run_end, scan, stream_from,
    symbol_kind, Scan, TokenStream,
};
use crate::token::TokenKind;

verus! {

/// Whether `c` may stand in a source that parses.
pub open spec fn in_alphabet(c: char) -> bool {
    whitespace(c) || symbol_kind(c) is Some || number_part(c) || word_part(c)
}

/// Whether the stream did not break off and holds no string literal.
pub open spec fn plain(s: TokenStream) -> bool {
    &&& s.error is None
    &&& forall|i: int| 0 <= i < s.tokens.len() ==> (#[trigger] s.tokens[i]).kind
        != TokenKind::LiteralString
}

/// Where the statements from `start` on parse, the stream did not break off,
/// and no token from `start` on is a string literal.
pub proof fn lemma_program_is_plain(s: TokenStream, start: int)
    requires
        0 <= start,
        program(s, start) is Ok,
    ensures
        s.error is None,
        forall|i: int| start <= i < s.tokens.len() ==> (#[trigger] s.tokens[i]).kind
            != TokenKind::LiteralString,
    decreases s.tokens.len() - start,
{
    if start < s.tokens.len() {
        let end = statement(s, start)->Ok_0.1;
        lemma_expression_end(s, start + 3, 0);
        lemma_program_is_plain(s, end);
        assert forall|i: int| start <= i < s.tokens.len() implies (#[trigger] s.tokens[i]).kind
            != TokenKind::LiteralString by {
            if start + 3 <= i < end - 1 {
                if (i - (start + 3)) % 2 == 0 {
                    assert(operand(s, i) is Ok);
                } else {
                    assert(absorbs(s, i, 0));
                }
            }
        }
    }
}

/// Where the tokens from `pos` on come without an error and hold no string
/// literal, every character from `pos` on is of the alphabet.
pub proof fn lemma_plain_stream_alphabet(src: Seq<char>, pos: int)
    requires
        0 <= pos <= src.len(),
        plain(stream_from(src, pos)),
    ensures
        forall|i: int| pos <= i < src.len() ==> in_alphabet(#[trigger] src[i]),
    decreases src.len() - pos,
{
    lemma_stream_unfold(src, pos);
    lemma_scan_advances(src, pos);
    lemma_run_end(src, pos, CharClass::Whitespace);
    let start = run_end(src, pos, CharClass::Whitespace);
    match scan(src, pos) {
        Scan::Token { token, end } => {
            let whole = stream_from(src, pos);
            let rest = stream_from(src, end);
            assert(whole.tokens[0].kind != TokenKind::LiteralString);
            assert forall|i: int| 0 <= i < rest.tokens.len() implies (
            #[trigger] rest.tokens[i]).kind != TokenKind::LiteralString by {
                assert(rest.tokens[i] == whole.tokens[i + 1]);
            }
            lemma_plain_stream_alphabet(src, end);
            lemma_run_end(src, start, CharClass::NumberPart);
            lemma_run_end(src, start, CharClass::WordPart);
            assert forall|i: int| pos <= i < src.len() implies in_alphabet(#[trigger] src[i]) by {
                if i < start {
                    assert(CharClass::Whitespace.holds(src[i]));
                } else if i < end {
                    if symbol_kind(src[start]) is None {
                        assert(CharClass::NumberPart.holds(src[i]) || CharClass::WordPart.holds(
                            src[i],
                        ));
                    }
                }
            }
        },
        _ => {
            assert forall|i: int| pos <= i < src.len() implies in_alphabet(#[trigger] src[i]) by {
                assert(CharClass::Whitespace.holds(src[i]));
            }
        },
    }
}

/// A source parses only where each of its characters is of the alphabet.
pub proof fn lemma_parsed_source_alphabet(src: Seq<char>)
    requires
        program(stream_from(src, 0), 0) is Ok,
    ensures
        forall|i: int| 0 <= i < src.len() ==> in_alphabet(#[trigger] src[i]),
{
    lemma_program_is_plain(stream_from(src, 0), 0);
    lemma_plain_stream_alphabet(src, 0);
}

/// A source in which a parenthesis stands, at whatever place, does not
/// parse.
pub proof fn lemma_parenthesis_is_rejected(src: Seq<char>)
    requires
        src.contains('(') || src.contains(')'),
    ensures
        program(stream_from(src, 0), 0) is Err,
{
    if program(stream_from(src, 0), 0) is Ok {
        lemma_parsed_source_alphabet(src);
        let c = if src.contains('(') { '(' } else { ')' };
        let i = choose|i: int| 0 <= i < src.len() && src[i] == c;
        assert(in_alphabet(src[i]));
    }
}

} // verus!
