//! Parsing, writing out and parsing again.
//!
//! Whitespace serves to part tokens and for nothing else: two sources that
//! write the same tokens with different whitespace are tokenized, and so
//! parsed, alike. And a program that came out of the parser can be written
//! out: its tokens are those of the source, and written with whatever
//! whitespace parts them, they parse to the same program again.

use vstd::prelude::*;
use crate::alphabet::lemma_program_is_plain;
use crate::ast::{decimal, StatementView};
use crate::error::ParseErrorView;
use crate::grammar::{
    absorbs, expression_end, infix_operator, lemma_expression_end, lemma_statement_end, operand,
    program, statement, tree_of,
};
use crate::layout::{
    is_name, lemma_lex_rendering, lemma_rendering_parses_back, lemma_stream_lexemes, lexeme,
    lexemes, lexical, render, spaced, statement_name, writable,
};
use crate::scan::{keyword_const, keyword_let, stream_from, TokenStream};
use crate::token::{TokenKind, TokenView};
use crate::unparse::{
    canonical, initial_value, lemma_tree_of_shaped, operator_token, program_tokens, shaped,
    statement_tokens,
};

verus! {

/// Sources that write the same tokens, parted by whitespace in one way or
/// another, yield the same tokens and parse alike.
pub proof fn lemma_whitespace_is_insignificant(
    tokens: Seq<TokenView>,
    gaps: Seq<Seq<char>>,
    other_gaps: Seq<Seq<char>>,
)
    requires
        lexemes(tokens),
        spaced(tokens, gaps),
        spaced(tokens, other_gaps),
    ensures
        stream_from(render(tokens, gaps), 0) == (TokenStream { tokens, error: None }),
        stream_from(render(tokens, gaps), 0) == stream_from(render(tokens, other_gaps), 0),
        program(stream_from(render(tokens, gaps), 0), 0) == program(
            stream_from(render(tokens, other_gaps), 0),
            0,
        ),
{
    lemma_lex_rendering(Seq::empty(), tokens, gaps);
    lemma_lex_rendering(Seq::empty(), tokens, other_gaps);
    assert(Seq::<char>::empty() + render(tokens, gaps) =~= render(tokens, gaps));
    assert(Seq::<char>::empty() + render(tokens, other_gaps) =~= render(tokens, other_gaps));
}

/// The statements that are parsed from lexemes can be written down, and
/// their tokens are the tokens they were parsed from.
pub proof fn lemma_parsed_from_lexemes(
    s: TokenStream,
    start: int,
    statements: Seq<StatementView>,
)
    requires
        0 <= start <= s.tokens.len(),
        lexical(s),
        program(s, start) == Ok::<Seq<StatementView>, ParseErrorView>(statements),
    ensures
        writable(statements),
        program_tokens(statements) == s.tokens.skip(start),
    decreases s.tokens.len() - start,
{
    if start >= s.tokens.len() {
        assert(statements =~= Seq::empty());
        assert(program_tokens(statements) =~= s.tokens.skip(start));
    } else {
        let first = statement(s, start)->Ok_0.0;
        let end = statement(s, start)->Ok_0.1;
        let rest = program(s, end)->Ok_0;
        assert(statements == seq![first] + rest);
        lemma_statement_end(s, start);
        lemma_expression_end(s, start + 3, 0);
        lemma_parsed_from_lexemes(s, end, rest);
        let semicolon = end - 1;
        let te = s.tokens.subrange(start + 3, semicolon);
        assert(expression_end(s, start + 3, 0) == Ok::<int, ParseErrorView>(
            semicolon,
        ));
        assert(shaped(te)) by {
            assert forall|j: int| 0 <= j < te.len() && j % 2 == 0 implies (#[trigger] te[j]).kind
                == TokenKind::Number && decimal(te[j].literal) by {
                assert(te[j] == s.tokens[start + 3 + j]);
                assert(operand(s, start + 3 + j) is Ok);
            }
            assert forall|j: int| 0 <= j < te.len() && j % 2 == 1 implies infix_operator(
                (#[trigger] te[j]).kind,
            ) is Some && te[j] == operator_token(
                infix_operator(te[j].kind).unwrap(),
            ) by {
                let token = s.tokens[start + 3 + j];
                assert(te[j] == token);
                assert(absorbs(s, start + 3 + j, 0));
                assert(lexeme(token));
                assert(token.literal =~= seq![token.literal[0]]);
            }
        }
        lemma_tree_of_shaped(te);
        let declarator = s.tokens[start];
        let name = s.tokens[start + 1];
        let assignment = s.tokens[start + 2];
        let terminator = s.tokens[semicolon];
        assert(lexeme(declarator) && lexeme(name) && lexeme(assignment) && lexeme(terminator));
        assert(assignment.literal =~= seq!['=']);
        assert(terminator.literal =~= seq![';']);
        assert(keyword_let() != keyword_const()) by {
            assert(keyword_let().len() != keyword_const().len());
        }
        let tf = statement_tokens(first);
        assert(initial_value(first) == tree_of(te));
        assert(statement_name(first) == name.literal);
        assert(tf =~= s.tokens.subrange(start, end)) by {
            assert(tf.len() == te.len() + 4);
            assert forall|j: int| 0 <= j < tf.len() implies tf[j] == s.tokens[start + j] by {
                if 3 <= j < 3 + te.len() {
                    assert(tf[j] == te[j - 3]);
                }
            }
        }
        assert(statements.first() == first);
        assert(statements.drop_first() =~= rest);
        assert(tf + s.tokens.skip(end) =~= s.tokens.skip(start));
        assert forall|i: int| 0 <= i < statements.len() implies canonical(
            initial_value(#[trigger] statements[i]),
        ) && is_name(statement_name(statements[i])) by {
            if i > 0 {
                assert(statements[i] == rest[i - 1]);
            }
        }
    }
}

/// Where a source parses, the program can be written down; its tokens are
/// those of the source; and written with whatever whitespace parts them,
/// they parse to the same program.
pub proof fn lemma_parse_write_parse(
    src: Seq<char>,
    statements: Seq<StatementView>,
    gaps: Seq<Seq<char>>,
)
    requires
        program(stream_from(src, 0), 0) == Ok::<Seq<StatementView>, ParseErrorView>(
            statements,
        ),
        spaced(program_tokens(statements), gaps),
    ensures
        writable(statements),
        program_tokens(statements) == stream_from(src, 0).tokens,
        program(stream_from(render(program_tokens(statements), gaps), 0), 0) == program(
            stream_from(src, 0),
            0,
        ),
{
    let s = stream_from(src, 0);
    lemma_stream_lexemes(src, 0);
    lemma_program_is_plain(s, 0);
    lemma_parsed_from_lexemes(s, 0, statements);
    assert(s.tokens.skip(0) =~= s.tokens);
    lemma_rendering_parses_back(statements, gaps);
}

} // verus!
