//! From tokens back to a source text.
//!
//! A rendering of tokens writes their texts one after the other, with
//! whitespace of any length before, between and behind them. Where a token
//! would run into the next one, some whitespace has to part them. Whatever
//! whitespace is chosen, the rendering is tokenized to the tokens it was
//! made of; and the rendering of a program parses to that program.

use vstd::prelude::*;
use crate::ast::{ExpressionView, StatementView};
use crate::chars::{
    digit, number_part, quote, whitespace, word_part, word_start, CharClass,
};
use crate::error::ParseErrorView;
use crate::grammar::program;
use crate::scan::{
    keyword_const, keyword_let, lemma_run_end, lemma_scan_advances, lemma_stream_unfold, run_end,
    scan, stream_from, symbol_kind, without_underscores, word_kind, Scan, TokenStream,
};
use crate::token::{TokenKind, TokenView};
use crate::unparse::{
    canonical, canonical_program, expression_tokens, initial_value, lemma_program_of_tokens,
    operator_token, program_tokens, statement_tokens,
};

verus! {

/// Whether `text` is a word: a letter or `_`, followed by letters, numeric
/// characters and `_`.
pub open spec fn is_word(text: Seq<char>) -> bool {
    &&& text.len() > 0
    &&& word_start(text[0])
    &&& forall|i: int| 0 <= i < text.len() ==> word_part(#[trigger] text[i])
}

/// Whether `text` is a name: a word that is no declarator.
pub open spec fn is_name(text: Seq<char>) -> bool {
    is_word(text) && word_kind(text) == TokenKind::Identifier
}

/// Whether the text of `token` is one that the tokenizer captures for a
/// token of its kind from that same text. No string literal is: its text
/// stands in the source between quotes.
pub open spec fn lexeme(token: TokenView) -> bool {
    match token.kind {
        TokenKind::LiteralString => false,
        TokenKind::Number => {
            &&& token.literal.len() > 0
            &&& digit(token.literal[0])
            &&& forall|i: int|
                0 <= i < token.literal.len() ==> digit(#[trigger] token.literal[i])
                    || token.literal[i] == '.'
        },
        TokenKind::Identifier => is_name(token.literal),
        TokenKind::Declarator => token.literal == keyword_let() || token.literal
            == keyword_const(),
        _ => token.literal.len() == 1 && symbol_kind(token.literal[0]) == Some(token.kind),
    }
}

/// Whether a token of `kind` would go on over the character `c`.
pub open spec fn continues(kind: TokenKind, c: char) -> bool {
    match kind {
        TokenKind::Number => number_part(c),
        TokenKind::Identifier | TokenKind::Declarator => word_part(c),
        _ => false,
    }
}

/// Whether `gap` holds nothing but whitespace.
pub open spec fn blank(gap: Seq<char>) -> bool {
    forall|i: int| 0 <= i < gap.len() ==> whitespace(#[trigger] gap[i])
}

/// Whether token `i` is parted from the next one: by whitespace, or because
/// it would not go on over the first character of the next.
pub open spec fn parted(tokens: Seq<TokenView>, gaps: Seq<Seq<char>>, i: int) -> bool {
    gaps[i + 1].len() > 0 || !continues(tokens[i].kind, tokens[i + 1].literal[0])
}

/// Whether `gaps` can stand around `tokens`: there is one gap before each
/// token and one behind the last, each gap is whitespace, and each token is
/// parted from the next.
pub open spec fn spaced(tokens: Seq<TokenView>, gaps: Seq<Seq<char>>) -> bool {
    &&& gaps.len() == tokens.len() + 1
    &&& forall|i: int| 0 <= i < gaps.len() ==> blank(#[trigger] gaps[i])
    &&& forall|i: int| 0 <= i < tokens.len() - 1 ==> #[trigger] parted(tokens, gaps, i)
}

/// The source text that writes `tokens` with `gaps` around them.
pub open spec fn render(tokens: Seq<TokenView>, gaps: Seq<Seq<char>>) -> Seq<char>
    decreases tokens.len(),
{
    if tokens.len() == 0 {
        gaps[0]
    } else {
        gaps[0] + tokens[0].literal + render(tokens.drop_first(), gaps.drop_first())
    }
}

/// Whether every token of the stream, but for the string literals, is a
/// lexeme.
pub open spec fn lexical(s: TokenStream) -> bool {
    forall|i: int|
        0 <= i < s.tokens.len() ==> (#[trigger] s.tokens[i]).kind == TokenKind::LiteralString
            || lexeme(s.tokens[i])
}

/// Whether every token of `tokens` is a lexeme.
pub open spec fn lexemes(tokens: Seq<TokenView>) -> bool {
    forall|i: int| 0 <= i < tokens.len() ==> lexeme(#[trigger] tokens[i])
}

/// Whether the statements can be written down: each name is a name, each
/// initial value canonical.
pub open spec fn writable(statements: Seq<StatementView>) -> bool {
    &&& canonical_program(statements)
    &&& forall|i: int|
        0 <= i < statements.len() ==> is_name(statement_name(#[trigger] statements[i]))
}

/// The name that a statement declares.
pub open spec fn statement_name(statement: StatementView) -> Seq<char> {
    match statement {
        StatementView::Let { name, .. } => name,
        StatementView::Const { name, .. } => name,
    }
}

/// A run that holds only characters of its class, and is followed by none,
/// is the maximal run.
pub proof fn lemma_run_end_is(src: Seq<char>, from: int, to: int, class: CharClass)
    requires
        0 <= from <= to <= src.len(),
        forall|i: int| from <= i < to ==> class.holds(#[trigger] src[i]),
        to < src.len() ==> !class.holds(src[to]),
    ensures
        run_end(src, from, class) == to,
    decreases to - from,
{
    if from < to {
        lemma_run_end_is(src, from + 1, to, class);
    }
}

/// A text without underscores is captured as it stands.
pub proof fn lemma_without_underscores(text: Seq<char>)
    requires
        forall|i: int| 0 <= i < text.len() ==> #[trigger] text[i] != '_',
    ensures
        without_underscores(text) == text,
    decreases text.len(),
{
    reveal(Seq::filter);
    if text.len() > 0 {
        lemma_without_underscores(text.drop_last());
        assert(text.drop_last().push(text.last()) =~= text);
    }
}

/// What is captured of a text holds no underscore and nothing that the text
/// does not hold, and begins as the text does where that begins with no
/// underscore.
pub proof fn lemma_without_underscores_keeps(text: Seq<char>)
    ensures
        forall|i: int|
            0 <= i < without_underscores(text).len() ==> {
                &&& (#[trigger] without_underscores(text)[i]) != '_'
                &&& text.contains(without_underscores(text)[i])
            },
        text.len() > 0 && text[0] != '_' ==> without_underscores(text).len() > 0
            && without_underscores(text)[0] == text[0],
    decreases text.len(),
{
    reveal(Seq::filter);
    if text.len() > 0 {
        let shorter = text.drop_last();
        lemma_without_underscores_keeps(shorter);
        let kept = without_underscores(text);
        assert forall|i: int| 0 <= i < kept.len() implies (#[trigger] kept[i]) != '_'
            && text.contains(kept[i]) by {
            if i < without_underscores(shorter).len() {
                let c = without_underscores(shorter)[i];
                assert(shorter.contains(c));
                let k = choose|k: int| 0 <= k < shorter.len() && shorter[k] == c;
                assert(text[k] == c);
            } else {
                assert(text[text.len() - 1] == kept[i]);
            }
        }
        if text.len() > 1 {
            assert(shorter[0] == text[0]);
        }
    }
}

/// The tokenizer hands out lexemes, but for the string literals.
pub proof fn lemma_stream_lexemes(src: Seq<char>, pos: int)
    requires
        0 <= pos <= src.len(),
    ensures
        lexical(stream_from(src, pos)),
    decreases src.len() - pos,
{
    lemma_stream_unfold(src, pos);
    lemma_scan_advances(src, pos);
    lemma_run_end(src, pos, CharClass::Whitespace);
    let start = run_end(src, pos, CharClass::Whitespace);
    match scan(src, pos) {
        Scan::Token { token, end } => {
            let whole = stream_from(src, pos);
            let rest = stream_from(src, end);
            lemma_stream_lexemes(src, end);
            let text = src.subrange(start, end);
            if token.kind == TokenKind::Number {
                lemma_run_end(src, start, CharClass::NumberPart);
                lemma_without_underscores_keeps(text);
                assert(text[0] == src[start]);
                assert forall|i: int| 0 <= i < token.literal.len() implies digit(
                    #[trigger] token.literal[i],
                ) || token.literal[i] == '.' by {
                    let c = token.literal[i];
                    assert(text.contains(c));
                    let k = choose|k: int| 0 <= k < text.len() && text[k] == c;
                    assert(CharClass::NumberPart.holds(src[start + k]));
                }
            } else if token.kind == TokenKind::Identifier || token.kind == TokenKind::Declarator {
                lemma_run_end(src, start, CharClass::WordPart);
                assert(text[0] == src[start]);
                assert forall|i: int| 0 <= i < text.len() implies word_part(#[trigger] text[i]) by {
                    assert(CharClass::WordPart.holds(src[start + i]));
                }
            }
            assert forall|i: int| 0 <= i < whole.tokens.len() implies (
            #[trigger] whole.tokens[i]).kind == TokenKind::LiteralString || lexeme(
                whole.tokens[i],
            ) by {
                if i > 0 {
                    assert(whole.tokens[i] == rest.tokens[i - 1]);
                }
            }
        },
        _ => {},
    }
}

/// The first character of a lexeme is no whitespace and begins a token of
/// the lexeme's kind, and the others continue it.
proof fn lemma_lexeme_first(token: TokenView)
    requires
        lexeme(token),
    ensures
        token.literal.len() > 0,
        !whitespace(token.literal[0]),
        match token.kind {
            TokenKind::Number => digit(token.literal[0]) && forall|i: int|
                0 <= i < token.literal.len() ==> number_part(#[trigger] token.literal[i])
                    && token.literal[i] != '_',
            TokenKind::Identifier | TokenKind::Declarator => {
                &&& is_word(token.literal)
                &&& word_kind(token.literal) == token.kind
                &&& symbol_kind(token.literal[0]) is None
                &&& !digit(token.literal[0])
                &&& !quote(token.literal[0])
            },
            _ => true,
        },
{
    if token.kind == TokenKind::Declarator {
        assert(token.literal[0] == 'l' || token.literal[0] == 'c');
        assert forall|i: int| 0 <= i < token.literal.len() implies word_part(
            #[trigger] token.literal[i],
        ) by {
            if token.literal == keyword_let() {
                assert(i == 0 || i == 1 || i == 2);
            } else {
                assert(i == 0 || i == 1 || i == 2 || i == 3 || i == 4);
            }
        }
    }
}

/// How a rendering begins: with its first gap where that is not empty, else
/// with its first token; it is empty where there is neither.
proof fn lemma_render_first(tokens: Seq<TokenView>, gaps: Seq<Seq<char>>)
    requires
        gaps.len() == tokens.len() + 1,
        lexemes(tokens),
    ensures
        gaps[0].len() > 0 ==> render(tokens, gaps).len() > 0 && render(tokens, gaps)[0]
            == gaps[0][0],
        gaps[0].len() == 0 && tokens.len() > 0 ==> render(tokens, gaps).len() > 0 && render(
            tokens,
            gaps,
        )[0] == tokens[0].literal[0],
        gaps[0].len() == 0 && tokens.len() == 0 ==> render(tokens, gaps).len() == 0,
{
    if tokens.len() > 0 {
        lemma_lexeme_first(tokens[0]);
    }
}

/// A rendering of lexemes is tokenized to those lexemes, wherever in a
/// source it begins.
pub proof fn lemma_lex_rendering(before: Seq<char>, tokens: Seq<TokenView>, gaps: Seq<Seq<char>>)
    requires
        lexemes(tokens),
        spaced(tokens, gaps),
    ensures
        stream_from(before + render(tokens, gaps), before.len() as int) == (TokenStream {
            tokens,
            error: None,
        }),
    decreases tokens.len(),
{
    let src = before + render(tokens, gaps);
    let pos = before.len() as int;
    let gap = gaps[0];
    let start = pos + gap.len();
    assert(blank(gap));
    lemma_stream_unfold(src, pos);
    if tokens.len() == 0 {
        lemma_run_end_is(src, pos, src.len() as int, CharClass::Whitespace);
        assert(tokens =~= Seq::empty());
    } else {
        let token = tokens[0];
        let text = token.literal;
        let rest = tokens.drop_first();
        let rest_gaps = gaps.drop_first();
        let behind = render(rest, rest_gaps);
        let end = start + text.len();
        lemma_lexeme_first(token);
        assert(src.len() == end + behind.len());
        assert forall|i: int| 0 <= i < text.len() implies src[start + i] == #[trigger] text[i] by {}
        assert forall|i: int| pos <= i < start implies CharClass::Whitespace.holds(
            #[trigger] src[i],
        ) by {
            assert(src[i] == gap[i - pos]);
        }
        assert(src[start] == text[0]);
        lemma_run_end_is(src, pos, start, CharClass::Whitespace);
        // What follows the token does not continue it.
        assert(lexemes(rest)) by {
            assert forall|i: int| 0 <= i < rest.len() implies lexeme(#[trigger] rest[i]) by {
                assert(rest[i] == tokens[i + 1]);
            }
        }
        assert(spaced(rest, rest_gaps)) by {
            assert forall|i: int| 0 <= i < rest_gaps.len() implies blank(
                #[trigger] rest_gaps[i],
            ) by {
                assert(rest_gaps[i] == gaps[i + 1]);
            }
            assert forall|i: int| 0 <= i < rest.len() - 1 implies #[trigger] parted(
                rest,
                rest_gaps,
                i,
            ) by {
                assert(parted(tokens, gaps, i + 1));
                assert(rest_gaps[i + 1] == gaps[i + 2]);
                assert(rest[i] == tokens[i + 1]);
                assert(rest[i + 1] == tokens[i + 2]);
            }
        }
        lemma_render_first(rest, rest_gaps);
        assert(end < src.len() ==> !continues(token.kind, src[end])) by {
            if end < src.len() {
                assert(src[end] == behind[0]);
                assert(rest_gaps[0] == gaps[1]);
                if gaps[1].len() > 0 {
                    assert(blank(gaps[1]));
                    assert(whitespace(gaps[1][0]));
                } else {
                    assert(rest[0] == tokens[1]);
                    assert(parted(tokens, gaps, 0));
                }
            }
        }
        assert(src.subrange(start, end) =~= text);
        match token.kind {
            TokenKind::Number => {
                assert forall|i: int| start <= i < end implies CharClass::NumberPart.holds(
                    #[trigger] src[i],
                ) by {
                    assert(src[i] == text[i - start]);
                }
                lemma_run_end_is(src, start, end, CharClass::NumberPart);
                lemma_without_underscores(text);
            },
            TokenKind::Identifier | TokenKind::Declarator => {
                assert forall|i: int| start <= i < end implies CharClass::WordPart.holds(
                    #[trigger] src[i],
                ) by {
                    assert(src[i] == text[i - start]);
                }
                lemma_run_end_is(src, start, end, CharClass::WordPart);
            },
            _ => {
                assert(text =~= seq![text[0]]);
            },
        }
        assert(scan(src, pos) == Scan::Token { token, end });
        let longer = before + gap + text;
        assert(src =~= longer + behind);
        lemma_lex_rendering(longer, rest, rest_gaps);
        assert(seq![token] + rest =~= tokens);
    }
}

/// The tokens of a canonical expression are lexemes.
pub proof fn lemma_expression_lexemes(e: ExpressionView)
    requires
        canonical(e),
    ensures
        lexemes(expression_tokens(e)),
    decreases e,
{
    match e {
        ExpressionView::Number(text) => {},
        ExpressionView::Binary(left, operator, right) => {
            lemma_expression_lexemes(*left);
            lemma_expression_lexemes(*right);
            let tl = expression_tokens(*left);
            let tr = expression_tokens(*right);
            let ts = expression_tokens(e);
            assert forall|i: int| 0 <= i < ts.len() implies lexeme(#[trigger] ts[i]) by {
                if i < tl.len() {
                    assert(ts[i] == tl[i]);
                } else if i == tl.len() {
                    assert(ts[i] == operator_token(operator));
                } else {
                    assert(ts[i] == tr[i - tl.len() - 1]);
                }
            }
        },
    }
}

/// The tokens of statements that can be written down are lexemes.
pub proof fn lemma_program_lexemes(statements: Seq<StatementView>)
    requires
        writable(statements),
    ensures
        lexemes(program_tokens(statements)),
    decreases statements.len(),
{
    if statements.len() > 0 {
        let first = statements.first();
        let rest = statements.drop_first();
        assert(writable(rest)) by {
            assert forall|i: int| 0 <= i < rest.len() implies canonical(
                initial_value(#[trigger] rest[i]),
            ) && is_name(statement_name(rest[i])) by {
                assert(rest[i] == statements[i + 1]);
            }
        }
        lemma_program_lexemes(rest);
        lemma_expression_lexemes(initial_value(first));
        let te = expression_tokens(initial_value(first));
        let tf = statement_tokens(first);
        let tr = program_tokens(rest);
        let all = program_tokens(statements);
        assert(is_name(statement_name(first)));
        assert forall|i: int| 0 <= i < all.len() implies lexeme(#[trigger] all[i]) by {
            if i < tf.len() {
                assert(all[i] == tf[i]);
                if 3 <= i < 3 + te.len() {
                    assert(tf[i] == te[i - 3]);
                }
            } else {
                assert(all[i] == tr[i - tf.len()]);
            }
        }
    }
}

/// Statements that can be written down, rendered with whatever whitespace
/// parts their tokens, parse to themselves.
pub proof fn lemma_rendering_parses_back(statements: Seq<StatementView>, gaps: Seq<Seq<char>>)
    requires
        writable(statements),
        spaced(program_tokens(statements), gaps),
    ensures
        program(stream_from(render(program_tokens(statements), gaps), 0), 0) == Ok::<
            Seq<StatementView>,
            ParseErrorView,
        >(statements),
{
    let tokens = program_tokens(statements);
    lemma_program_lexemes(statements);
    lemma_lex_rendering(Seq::empty(), tokens, gaps);
    assert(Seq::<char>::empty() + render(tokens, gaps) =~= render(tokens, gaps));
    let s = TokenStream { tokens, error: None };
    assert(s.tokens.skip(0) =~= tokens);
    lemma_program_of_tokens(s, 0, statements);
}

} // verus!
