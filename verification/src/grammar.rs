//! The grammar: what the parser builds from a stream of tokens.
//!
//! ```text
//! program    := statement*
//! statement  := ("let" | "const") Identifier "=" expression ";"
//! expression := Number (operator Number)*
//! ```
//!
//! An expression extends over operands and operators in turn, as far as the
//! operators bind at least as tightly as a given threshold. Its tree has at
//! its root the last of the operators that bind loosest, so that a tighter
//! operator lies below a looser one and operators of one level group from
//! the left.

use vstd::prelude::*;
use crate::ast::{decimal, BinaryOperator, ExpressionView, StatementView};
use crate::error::ParseErrorView;
use crate::scan::{keyword_const, TokenStream};
use crate::token::{TokenKind, TokenView};

verus! {

/// The binding powers of the infix operators, left and right; a higher power
/// binds tighter. The right power of each exceeds its left power by one,
/// which makes operators of one level group from the left.
pub open spec fn binding_power(kind: TokenKind) -> Option<(u8, u8)> {
    match kind {
        TokenKind::OperatorInfixPlus | TokenKind::OperatorInfixMinus => Some((6u8, 7u8)),
        TokenKind::OperatorInfixMultiply | TokenKind::OperatorInfixDivide => Some((8u8, 9u8)),
        _ => None,
    }
}

/// The left binding power of an operator.
pub open spec fn left_power(kind: TokenKind) -> int {
    match binding_power(kind) {
        Some((left, _)) => left as int,
        None => 0,
    }
}

/// The right binding power of an operator.
pub open spec fn right_power(kind: TokenKind) -> int {
    match binding_power(kind) {
        Some((_, right)) => right as int,
        None => 0,
    }
}

/// The operator that a token of `kind` denotes.
pub open spec fn infix_operator(kind: TokenKind) -> Option<BinaryOperator> {
    match kind {
        TokenKind::OperatorInfixPlus => Some(BinaryOperator::Plus),
        TokenKind::OperatorInfixMinus => Some(BinaryOperator::Minus),
        TokenKind::OperatorInfixMultiply => Some(BinaryOperator::Multiply),
        TokenKind::OperatorInfixDivide => Some(BinaryOperator::Divide),
        _ => None,
    }
}

/// The token at index `i`, if the stream reaches that far.
pub open spec fn token_at(s: TokenStream, i: int) -> Option<TokenView> {
    if 0 <= i < s.tokens.len() {
        Some(s.tokens[i])
    } else {
        None
    }
}

/// Whether a token of `kind` stands at index `i`.
pub open spec fn has_kind(s: TokenStream, i: int, kind: TokenKind) -> bool {
    0 <= i < s.tokens.len() && s.tokens[i].kind == kind
}

/// The error for index `i`, where the token that the grammar asks for does
/// not stand: the lexical error where the stream broke off there, and
/// `otherwise` else.
pub open spec fn mismatch(s: TokenStream, i: int, otherwise: ParseErrorView) -> ParseErrorView {
    match s.error {
        Some(error) if i >= s.tokens.len() => ParseErrorView::Lex(error),
        _ => otherwise,
    }
}

/// The operand at index `i`: a number token whose text is a decimal number.
pub open spec fn operand(s: TokenStream, i: int) -> Result<ExpressionView, ParseErrorView> {
    match token_at(s, i) {
        Some(token) if token.kind == TokenKind::Number => if decimal(token.literal) {
            Ok(ExpressionView::Number(token.literal))
        } else {
            Err(ParseErrorView::InvalidNumber { literal: token.literal })
        },
        found => Err(mismatch(s, i, ParseErrorView::ExpectedExpression { found })),
    }
}

/// Whether an operator stands at index `i` whose left power reaches the
/// threshold `bp`.
pub open spec fn absorbs(s: TokenStream, i: int, bp: int) -> bool {
    &&& 0 <= i < s.tokens.len()
    &&& binding_power(s.tokens[i].kind) is Some
    &&& left_power(s.tokens[i].kind) >= bp
}

/// The index behind the expression that begins at `start` and absorbs the
/// operators whose left power reaches `bp`, or the first error on the way.
pub open spec fn expression_end(s: TokenStream, start: int, bp: int) -> Result<
    int,
    ParseErrorView,
>
    decreases s.tokens.len() - start,
{
    match operand(s, start) {
        Err(error) => Err(error),
        Ok(_) => if absorbs(s, start + 1, bp) {
            expression_end(s, start + 2, bp)
        } else if start + 1 >= s.tokens.len() && s.error is Some {
            Err(ParseErrorView::Lex(s.error->0))
        } else {
            Ok(start + 1)
        },
    }
}

/// The index of the operator at the root of the tree for the tokens `ts`,
/// which are operands and operators in turn: the last of the operators with
/// the least left power.
pub open spec fn root_index(ts: Seq<TokenView>) -> int
    decreases ts.len(),
{
    if ts.len() <= 3 {
        1
    } else {
        let last = ts.len() - 2;
        let before = root_index(ts.subrange(0, last));
        if left_power(ts[last].kind) <= left_power(ts[before].kind) {
            last
        } else {
            before
        }
    }
}

/// The tree for the tokens `ts`, which are operands and operators in turn.
pub open spec fn tree_of(ts: Seq<TokenView>) -> ExpressionView
    decreases ts.len(),
    via tree_of_decreases
{
    if ts.len() < 3 {
        ExpressionView::Number(ts[0].literal)
    } else {
        let root = root_index(ts);
        ExpressionView::Binary(
            Box::new(tree_of(ts.subrange(0, root))),
            infix_operator(ts[root].kind).unwrap(),
            Box::new(tree_of(ts.subrange(root + 1, ts.len() as int))),
        )
    }
}

#[via_fn]
proof fn tree_of_decreases(ts: Seq<TokenView>) {
    lemma_root_index_within(ts);
}

/// The expression that begins at `start`, and the index behind it.
pub open spec fn expression(s: TokenStream, start: int, bp: int) -> Result<
    (ExpressionView, int),
    ParseErrorView,
> {
    match expression_end(s, start, bp) {
        Err(error) => Err(error),
        Ok(end) => Ok((tree_of(s.tokens.subrange(start, end)), end)),
    }
}

/// The rest of a statement behind its declarator: the name, `=`, the
/// initial value and `;`, beginning at `start`; and the index behind it.
/// `constant` says whether the declarator was `const`.
pub open spec fn declaration(s: TokenStream, start: int, constant: bool) -> Result<
    (StatementView, int),
    ParseErrorView,
> {
    if !has_kind(s, start, TokenKind::Identifier) {
        Err(mismatch(s, start, ParseErrorView::ExpectedIdentifier { found: token_at(s, start) }))
    } else if !has_kind(s, start + 1, TokenKind::OperatorAssignment) {
        Err(
            mismatch(
                s,
                start + 1,
                ParseErrorView::ExpectedAssignment { found: token_at(s, start + 1) },
            ),
        )
    } else {
        match expression(s, start + 2, 0) {
            Err(error) => Err(error),
            Ok((initial_value, end)) => if !has_kind(s, end, TokenKind::EndOfLine) {
                Err(
                    mismatch(
                        s,
                        end,
                        ParseErrorView::ExpectedTerminator { found: token_at(s, end) },
                    ),
                )
            } else {
                let name = s.tokens[start].literal;
                if constant {
                    Ok((StatementView::Const { name, initial_value }, end + 1))
                } else {
                    Ok((StatementView::Let { name, initial_value }, end + 1))
                }
            },
        }
    }
}

/// The statement that begins at `start`, where a token stands, and the index
/// behind it.
pub open spec fn statement(s: TokenStream, start: int) -> Result<
    (StatementView, int),
    ParseErrorView,
> {
    let declarator = s.tokens[start];
    if declarator.kind != TokenKind::Declarator {
        Err(ParseErrorView::UnexpectedToken { token: declarator })
    } else {
        declaration(s, start + 1, declarator.literal == keyword_const())
    }
}

/// The statements from index `start` to the end of the stream, or the first
/// error on the way.
pub open spec fn program(s: TokenStream, start: int) -> Result<Seq<StatementView>, ParseErrorView>
    decreases s.tokens.len() - start,
    when 0 <= start
    via program_decreases
{
    if start >= s.tokens.len() {
        match s.error {
            Some(error) => Err(ParseErrorView::Lex(error)),
            None => Ok(Seq::empty()),
        }
    } else {
        match statement(s, start) {
            Err(error) => Err(error),
            Ok((first, end)) => match program(s, end) {
                Err(error) => Err(error),
                Ok(rest) => Ok(seq![first] + rest),
            },
        }
    }
}

#[via_fn]
proof fn program_decreases(s: TokenStream, start: int) {
    lemma_statement_end(s, start);
}

/// The root of three or more tokens stands strictly within them, and at an
/// odd index where their number is odd.
pub proof fn lemma_root_index_within(ts: Seq<TokenView>)
    ensures
        1 <= root_index(ts),
        ts.len() >= 3 ==> root_index(ts) <= ts.len() - 2,
        ts.len() <= 3 ==> root_index(ts) == 1,
        ts.len() % 2 == 1 ==> root_index(ts) % 2 == 1,
    decreases ts.len(),
{
    if ts.len() > 3 {
        lemma_root_index_within(ts.subrange(0, ts.len() - 2));
    }
}

/// No operator binds looser than the root, and every operator behind the
/// root binds tighter.
pub proof fn lemma_root_index_least(ts: Seq<TokenView>)
    requires
        ts.len() >= 3,
        ts.len() % 2 == 1,
    ensures
        forall|j: int|
            1 <= j < ts.len() && j % 2 == 1 ==> left_power(#[trigger] ts[j].kind) >= left_power(
                ts[root_index(ts)].kind,
            ),
        forall|j: int|
            root_index(ts) < j < ts.len() && j % 2 == 1 ==> left_power(#[trigger] ts[j].kind)
                > left_power(ts[root_index(ts)].kind),
    decreases ts.len(),
{
    if ts.len() > 3 {
        let last = ts.len() - 2;
        let shorter = ts.subrange(0, last);
        lemma_root_index_within(shorter);
        lemma_root_index_least(shorter);
        let before = root_index(shorter);
        assert(shorter[before] == ts[before]);
        assert forall|j: int| 1 <= j < ts.len() && j % 2 == 1 implies left_power(
            #[trigger] ts[j].kind,
        ) >= left_power(ts[root_index(ts)].kind) by {
            if j < last {
                assert(shorter[j] == ts[j]);
            }
        }
        assert forall|j: int| root_index(ts) < j < ts.len() && j % 2 == 1 implies left_power(
            #[trigger] ts[j].kind,
        ) > left_power(ts[root_index(ts)].kind) by {
            if j < last {
                assert(shorter[j] == ts[j]);
            }
        }
    }
}

/// The operator at `c` is the root where no operator before it binds looser
/// and every operator after it binds tighter.
pub proof fn lemma_root_index_is(ts: Seq<TokenView>, c: int)
    requires
        ts.len() >= 3,
        ts.len() % 2 == 1,
        1 <= c <= ts.len() - 2,
        c % 2 == 1,
        forall|j: int|
            1 <= j < c && j % 2 == 1 ==> left_power(#[trigger] ts[j].kind) >= left_power(
                ts[c].kind,
            ),
        forall|j: int|
            c < j < ts.len() && j % 2 == 1 ==> left_power(#[trigger] ts[j].kind) > left_power(
                ts[c].kind,
            ),
    ensures
        root_index(ts) == c,
    decreases ts.len(),
{
    if ts.len() > 3 {
        let last = ts.len() - 2;
        let shorter = ts.subrange(0, last);
        lemma_root_index_within(shorter);
        let before = root_index(shorter);
        assert(shorter[before] == ts[before]);
        if c < last {
            assert forall|j: int| 1 <= j < c && j % 2 == 1 implies left_power(
                #[trigger] shorter[j].kind,
            ) >= left_power(shorter[c].kind) by {
                assert(shorter[j] == ts[j]);
            }
            assert forall|j: int| c < j < shorter.len() && j % 2 == 1 implies left_power(
                #[trigger] shorter[j].kind,
            ) > left_power(shorter[c].kind) by {
                assert(shorter[j] == ts[j]);
            }
            lemma_root_index_is(shorter, c);
            assert(left_power(ts[last].kind) > left_power(ts[c].kind));
        } else {
            assert(left_power(ts[before].kind) >= left_power(ts[c].kind));
        }
    }
}

/// What holds of an expression that ends without an error: it is not empty,
/// operands and operators stand in it in turn, every operator in it reaches
/// the threshold, and what follows it does not.
pub proof fn lemma_expression_end(s: TokenStream, start: int, bp: int)
    requires
        0 <= start,
    ensures
        expression_end(s, start, bp) matches Ok(end) ==> {
            &&& start < end <= s.tokens.len()
            &&& (end - start) % 2 == 1
            &&& !absorbs(s, end, bp)
            &&& end >= s.tokens.len() ==> s.error is None
            &&& forall|j: int|
                start <= j < end && (j - start) % 2 == 0 ==> (#[trigger] operand(s, j)) is Ok
            &&& forall|j: int|
                start <= j < end && (j - start) % 2 == 1 ==> #[trigger] absorbs(s, j, bp)
        },
    decreases s.tokens.len() - start,
{
    if operand(s, start) is Ok && absorbs(s, start + 1, bp) {
        lemma_expression_end(s, start + 2, bp);
    }
}

/// Lowering the threshold neither shortens an expression nor changes its
/// first error: the expression for the lower threshold goes on from the
/// last operand of the one for the higher.
pub proof fn lemma_expression_end_lower(s: TokenStream, start: int, high: int, low: int)
    requires
        0 <= start,
        low <= high,
    ensures
        match expression_end(s, start, high) {
            Ok(end) => expression_end(s, start, low) == expression_end(s, end - 1, low),
            Err(error) => expression_end(s, start, low) == Err::<int, ParseErrorView>(error),
        },
    decreases s.tokens.len() - start,
{
    if operand(s, start) is Ok && absorbs(s, start + 1, high) {
        lemma_expression_end_lower(s, start + 2, high, low);
    }
}

/// An expression in a stream without its first `k` tokens is the expression
/// of the whole stream, `k` tokens further on.
pub proof fn lemma_expression_end_skip(s: TokenStream, k: int, start: int, bp: int)
    requires
        0 <= k <= s.tokens.len(),
        0 <= start,
    ensures
        match expression_end(s, start + k, bp) {
            Ok(end) => expression_end(s.skip(k), start, bp) == Ok::<int, ParseErrorView>(end - k),
            Err(error) => expression_end(s.skip(k), start, bp) == Err::<int, ParseErrorView>(
                error,
            ),
        },
    decreases s.tokens.len() - start - k,
{
    let t = s.skip(k);
    assert(operand(t, start) == operand(s, start + k));
    assert(absorbs(t, start + 1, bp) == absorbs(s, start + k + 1, bp));
    if operand(s, start + k) is Ok && absorbs(s, start + k + 1, bp) {
        lemma_expression_end_skip(s, k, start + 2, bp);
    }
}

/// An expression in a stream without its first `k` tokens is the expression
/// of the whole stream, `k` tokens further on.
pub proof fn lemma_expression_skip(s: TokenStream, k: int, bp: int)
    requires
        0 <= k <= s.tokens.len(),
    ensures
        match expression(s, k, bp) {
            Ok((tree, end)) => expression(s.skip(k), 0, bp) == Ok::<
                (ExpressionView, int),
                ParseErrorView,
            >((tree, end - k)),
            Err(error) => expression(s.skip(k), 0, bp) == Err::<
                (ExpressionView, int),
                ParseErrorView,
            >(error),
        },
{
    lemma_expression_end_skip(s, k, 0, bp);
    lemma_expression_end(s, k, bp);
    match expression_end(s, k, bp) {
        Ok(end) => {
            assert(s.skip(k).tokens.subrange(0, end - k) =~= s.tokens.subrange(k, end));
        },
        Err(_) => {},
    }
}

/// Whether the token at `c`, if it is an operator, binds no tighter than
/// any of the operators before it.
pub open spec fn binds_loosest(ts: Seq<TokenView>, c: int) -> bool {
    0 <= c < ts.len() && binding_power(ts[c].kind) is Some ==> forall|j: int|
        1 <= j < c && j % 2 == 1 ==> left_power(ts[c].kind) <= left_power(#[trigger] ts[j].kind)
}

/// One step of precedence climbing. Where the tokens before `c` are an
/// expression, the operator at `c` reaches the threshold and binds no
/// tighter than the operators before it, and its right operand extends up
/// to `end`, there the tokens before `end` are an expression with that
/// operator at the root, and the expression for the threshold goes on from
/// its last operand.
pub proof fn lemma_absorb(s: TokenStream, c: int, bp: int, end: int)
    requires
        1 <= c,
        c % 2 == 1,
        operand(s, c - 1) is Ok,
        absorbs(s, c, bp),
        binds_loosest(s.tokens, c),
        expression_end(s, c + 1, right_power(s.tokens[c].kind)) == Ok::<int, ParseErrorView>(end),
    ensures
        c + 1 < end <= s.tokens.len(),
        end % 2 == 1,
        operand(s, end - 1) is Ok,
        expression_end(s, c - 1, bp) == expression_end(s, end - 1, bp),
        binds_loosest(s.tokens, end),
        tree_of(s.tokens.subrange(0, end)) == ExpressionView::Binary(
            Box::new(tree_of(s.tokens.subrange(0, c))),
            infix_operator(s.tokens[c].kind).unwrap(),
            Box::new(tree_of(s.tokens.subrange(c + 1, end))),
        ),
{
    let ts = s.tokens;
    let right = right_power(ts[c].kind);
    lemma_expression_end(s, c + 1, right);
    lemma_expression_end_lower(s, c + 1, right, bp);
    assert(operand(s, end - 1) is Ok);
    let whole = ts.subrange(0, end);
    assert(whole[c] == ts[c]);
    assert forall|j: int| 1 <= j < c && j % 2 == 1 implies left_power(#[trigger] whole[j].kind)
        >= left_power(whole[c].kind) by {
        assert(whole[j] == ts[j]);
    }
    assert forall|j: int| c < j < whole.len() && j % 2 == 1 implies left_power(
        #[trigger] whole[j].kind,
    ) > left_power(whole[c].kind) by {
        assert(whole[j] == ts[j]);
        assert(absorbs(s, j, right));
    }
    lemma_root_index_is(whole, c);
    assert(whole.subrange(0, c) =~= ts.subrange(0, c));
    assert(whole.subrange(c + 1, end) =~= ts.subrange(c + 1, end));
    if end < ts.len() && binding_power(ts[end].kind) is Some {
        assert forall|j: int| 1 <= j < end && j % 2 == 1 implies left_power(ts[end].kind)
            <= left_power(#[trigger] ts[j].kind) by {
            if j > c {
                assert(absorbs(s, j, right));
            }
        }
    }
}

/// The rest of a statement in a stream without its first `k` tokens is that
/// of the whole stream, `k` tokens further on.
pub proof fn lemma_declaration_skip(s: TokenStream, k: int, constant: bool)
    requires
        0 <= k <= s.tokens.len(),
    ensures
        match declaration(s, k, constant) {
            Ok((first, end)) => declaration(s.skip(k), 0, constant) == Ok::<
                (StatementView, int),
                ParseErrorView,
            >((first, end - k)),
            Err(error) => declaration(s.skip(k), 0, constant) == Err::<
                (StatementView, int),
                ParseErrorView,
            >(error),
        },
{
    let t = s.skip(k);
    assert(token_at(t, 0) == token_at(s, k));
    assert(token_at(t, 1) == token_at(s, k + 1));
    if has_kind(s, k, TokenKind::Identifier) && has_kind(s, k + 1, TokenKind::OperatorAssignment) {
        lemma_expression_end_skip(s, k, 2, 0);
        lemma_expression_end(s, k + 2, 0);
        match expression_end(s, k + 2, 0) {
            Ok(end) => {
                assert(t.tokens.subrange(2, end - k) =~= s.tokens.subrange(k + 2, end));
                assert(token_at(t, end - k) == token_at(s, end));
            },
            Err(_) => {},
        }
    }
}

/// A statement is not empty and ends within the stream.
pub proof fn lemma_statement_end(s: TokenStream, start: int)
    requires
        0 <= start,
    ensures
        declaration(s, start, true) matches Ok((_, end)) ==> start < end <= s.tokens.len(),
        declaration(s, start, false) matches Ok((_, end)) ==> start < end <= s.tokens.len(),
        statement(s, start) matches Ok((_, end)) ==> start < end <= s.tokens.len(),
{
    lemma_expression_end(s, start + 2, 0);
    lemma_expression_end(s, start + 3, 0);
}

} // verus!
