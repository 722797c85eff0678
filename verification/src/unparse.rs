//! From a program back to its tokens.
//!
//! A tree is canonical where the parser can have built it: each operator
//! binds no tighter than the root of its left operand, and looser than the
//! root of its right operand. Written out token by token, a program of
//! canonical trees parses to itself.

use vstd::prelude::*;
use crate::ast::{decimal, BinaryOperator, ExpressionView, StatementView};
use crate::error::ParseErrorView;
use crate::grammar::{
    absorbs, binding_power, expression, expression_end, infix_operator, left_power,
    lemma_root_index_is, lemma_root_index_least, lemma_root_index_within, operand, program,
    root_index, statement, tree_of,
};
use crate::scan::{keyword_const, keyword_let, TokenStream};
use crate::token::{TokenKind, TokenView};

verus! {

/// The token that denotes `operator`.
pub open spec fn operator_token(operator: BinaryOperator) -> TokenView {
    match operator {
        BinaryOperator::Plus => TokenView {
            kind: TokenKind::OperatorInfixPlus,
            literal: seq!['+'],
        },
        BinaryOperator::Minus => TokenView {
            kind: TokenKind::OperatorInfixMinus,
            literal: seq!['-'],
        },
        BinaryOperator::Multiply => TokenView {
            kind: TokenKind::OperatorInfixMultiply,
            literal: seq!['*'],
        },
        BinaryOperator::Divide => TokenView {
            kind: TokenKind::OperatorInfixDivide,
            literal: seq!['/'],
        },
    }
}

/// How tightly `operator` binds.
pub open spec fn power(operator: BinaryOperator) -> int {
    left_power(operator_token(operator).kind)
}

/// The tokens of an expression, from left to right.
pub open spec fn expression_tokens(e: ExpressionView) -> Seq<TokenView>
    decreases e,
{
    match e {
        ExpressionView::Number(text) => seq![TokenView { kind: TokenKind::Number, literal: text }],
        ExpressionView::Binary(left, operator, right) => expression_tokens(*left) + seq![
            operator_token(operator),
        ] + expression_tokens(*right),
    }
}

/// Whether the parser can have built `e`: its numbers are decimal numbers,
/// and the operators nest by their powers, those of one level to the left.
pub open spec fn canonical(e: ExpressionView) -> bool
    decreases e,
{
    match e {
        ExpressionView::Number(text) => decimal(text),
        ExpressionView::Binary(left, operator, right) => {
            &&& canonical(*left)
            &&& canonical(*right)
            &&& *left matches ExpressionView::Binary(_, above, _) ==> power(above) >= power(
                operator,
            )
            &&& *right matches ExpressionView::Binary(_, below, _) ==> power(below) > power(
                operator,
            )
        },
    }
}

/// The least power that an operator of `e` can have: that of its root.
pub open spec fn root_power(e: ExpressionView) -> int {
    match e {
        ExpressionView::Number(_) => 0,
        ExpressionView::Binary(_, operator, _) => power(operator),
    }
}

/// The initial value of a statement.
pub open spec fn initial_value(statement: StatementView) -> ExpressionView {
    match statement {
        StatementView::Let { initial_value, .. } => initial_value,
        StatementView::Const { initial_value, .. } => initial_value,
    }
}

/// The tokens of a statement, from the declarator to the terminator.
pub open spec fn statement_tokens(statement: StatementView) -> Seq<TokenView> {
    let (keyword, name) = match statement {
        StatementView::Let { name, .. } => (keyword_let(), name),
        StatementView::Const { name, .. } => (keyword_const(), name),
    };
    seq![
        TokenView { kind: TokenKind::Declarator, literal: keyword },
        TokenView { kind: TokenKind::Identifier, literal: name },
        TokenView { kind: TokenKind::OperatorAssignment, literal: seq!['='] },
    ] + expression_tokens(initial_value(statement)) + seq![
        TokenView { kind: TokenKind::EndOfLine, literal: seq![';'] },
    ]
}

/// The tokens of a program: those of its statements, one after the other.
pub open spec fn program_tokens(statements: Seq<StatementView>) -> Seq<TokenView>
    decreases statements.len(),
{
    if statements.len() == 0 {
        Seq::empty()
    } else {
        statement_tokens(statements.first()) + program_tokens(statements.drop_first())
    }
}

/// Whether each statement has a canonical initial value.
pub open spec fn canonical_program(statements: Seq<StatementView>) -> bool {
    forall|i: int| 0 <= i < statements.len() ==> canonical(initial_value(#[trigger] statements[i]))
}

/// The tokens of a canonical expression are decimal numbers and operators
/// in turn, and no operator among them binds looser than the root.
pub proof fn lemma_expression_tokens(e: ExpressionView)
    requires
        canonical(e),
    ensures
        expression_tokens(e).len() % 2 == 1,
        forall|j: int|
            0 <= j < expression_tokens(e).len() && j % 2 == 0 ==> {
                &&& (#[trigger] expression_tokens(e)[j]).kind == TokenKind::Number
                &&& decimal(expression_tokens(e)[j].literal)
            },
        forall|j: int|
            0 <= j < expression_tokens(e).len() && j % 2 == 1 ==> {
                &&& binding_power((#[trigger] expression_tokens(e)[j]).kind) is Some
                &&& left_power(expression_tokens(e)[j].kind) >= root_power(e)
            },
    decreases e,
{
    let ts = expression_tokens(e);
    match e {
        ExpressionView::Number(text) => {
            assert(ts.len() == 1);
        },
        ExpressionView::Binary(left, operator, right) => {
            lemma_expression_tokens(*left);
            lemma_expression_tokens(*right);
            let tl = expression_tokens(*left);
            let tr = expression_tokens(*right);
            let n = tl.len() as int;
            assert(ts.len() == n + 1 + tr.len());
            assert forall|j: int| 0 <= j < ts.len() && j % 2 == 0 implies {
                &&& (#[trigger] ts[j]).kind == TokenKind::Number
                &&& decimal(ts[j].literal)
            } by {
                if j < n {
                    assert(ts[j] == tl[j]);
                } else {
                    assert(ts[j] == tr[j - n - 1]);
                }
            }
            assert forall|j: int| 0 <= j < ts.len() && j % 2 == 1 implies {
                &&& binding_power((#[trigger] ts[j]).kind) is Some
                &&& left_power(ts[j].kind) >= power(operator)
            } by {
                if j < n {
                    assert(ts[j] == tl[j]);
                    assert(*left is Binary);
                } else if j > n {
                    assert(ts[j] == tr[j - n - 1]);
                    assert(*right is Binary);
                } else {
                    assert(ts[j] == operator_token(operator));
                }
            }
        },
    }
}

/// The tree of the tokens of a canonical expression is that expression.
pub proof fn lemma_tree_of_expression_tokens(e: ExpressionView)
    requires
        canonical(e),
    ensures
        tree_of(expression_tokens(e)) == e,
    decreases e,
{
    let ts = expression_tokens(e);
    match e {
        ExpressionView::Number(text) => {
            assert(ts.len() == 1);
            assert(ts[0].literal == text);
        },
        ExpressionView::Binary(left, operator, right) => {
            lemma_tree_of_expression_tokens(*left);
            lemma_tree_of_expression_tokens(*right);
            lemma_expression_tokens(*left);
            lemma_expression_tokens(*right);
            let tl = expression_tokens(*left);
            let tr = expression_tokens(*right);
            let n = tl.len() as int;
            assert(ts.len() == n + 1 + tr.len());
            assert(ts[n] == operator_token(operator));
            assert forall|j: int| 1 <= j < n && j % 2 == 1 implies left_power(
                #[trigger] ts[j].kind,
            ) >= left_power(ts[n].kind) by {
                assert(ts[j] == tl[j]);
                assert(*left is Binary);
            }
            assert forall|j: int| n < j < ts.len() && j % 2 == 1 implies left_power(
                #[trigger] ts[j].kind,
            ) > left_power(ts[n].kind) by {
                assert(ts[j] == tr[j - n - 1]);
                assert(*right is Binary);
            }
            lemma_root_index_is(ts, n);
            assert(ts.subrange(0, n) =~= tl);
            assert(ts.subrange(n + 1, ts.len() as int) =~= tr);
            assert(infix_operator(ts[n].kind).unwrap() == operator);
        },
    }
}

/// Whether `ts` are the tokens of an expression: decimal numbers and
/// operators in turn, beginning and ending with a number.
pub open spec fn shaped(ts: Seq<TokenView>) -> bool {
    &&& ts.len() % 2 == 1
    &&& forall|j: int|
        0 <= j < ts.len() && j % 2 == 0 ==> (#[trigger] ts[j]).kind == TokenKind::Number
            && decimal(ts[j].literal)
    &&& forall|j: int|
        0 <= j < ts.len() && j % 2 == 1 ==> infix_operator((#[trigger] ts[j]).kind) is Some
            && ts[j] == operator_token(infix_operator(ts[j].kind).unwrap())
}

/// The tree of the tokens of an expression is canonical, and its tokens are
/// those it was built from.
pub proof fn lemma_tree_of_shaped(ts: Seq<TokenView>)
    requires
        shaped(ts),
    ensures
        canonical(tree_of(ts)),
        expression_tokens(tree_of(ts)) == ts,
        ts.len() >= 3 ==> tree_of(ts) is Binary && root_power(tree_of(ts)) == left_power(
            ts[root_index(ts)].kind,
        ),
    decreases ts.len(),
{
    if ts.len() < 3 {
        assert(ts.len() == 1);
        assert(ts[0].kind == TokenKind::Number);
        assert(expression_tokens(tree_of(ts)) =~= ts);
    } else {
        lemma_root_index_within(ts);
        lemma_root_index_least(ts);
        let root = root_index(ts);
        let tl = ts.subrange(0, root);
        let tr = ts.subrange(root + 1, ts.len() as int);
        assert(shaped(tl)) by {
            assert forall|j: int| 0 <= j < tl.len() implies tl[j] == ts[j] by {}
        }
        assert(shaped(tr)) by {
            assert forall|j: int| 0 <= j < tr.len() implies tr[j] == ts[j + root + 1] by {}
            assert forall|j: int| 0 <= j < tr.len() && j % 2 == 0 implies (#[trigger] tr[j]).kind
                == TokenKind::Number && decimal(tr[j].literal) by {
                assert(tr[j] == ts[j + root + 1]);
            }
            assert forall|j: int| 0 <= j < tr.len() && j % 2 == 1 implies infix_operator(
                (#[trigger] tr[j]).kind,
            ) is Some && tr[j] == operator_token(infix_operator(tr[j].kind).unwrap()) by {
                assert(tr[j] == ts[j + root + 1]);
            }
        }
        lemma_tree_of_shaped(tl);
        lemma_tree_of_shaped(tr);
        let operator = infix_operator(ts[root].kind).unwrap();
        assert(ts[root] == operator_token(operator));
        if tl.len() >= 3 {
            lemma_root_index_within(tl);
            assert(tl[root_index(tl)] == ts[root_index(tl)]);
        }
        if tr.len() >= 3 {
            lemma_root_index_within(tr);
            assert(tr[root_index(tr)] == ts[root_index(tr) + root + 1]);
        }
        assert(tl + seq![ts[root]] + tr =~= ts);
    }
}

/// Where operands and operators stand in turn from `start` up to `end`, each
/// operator reaches the threshold, and what follows does not, there the
/// expression that begins at `start` ends at `end`.
pub proof fn lemma_expression_end_is(s: TokenStream, start: int, end: int, bp: int)
    requires
        0 <= start < end <= s.tokens.len(),
        (end - start) % 2 == 1,
        forall|j: int|
            start <= j < end && (j - start) % 2 == 0 ==> (#[trigger] operand(s, j)) is Ok,
        forall|j: int|
            start <= j < end && (j - start) % 2 == 1 ==> #[trigger] absorbs(s, j, bp),
        !absorbs(s, end, bp),
        end < s.tokens.len() || s.error is None,
    ensures
        expression_end(s, start, bp) == Ok::<int, ParseErrorView>(end),
    decreases end - start,
{
    assert(operand(s, start) is Ok);
    if start + 1 < end {
        assert(absorbs(s, start + 1, bp));
        assert forall|j: int| start + 2 <= j < end && (j - (start + 2)) % 2 == 0 implies (
        #[trigger] operand(s, j)) is Ok by {
            assert((j - start) % 2 == 0);
        }
        assert forall|j: int| start + 2 <= j < end && (j - (start + 2)) % 2 == 1 implies (
        #[trigger] absorbs(s, j, bp)) by {
            assert((j - start) % 2 == 1);
        }
        lemma_expression_end_is(s, start + 2, end, bp);
    }
}

/// Where the tokens of a canonical expression stand at `start`, and what
/// follows them is no operator that reaches the threshold, the expression
/// parsed at `start` is that expression.
pub proof fn lemma_expression_of_tokens(s: TokenStream, start: int, e: ExpressionView, bp: int)
    requires
        canonical(e),
        0 <= start,
        start + expression_tokens(e).len() <= s.tokens.len(),
        s.tokens.subrange(start, start + expression_tokens(e).len()) == expression_tokens(e),
        root_power(e) >= bp || e is Number,
        !absorbs(s, start + expression_tokens(e).len(), bp),
        start + expression_tokens(e).len() < s.tokens.len() || s.error is None,
    ensures
        expression(s, start, bp) == Ok::<(ExpressionView, int), ParseErrorView>(
            (e, start + expression_tokens(e).len()),
        ),
{
    let ts = expression_tokens(e);
    let end = start + ts.len();
    lemma_expression_tokens(e);
    lemma_tree_of_expression_tokens(e);
    assert forall|j: int| start <= j < end && (j - start) % 2 == 0 implies (#[trigger] operand(
        s,
        j,
    )) is Ok by {
        assert(s.tokens[j] == ts[j - start]);
    }
    assert forall|j: int| start <= j < end && (j - start) % 2 == 1 implies #[trigger] absorbs(
        s,
        j,
        bp,
    ) by {
        assert(s.tokens[j] == ts[j - start]);
        assert(ts.len() >= 3);
    }
    lemma_expression_end_is(s, start, end, bp);
}

/// The tokens of a program of canonical trees parse to that program.
pub proof fn lemma_program_of_tokens(s: TokenStream, start: int, statements: Seq<StatementView>)
    requires
        0 <= start <= s.tokens.len(),
        s.error is None,
        s.tokens.skip(start) == program_tokens(statements),
        canonical_program(statements),
    ensures
        program(s, start) == Ok::<Seq<StatementView>, ParseErrorView>(statements),
    decreases statements.len(),
{
    if statements.len() == 0 {
        assert(statements =~= Seq::empty());
    } else {
        let first = statements.first();
        let rest = statements.drop_first();
        let value = initial_value(first);
        let te = expression_tokens(value);
        let tf = statement_tokens(first);
        let tail = s.tokens.skip(start);
        lemma_expression_tokens(value);
        assert(tf.len() == te.len() + 4);
        let semicolon = start + 3 + te.len();
        assert(tail == tf + program_tokens(rest));
        assert(tail.len() == s.tokens.len() - start);
        assert forall|j: int| 0 <= j < tf.len() implies s.tokens[start + j] == #[trigger] tf[j] by {
            assert(tail[j] == tf[j]);
            assert(tail[j] == s.tokens[start + j]);
        }
        assert(s.tokens[start] == tf[0]);
        assert(s.tokens[start + 1] == tf[1]);
        assert(s.tokens[start + 2] == tf[2]);
        assert(s.tokens[semicolon] == tf[semicolon - start]);
        assert(s.tokens.subrange(start + 3, semicolon) =~= te) by {
            assert forall|j: int| 0 <= j < te.len() implies s.tokens[start + 3 + j] == te[j] by {
                assert(tf[j + 3] == te[j]);
            }
        }
        lemma_expression_of_tokens(s, start + 3, value, 0);
        assert(keyword_let() != keyword_const()) by {
            assert(keyword_let().len() != keyword_const().len());
        }
        assert(statement(s, start) == Ok::<(StatementView, int), ParseErrorView>(
            (first, semicolon + 1),
        ));
        assert(s.tokens.skip(semicolon + 1) =~= program_tokens(rest)) by {
            assert(s.tokens.skip(semicolon + 1) =~= tail.skip(tf.len() as int));
        }
        assert forall|i: int| 0 <= i < rest.len() implies canonical(
            initial_value(#[trigger] rest[i]),
        ) by {
            assert(rest[i] == statements[i + 1]);
        }
        lemma_program_of_tokens(s, semicolon + 1, rest);
        assert(seq![first] + rest =~= statements);
    }
}

} // verus!
