//! The abstract syntax tree that the parser builds.

use vstd::prelude::*;
use crate::chars::{digit, is_digit};

verus! {

/// The four infix operators.
#[derive(Debug, Clone, Copy, PartialEq, Eq, Structural)]
pub enum BinaryOperator {
    Plus,
    Minus,
    Multiply,
    Divide,
}

/// The part of the conditions of [`decimal`] that holds of every prefix of
/// a decimal number.
pub open spec fn decimal_prefix(text: Seq<char>) -> bool {
    &&& text.len() > 0 ==> digit(text[0])
    &&& forall|i: int| 0 <= i < text.len() ==> digit(#[trigger] text[i]) || text[i] == '.'
    &&& forall|i: int, j: int|
        0 <= i < j < text.len() ==> !(#[trigger] text[i] == '.' && #[trigger] text[j] == '.')
}

/// Whether `text` is a decimal number: it begins with a digit, and holds
/// digits and at most one point.
pub open spec fn decimal(text: Seq<char>) -> bool {
    text.len() > 0 && decimal_prefix(text)
}

/// Whether a point stands in `text`.
pub open spec fn has_point(text: Seq<char>) -> bool {
    exists|i: int| 0 <= i < text.len() && #[trigger] text[i] == '.'
}

/// How the conditions on a prefix carry over to the prefix that is longer
/// by one character.
pub proof fn lemma_decimal_prefix_push(text: Seq<char>, c: char)
    ensures
        has_point(text.push(c)) == (has_point(text) || c == '.'),
        decimal_prefix(text.push(c)) == (decimal_prefix(text) && (digit(c) || (c == '.'
            && text.len() > 0 && !has_point(text)))),
{
    let longer = text.push(c);
    let n = text.len() as int;
    assert(longer[n] == c);
    assert(forall|i: int| 0 <= i < n ==> #[trigger] longer[i] == text[i]);
    if has_point(text) {
        let i = choose|i: int| 0 <= i < text.len() && #[trigger] text[i] == '.';
        assert(longer[i] == '.');
    }
    if has_point(longer) {
        let i = choose|i: int| 0 <= i < longer.len() && #[trigger] longer[i] == '.';
        if i < n {
            assert(text[i] == '.');
        }
    }
    if decimal_prefix(longer) {
        assert(n > 0 ==> text[0] == longer[0]);
        assert forall|i: int| 0 <= i < n implies digit(#[trigger] text[i]) || text[i] == '.' by {
            assert(longer[i] == text[i]);
        }
        assert forall|i: int, j: int| 0 <= i < j < n implies !(#[trigger] text[i] == '.'
            && #[trigger] text[j] == '.') by {
            assert(longer[i] == text[i] && longer[j] == text[j]);
        }
        assert(digit(longer[n]) || longer[n] == '.');
        if c == '.' {
            assert(n > 0) by {
                if n == 0 {
                    assert(digit(longer[0]));
                }
            }
            if has_point(text) {
                let i = choose|i: int| 0 <= i < text.len() && #[trigger] text[i] == '.';
                assert(longer[i] == '.' && longer[n] == '.');
            }
        }
    }
    if decimal_prefix(text) && (digit(c) || (c == '.' && n > 0 && !has_point(text))) {
        assert(longer[0] == if n > 0 { text[0] } else { c });
        assert forall|i: int| 0 <= i < longer.len() implies digit(#[trigger] longer[i])
            || longer[i] == '.' by {
            if i < n {
                assert(longer[i] == text[i]);
            }
        }
        assert forall|i: int, j: int| 0 <= i < j < longer.len() implies !(#[trigger] longer[i]
            == '.' && #[trigger] longer[j] == '.') by {
            assert(longer[i] == text[i]);
            if j < n {
                assert(longer[j] == text[j]);
            }
        }
    }
}

/// The text of a decimal number: digits with at most one point among them,
/// the first character a digit. Every such text denotes a number.
#[derive(Debug, PartialEq, Eq)]
pub struct NumberLiteral {
    text: String,
}

impl View for NumberLiteral {
    type V = Seq<char>;

    closed spec fn view(&self) -> Seq<char> {
        self.text@
    }
}

impl NumberLiteral {
    #[verifier::type_invariant]
    spec fn is_decimal(self) -> bool {
        decimal(self.text@)
    }

    /// The number written as `text`, if `text` is a decimal number; if it
    /// is none, `text` comes back.
    pub fn new(text: String) -> (number: Result<Self, String>)
        ensures
            match number {
                Ok(n) => decimal(text@) && n@ == text@,
                Err(rejected) => !decimal(text@) && rejected == text,
            },
    {
        let mut valid = true;
        let mut seen_point = false;
        let mut empty = true;
        for c in it: text.as_str().chars()
            invariant
                it.seq() == text@,
                empty == (it.index() == 0),
                valid == decimal_prefix(text@.take(it.index() as int)),
                seen_point == has_point(text@.take(it.index() as int)),
        {
            proof {
                let before = text@.take(it.index() as int);
                assert(text@.take(it.index() + 1) =~= before.push(c));
                lemma_decimal_prefix_push(before, c);
            }
            if c == '.' {
                if empty || seen_point {
                    valid = false;
                }
                seen_point = true;
            } else if !is_digit(c) {
                valid = false;
            }
            empty = false;
        }
        assert(text@.take(text@.len() as int) =~= text@);
        if valid && !empty {
            Ok(NumberLiteral { text })
        } else {
            Err(text)
        }
    }

    /// The text of the number.
    pub fn as_str(&self) -> (text: &str)
        ensures
            text@ == self@,
            decimal(text@),
    {
        proof {
            use_type_invariant(self);
        }
        self.text.as_str()
    }
}

/// An expression: a number, or two expressions joined by an operator.
#[derive(Debug, PartialEq, Eq)]
pub enum Expression {
    Number(NumberLiteral),
    Binary(Box<Expression>, BinaryOperator, Box<Expression>),
}

pub ghost enum ExpressionView {
    Number(Seq<char>),
    Binary(Box<ExpressionView>, BinaryOperator, Box<ExpressionView>),
}

impl Expression {
    /// The tree that this expression is, with each number as its text.
    pub open spec fn tree(&self) -> ExpressionView
        decreases self,
    {
        match self {
            Expression::Number(number) => ExpressionView::Number(number@),
            Expression::Binary(left, operator, right) => ExpressionView::Binary(
                Box::new(left.tree()),
                *operator,
                Box::new(right.tree()),
            ),
        }
    }
}

impl View for Expression {
    type V = ExpressionView;

    open spec fn view(&self) -> ExpressionView {
        self.tree()
    }
}

/// A declaration of a name with its initial value.
#[derive(Debug, PartialEq, Eq)]
pub enum Statement {
    Let { name: String, initial_value: Expression },
    Const { name: String, initial_value: Expression },
}

pub ghost enum StatementView {
    Let { name: Seq<char>, initial_value: ExpressionView },
    Const { name: Seq<char>, initial_value: ExpressionView },
}

impl View for Statement {
    type V = StatementView;

    open spec fn view(&self) -> StatementView {
        match self {
            Statement::Let { name, initial_value } => StatementView::Let {
                name: name@,
                initial_value: initial_value@,
            },
            Statement::Const { name, initial_value } => StatementView::Const {
                name: name@,
                initial_value: initial_value@,
            },
        }
    }
}

/// The statements of a source text, in the order in which they stand there.
pub type Program = Vec<Statement>;

/// The view of a program: the views of its statements.
pub open spec fn program_view(program: Seq<Statement>) -> Seq<StatementView> {
    program.map_values(|statement: Statement| statement@)
}

} // verus!
