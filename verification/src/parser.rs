//! The parser: it draws tokens from a tokenizer, one at a time and with one
//! token of lookahead, and builds the program.

use vstd::prelude::*;
use vstd::string::*;
use crate::ast::{
    program_view, BinaryOperator, Expression, ExpressionView, NumberLiteral, Program, Statement,
    StatementView,
};
use crate::error::{ParseError, ParseErrorView};
use crate::grammar::{
    binding_power, binds_loosest, declaration, expression, expression_end, infix_operator,
    lemma_absorb, lemma_declaration_skip, lemma_expression_end, lemma_expression_end_lower,
    lemma_expression_skip, lemma_statement_end, operand, program, tree_of,
};
use crate::lexer::Lexer;
use crate::scan::{keyword_const, lemma_stream_skip, TokenStream};
use crate::token::{Token, TokenKind};

verus! {

/// A parser over the tokens of one source text.
pub struct Parser {
    lexer: Lexer,
}

/// The statements `done`, followed by what `rest` yields.
pub open spec fn after(done: Seq<StatementView>, rest: Result<Seq<StatementView>, ParseErrorView>)
    -> Result<Seq<StatementView>, ParseErrorView> {
    match rest {
        Ok(statements) => Ok(done + statements),
        Err(error) => Err(error),
    }
}

/// The binding powers of an infix operator, left and right; `None` for a
/// token that is no infix operator.
pub fn infix_binding_power(kind: TokenKind) -> (power: Option<(u8, u8)>)
    ensures
        power == binding_power(kind),
{
    match kind {
        TokenKind::OperatorInfixPlus | TokenKind::OperatorInfixMinus => Some((6, 7)),
        TokenKind::OperatorInfixMultiply | TokenKind::OperatorInfixDivide => Some((8, 9)),
        _ => None,
    }
}

/// The expression that joins `left` and `right` by the operator that the
/// token `operator` denotes.
pub fn make_infix_expression(left: Expression, operator: Token, right: Expression) -> (joined:
    Expression)
    requires
        infix_operator(operator.kind) is Some,
    ensures
        joined@ == ExpressionView::Binary(
            Box::new(left@),
            infix_operator(operator.kind).unwrap(),
            Box::new(right@),
        ),
{
    let left = Box::new(left);
    let right = Box::new(right);
    match operator.kind {
        TokenKind::OperatorInfixPlus => Expression::Binary(left, BinaryOperator::Plus, right),
        TokenKind::OperatorInfixMinus => Expression::Binary(left, BinaryOperator::Minus, right),
        TokenKind::OperatorInfixMultiply => Expression::Binary(
            left,
            BinaryOperator::Multiply,
            right,
        ),
        _ => Expression::Binary(left, BinaryOperator::Divide, right),
    }
}

/// Whether `literal` is the declarator `const`.
fn is_const(literal: &String) -> (yes: bool)
    ensures
        yes == (literal@ == keyword_const()),
{
    let text = literal.as_str();
    if text.unicode_len() == 5 {
        let yes = text.get_char(0) == 'c' && text.get_char(1) == 'o' && text.get_char(2) == 'n'
            && text.get_char(3) == 's' && text.get_char(4) == 't';
        assert(yes ==> literal@ =~= keyword_const());
        assert(!yes ==> literal@ != keyword_const()) by {
            if literal@ == keyword_const() {
                assert(literal@[0] == 'c' && literal@[1] == 'o' && literal@[2] == 'n'
                    && literal@[3] == 's' && literal@[4] == 't');
            }
        }
        yes
    } else {
        assert(literal@.len() != keyword_const().len());
        false
    }
}

impl Parser {
    /// The tokenizer that the parser draws from.
    pub closed spec fn lexer(&self) -> Lexer {
        self.lexer
    }

    /// The tokens that are still to come.
    pub open spec fn stream(&self) -> TokenStream {
        self.lexer().stream()
    }

    /// A parser that draws its tokens from `lexer`.
    pub fn new(lexer: Lexer) -> (parser: Self)
        ensures
            parser.lexer() == lexer,
    {
        Self { lexer }
    }

    /// Parses the statements up to the end of the source. The first
    /// violation of the grammar, or the first character that begins no
    /// token, ends the pass with an error.
    pub fn parse(&mut self) -> (result: Result<Program, ParseError>)
        ensures
            match program(old(self).stream(), 0) {
                Ok(statements) => result matches Ok(p) && program_view(p@) == statements,
                Err(error) => result matches Err(e) && e@ == error,
            },
            result is Ok ==> final(self).stream().tokens.len() == 0,
            final(self).lexer().source() == old(self).lexer().source(),
    {
        let ghost s = self.stream();
        let ghost mut c: int = 0;
        let mut statements: Program = Vec::new();
        proof {
            lemma_stream_skip(s, 0, 0);
            assert(program_view(statements@) =~= Seq::empty());
            match program(s, 0) {
                Ok(all) => {
                    assert(Seq::<StatementView>::empty() + all =~= all);
                },
                Err(_) => {},
            }
        }
        loop
            invariant
                s == old(self).stream(),
                self.lexer().source() == old(self).lexer().source(),
                0 <= c <= s.tokens.len(),
                self.stream() == s.skip(c),
                program(s, 0) == after(program_view(statements@), program(s, c)),
            decreases s.tokens.len() - c,
        {
            proof {
                lemma_stream_skip(s, c, 0);
            }
            let declarator = match self.lexer.next() {
                Err(e) => {
                    return Err(ParseError::Lex(e));
                },
                Ok(None) => {
                    assert(program_view(statements@) + Seq::<StatementView>::empty()
                        =~= program_view(statements@));
                    return Ok(statements);
                },
                Ok(Some(token)) => token,
            };
            if declarator.kind != TokenKind::Declarator {
                return Err(ParseError::UnexpectedToken { token: declarator });
            }
            let ghost constant = declarator.literal@ == keyword_const();
            proof {
                lemma_declaration_skip(s, c + 1, constant);
                lemma_statement_end(s, c + 1);
            }
            let first = match self.parse_declaration(declarator) {
                Err(e) => {
                    return Err(e);
                },
                Ok(statement) => statement,
            };
            proof {
                let end = declaration(s, c + 1, constant)->Ok_0.1;
                let done = program_view(statements@);
                lemma_stream_skip(s, c + 1, end - (c + 1));
                assert(program_view(statements@.push(first)) =~= done.push(first@));
                match program(s, end) {
                    Ok(rest) => {
                        assert(done.push(first@) + rest =~= done + (seq![first@] + rest));
                    },
                    Err(_) => {},
                }
                c = end;
            }
            statements.push(first);
        }
    }

    /// Parses the rest of a statement whose declarator has been drawn: the
    /// name, `=`, the initial value and `;`.
    fn parse_declaration(&mut self, declarator: Token) -> (result: Result<Statement, ParseError>)
        ensures
            match declaration(old(self).stream(), 0, declarator.literal@ == keyword_const()) {
                Ok((first, end)) => {
                    &&& result matches Ok(s) && s@ == first
                    &&& final(self).stream() == old(self).stream().skip(end)
                },
                Err(error) => result matches Err(e) && e@ == error,
            },
            final(self).lexer().source() == old(self).lexer().source(),
    {
        let ghost s = self.stream();
        proof {
            lemma_stream_skip(s, 0, 0);
        }
        let identifier = match self.lexer.next() {
            Err(e) => {
                return Err(ParseError::Lex(e));
            },
            Ok(None) => {
                return Err(ParseError::ExpectedIdentifier { found: None });
            },
            Ok(Some(token)) => token,
        };
        if identifier.kind != TokenKind::Identifier {
            return Err(ParseError::ExpectedIdentifier { found: Some(identifier) });
        }
        proof {
            lemma_stream_skip(s, 1, 0);
        }
        match self.lexer.peek() {
            Err(e) => {
                return Err(ParseError::Lex(e));
            },
            Ok(None) => {
                return Err(ParseError::ExpectedAssignment { found: None });
            },
            Ok(Some(token)) => {
                if token.kind != TokenKind::OperatorAssignment {
                    return Err(ParseError::ExpectedAssignment { found: Some(token) });
                }
            },
        }
        let _ = self.lexer.next();
        proof {
            lemma_expression_skip(s, 2, 0);
            lemma_expression_end(s, 2, 0);
        }
        let initial_value = match self.parse_expression(0) {
            Err(e) => {
                return Err(e);
            },
            Ok(expression) => expression,
        };
        let ghost end = expression_end(s, 2, 0)->Ok_0;
        proof {
            lemma_stream_skip(s, 2, end - 2);
            lemma_stream_skip(s, end, 0);
        }
        match self.lexer.peek() {
            Err(e) => {
                return Err(ParseError::Lex(e));
            },
            Ok(None) => {
                return Err(ParseError::ExpectedTerminator { found: None });
            },
            Ok(Some(token)) => {
                if token.kind != TokenKind::EndOfLine {
                    return Err(ParseError::ExpectedTerminator { found: Some(token) });
                }
            },
        }
        let _ = self.lexer.next();
        if is_const(&declarator.literal) {
            Ok(Statement::Const { name: identifier.literal, initial_value })
        } else {
            Ok(Statement::Let { name: identifier.literal, initial_value })
        }
    }

    /// Parses one expression: an operand, and then every operator whose left
    /// binding power reaches `bp`, each with its right operand.
    pub fn parse_expression(&mut self, bp: u8) -> (result: Result<Expression, ParseError>)
        ensures
            match expression(old(self).stream(), 0, bp as int) {
                Ok((tree, end)) => {
                    &&& result matches Ok(e) && e@ == tree
                    &&& final(self).stream() == old(self).stream().skip(end)
                },
                Err(error) => result matches Err(e) && e@ == error,
            },
            final(self).lexer().source() == old(self).lexer().source(),
        decreases old(self).stream().tokens.len(),
    {
        let ghost s = self.stream();
        let ghost ts = s.tokens;
        proof {
            lemma_stream_skip(s, 0, 0);
            if 0 < ts.len() {
                lemma_stream_skip(s, 1, 0);
            }
        }
        let mut left = match self.lexer.next() {
            Err(e) => {
                return Err(ParseError::Lex(e));
            },
            Ok(None) => {
                return Err(ParseError::ExpectedExpression { found: None });
            },
            Ok(Some(token)) => {
                if token.kind != TokenKind::Number {
                    return Err(ParseError::ExpectedExpression { found: Some(token) });
                }
                match NumberLiteral::new(token.literal) {
                    Ok(number) => Expression::Number(number),
                    Err(literal) => {
                        return Err(ParseError::InvalidNumber { literal });
                    },
                }
            },
        };
        let ghost mut c: int = 1;
        proof {
            assert(ts.subrange(0, 1).len() == 1);
            assert(ts.subrange(0, 1)[0] == ts[0]);
        }
        loop
            invariant
                s == old(self).stream(),
                self.lexer().source() == old(self).lexer().source(),
                ts == s.tokens,
                1 <= c <= ts.len(),
                c % 2 == 1,
                self.stream() == s.skip(c),
                operand(s, c - 1) is Ok,
                expression_end(s, 0, bp as int) == expression_end(s, c - 1, bp as int),
                left@ == tree_of(ts.subrange(0, c)),
                binds_loosest(ts, c),
            decreases ts.len() - c,
        {
            proof {
                lemma_stream_skip(s, c, 0);
            }
            let operator = match self.lexer.peek() {
                Err(e) => {
                    return Err(ParseError::Lex(e));
                },
                Ok(None) => {
                    return Ok(left);
                },
                Ok(Some(token)) => token,
            };
            let (left_bp, right_bp) = match infix_binding_power(operator.kind) {
                None => {
                    return Ok(left);
                },
                Some(powers) => powers,
            };
            if left_bp < bp {
                return Ok(left);
            }
            let _ = self.lexer.next();
            proof {
                lemma_stream_skip(s, c + 1, 0);
                lemma_expression_skip(s, c + 1, right_bp as int);
                lemma_expression_end_lower(s, c + 1, right_bp as int, bp as int);
            }
            let right = match self.parse_expression(right_bp) {
                Err(e) => {
                    return Err(e);
                },
                Ok(expression) => expression,
            };
            let ghost end = expression_end(s, c + 1, right_bp as int)->Ok_0;
            proof {
                lemma_absorb(s, c, bp as int, end);
                lemma_stream_skip(s, c + 1, end - (c + 1));
            }
            left = make_infix_expression(left, operator, right);
            proof {
                c = end;
            }
        }
    }
}

} // verus!
