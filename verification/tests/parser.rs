use letlang::ast::{BinaryOperator, Expression, NumberLiteral, Statement};
use letlang::error::{LexError, ParseError};
use letlang::lexer::Lexer;
use letlang::parser::{infix_binding_power, make_infix_expression, Parser};
use letlang::token::{Token, TokenKind};

fn parse(source: &str) -> Result<Vec<Statement>, ParseError> {
    Parser::new(Lexer::new(source.to_string())).parse()
}

fn number(text: &str) -> Expression {
    Expression::Number(NumberLiteral::new(text.to_string()).unwrap())
}

fn binary(left: Expression, operator: BinaryOperator, right: Expression) -> Expression {
    Expression::Binary(Box::new(left), operator, Box::new(right))
}

fn let_statement(name: &str, initial_value: Expression) -> Statement {
    Statement::Let {
        name: name.to_string(),
        initial_value,
    }
}

fn const_statement(name: &str, initial_value: Expression) -> Statement {
    Statement::Const {
        name: name.to_string(),
        initial_value,
    }
}

fn token(kind: TokenKind, literal: &str) -> Token {
    Token::new(kind, literal.to_string())
}

fn value_of(expression: &Expression) -> f64 {
    match expression {
        Expression::Number(n) => n.as_str().parse::<f64>().unwrap(),
        Expression::Binary(left, operator, right) => {
            let (l, r) = (value_of(left), value_of(right));
            match operator {
                BinaryOperator::Plus => l + r,
                BinaryOperator::Minus => l - r,
                BinaryOperator::Multiply => l * r,
                BinaryOperator::Divide => l / r,
            }
        }
    }
}

fn initializer(source: &str) -> Expression {
    let mut program = parse(source).unwrap();
    assert_eq!(program.len(), 1);
    match program.remove(0) {
        Statement::Let { initial_value, .. } => initial_value,
        Statement::Const { initial_value, .. } => initial_value,
    }
}

#[test]
fn empty_source_is_an_empty_program() {
    assert_eq!(parse(""), Ok(vec![]));
    assert_eq!(parse("  \n\t"), Ok(vec![]));
}

#[test]
fn whitespace_around_tokens_does_not_matter() {
    let expected = Ok(vec![let_statement("x", number("1"))]);
    assert_eq!(parse("let x=1;"), expected);
    assert_eq!(parse("let x = 1 ;"), expected);
    assert_eq!(parse("let\tx\t=\t1;"), expected);
    assert_eq!(parse("\n let \r\n x \n = \n 1 \n ; \n"), expected);
}

#[test]
fn multiplication_binds_tighter_than_addition() {
    assert_eq!(
        initializer("let x = 1 + 2 * 3;"),
        binary(
            number("1"),
            BinaryOperator::Plus,
            binary(number("2"), BinaryOperator::Multiply, number("3")),
        )
    );
    assert_eq!(
        initializer("let x = 1 * 2 + 3;"),
        binary(
            binary(number("1"), BinaryOperator::Multiply, number("2")),
            BinaryOperator::Plus,
            number("3"),
        )
    );
}

#[test]
fn subtraction_groups_from_the_left() {
    let tree = initializer("let x = 10 - 2 - 3;");
    assert_eq!(
        tree,
        binary(
            binary(number("10"), BinaryOperator::Minus, number("2")),
            BinaryOperator::Minus,
            number("3"),
        )
    );
    assert_eq!(value_of(&tree), 5.0);
}

#[test]
fn division_groups_from_the_left() {
    let tree = initializer("let x = 8 / 4 / 2;");
    assert_eq!(
        tree,
        binary(
            binary(number("8"), BinaryOperator::Divide, number("4")),
            BinaryOperator::Divide,
            number("2"),
        )
    );
    assert_eq!(value_of(&tree), 1.0);
}

#[test]
fn mixed_levels_nest_by_precedence() {
    let tree = initializer("const y = 1 + 2 * 3 - 4 / 2 * 5;");
    assert_eq!(
        tree,
        binary(
            binary(
                number("1"),
                BinaryOperator::Plus,
                binary(number("2"), BinaryOperator::Multiply, number("3")),
            ),
            BinaryOperator::Minus,
            binary(
                binary(number("4"), BinaryOperator::Divide, number("2")),
                BinaryOperator::Multiply,
                number("5"),
            ),
        )
    );
    assert_eq!(value_of(&tree), -3.0);
}

#[test]
fn parenthesis_is_a_lexical_error() {
    assert_eq!(
        parse("let x = (1 + 2) * 3;"),
        Err(ParseError::Lex(LexError {
            character: '(',
            position: 8
        }))
    );
    assert_eq!(
        parse("let x = 1 + 2) * 3;"),
        Err(ParseError::Lex(LexError {
            character: ')',
            position: 13
        }))
    );
    assert_eq!(
        parse("("),
        Err(ParseError::Lex(LexError {
            character: '(',
            position: 0
        }))
    );
}

#[test]
fn parenthesis_in_a_string_is_an_error_too() {
    assert_eq!(
        parse("let x = \"(\";"),
        Err(ParseError::ExpectedExpression {
            found: Some(token(TokenKind::LiteralString, "("))
        })
    );
    assert_eq!(
        parse("\"(\""),
        Err(ParseError::UnexpectedToken {
            token: token(TokenKind::LiteralString, "(")
        })
    );
}

#[test]
fn underscores_in_a_number_do_not_change_its_value() {
    let tree = initializer("let big = 1_000_000;");
    assert_eq!(tree, number("1000000"));
    assert_eq!(value_of(&tree), 1000000.0);
}

#[test]
fn number_with_a_fraction_keeps_its_value() {
    assert_eq!(value_of(&initializer("let h = 42.5;")), 42.5);
    assert_eq!(value_of(&initializer("let h = 7.;")), 7.0);
}

#[test]
fn word_that_begins_like_a_declarator_is_no_declarator() {
    assert_eq!(
        parse("letx = 1;"),
        Err(ParseError::UnexpectedToken {
            token: token(TokenKind::Identifier, "letx")
        })
    );
}

#[test]
fn statements_come_in_source_order() {
    assert_eq!(
        parse("let a = 1; const b = 2;"),
        Ok(vec![
            let_statement("a", number("1")),
            const_statement("b", number("2")),
        ])
    );
}

#[test]
fn missing_terminator_is_an_error() {
    assert_eq!(
        parse("let a = 1"),
        Err(ParseError::ExpectedTerminator { found: None })
    );
    assert_eq!(
        parse("let a = 1; let b = 2 + 3"),
        Err(ParseError::ExpectedTerminator { found: None })
    );
    assert_eq!(
        parse("let a = 1 let b = 2;"),
        Err(ParseError::ExpectedTerminator {
            found: Some(token(TokenKind::Declarator, "let"))
        })
    );
}

#[test]
fn missing_identifier_is_an_error() {
    assert_eq!(
        parse("let = 1;"),
        Err(ParseError::ExpectedIdentifier {
            found: Some(token(TokenKind::OperatorAssignment, "="))
        })
    );
    assert_eq!(
        parse("let let = 1;"),
        Err(ParseError::ExpectedIdentifier {
            found: Some(token(TokenKind::Declarator, "let"))
        })
    );
    assert_eq!(
        parse("const"),
        Err(ParseError::ExpectedIdentifier { found: None })
    );
}

#[test]
fn missing_assignment_is_an_error() {
    assert_eq!(
        parse("let x 1;"),
        Err(ParseError::ExpectedAssignment {
            found: Some(token(TokenKind::Number, "1"))
        })
    );
    assert_eq!(
        parse("let x"),
        Err(ParseError::ExpectedAssignment { found: None })
    );
}

#[test]
fn missing_operand_is_an_error() {
    assert_eq!(
        parse("let x = ;"),
        Err(ParseError::ExpectedExpression {
            found: Some(token(TokenKind::EndOfLine, ";"))
        })
    );
    assert_eq!(
        parse("let x = 1 + ;"),
        Err(ParseError::ExpectedExpression {
            found: Some(token(TokenKind::EndOfLine, ";"))
        })
    );
    assert_eq!(
        parse("let x = y;"),
        Err(ParseError::ExpectedExpression {
            found: Some(token(TokenKind::Identifier, "y"))
        })
    );
    assert_eq!(
        parse("let x = 1 *"),
        Err(ParseError::ExpectedExpression { found: None })
    );
    assert_eq!(
        parse("let x = - 1;"),
        Err(ParseError::ExpectedExpression {
            found: Some(token(TokenKind::OperatorInfixMinus, "-"))
        })
    );
}

#[test]
fn statement_must_begin_with_a_declarator() {
    assert_eq!(
        parse("x = 1;"),
        Err(ParseError::UnexpectedToken {
            token: token(TokenKind::Identifier, "x")
        })
    );
    assert_eq!(
        parse("let a = 1;;"),
        Err(ParseError::UnexpectedToken {
            token: token(TokenKind::EndOfLine, ";")
        })
    );
}

#[test]
fn number_with_two_points_is_invalid() {
    assert_eq!(
        parse("let x = 1.2.3;"),
        Err(ParseError::InvalidNumber {
            literal: "1.2.3".to_string()
        })
    );
    assert_eq!(
        parse("let x = 2 * 1..;"),
        Err(ParseError::InvalidNumber {
            literal: "1..".to_string()
        })
    );
}

#[test]
fn first_error_wins() {
    assert_eq!(
        parse("let 1 = (;"),
        Err(ParseError::ExpectedIdentifier {
            found: Some(token(TokenKind::Number, "1"))
        })
    );
    assert_eq!(
        parse("let a = 1; let b = 2 ? let"),
        Err(ParseError::Lex(LexError {
            character: '?',
            position: 21
        }))
    );
    assert_eq!(
        parse("let a ?"),
        Err(ParseError::Lex(LexError {
            character: '?',
            position: 6
        }))
    );
    assert_eq!(
        parse("let ?"),
        Err(ParseError::Lex(LexError {
            character: '?',
            position: 4
        }))
    );
}

#[test]
fn errors_name_the_kind_they_expected() {
    assert_eq!(
        ParseError::ExpectedIdentifier { found: None }.expected(),
        Some(TokenKind::Identifier)
    );
    assert_eq!(
        ParseError::ExpectedAssignment { found: None }.expected(),
        Some(TokenKind::OperatorAssignment)
    );
    assert_eq!(
        ParseError::ExpectedExpression { found: None }.expected(),
        Some(TokenKind::Number)
    );
    assert_eq!(
        ParseError::ExpectedTerminator { found: None }.expected(),
        Some(TokenKind::EndOfLine)
    );
    assert_eq!(
        ParseError::UnexpectedToken {
            token: token(TokenKind::Number, "1")
        }
        .expected(),
        Some(TokenKind::Declarator)
    );
    assert_eq!(
        ParseError::InvalidNumber {
            literal: "1.2.3".to_string()
        }
        .expected(),
        None
    );
    assert_eq!(
        ParseError::Lex(LexError {
            character: '(',
            position: 0
        })
        .expected(),
        None
    );
}

#[test]
fn expression_stops_at_an_operator_below_the_threshold() {
    let mut parser = Parser::new(Lexer::new("1 * 2 + 3 * 4".to_string()));
    assert_eq!(
        parser.parse_expression(7),
        Ok(binary(
            number("1"),
            BinaryOperator::Multiply,
            number("2")
        ))
    );
    let mut parser = Parser::new(Lexer::new("1 * 2 + 3 * 4".to_string()));
    assert_eq!(parser.parse_expression(9), Ok(number("1")));
    let mut parser = Parser::new(Lexer::new("1 * 2 + 3 * 4".to_string()));
    assert_eq!(
        parser.parse_expression(6),
        Ok(binary(
            binary(number("1"), BinaryOperator::Multiply, number("2")),
            BinaryOperator::Plus,
            binary(number("3"), BinaryOperator::Multiply, number("4")),
        ))
    );
}

#[test]
fn expression_leaves_what_follows_it() {
    let mut parser = Parser::new(Lexer::new("1 + 2 let x = 3;".to_string()));
    assert_eq!(
        parser.parse_expression(0),
        Ok(binary(number("1"), BinaryOperator::Plus, number("2")))
    );
    assert_eq!(parser.parse(), Ok(vec![let_statement("x", number("3"))]));
}

#[test]
fn binding_powers_follow_the_table() {
    assert_eq!(
        infix_binding_power(TokenKind::OperatorInfixPlus),
        Some((6, 7))
    );
    assert_eq!(
        infix_binding_power(TokenKind::OperatorInfixMinus),
        Some((6, 7))
    );
    assert_eq!(
        infix_binding_power(TokenKind::OperatorInfixMultiply),
        Some((8, 9))
    );
    assert_eq!(
        infix_binding_power(TokenKind::OperatorInfixDivide),
        Some((8, 9))
    );
    assert_eq!(infix_binding_power(TokenKind::OperatorAssignment), None);
    assert_eq!(infix_binding_power(TokenKind::Identifier), None);
    assert_eq!(infix_binding_power(TokenKind::Declarator), None);
    assert_eq!(infix_binding_power(TokenKind::LiteralString), None);
    assert_eq!(infix_binding_power(TokenKind::Number), None);
    assert_eq!(infix_binding_power(TokenKind::EndOfLine), None);
}

#[test]
fn infix_expression_takes_the_operator_of_the_token() {
    assert_eq!(
        make_infix_expression(
            number("1"),
            token(TokenKind::OperatorInfixPlus, "+"),
            number("2")
        ),
        binary(number("1"), BinaryOperator::Plus, number("2"))
    );
    assert_eq!(
        make_infix_expression(
            number("1"),
            token(TokenKind::OperatorInfixMinus, "-"),
            number("2")
        ),
        binary(number("1"), BinaryOperator::Minus, number("2"))
    );
    assert_eq!(
        make_infix_expression(
            number("1"),
            token(TokenKind::OperatorInfixMultiply, "*"),
            number("2")
        ),
        binary(number("1"), BinaryOperator::Multiply, number("2"))
    );
    assert_eq!(
        make_infix_expression(
            number("1"),
            token(TokenKind::OperatorInfixDivide, "/"),
            number("2")
        ),
        binary(number("1"), BinaryOperator::Divide, number("2"))
    );
}

#[test]
fn number_literal_accepts_decimal_numbers_only() {
    assert_eq!(
        NumberLiteral::new("42".to_string()).unwrap().as_str(),
        "42"
    );
    assert_eq!(
        NumberLiteral::new("0.5".to_string()).unwrap().as_str(),
        "0.5"
    );
    assert_eq!(NumberLiteral::new("7.".to_string()).unwrap().as_str(), "7.");
    assert_eq!(
        NumberLiteral::new(String::new()),
        Err(String::new())
    );
    assert_eq!(
        NumberLiteral::new(".5".to_string()),
        Err(".5".to_string())
    );
    assert_eq!(
        NumberLiteral::new("1.2.3".to_string()),
        Err("1.2.3".to_string())
    );
    assert_eq!(
        NumberLiteral::new("1_0".to_string()),
        Err("1_0".to_string())
    );
    assert_eq!(
        NumberLiteral::new("12a".to_string()),
        Err("12a".to_string())
    );
    assert_eq!(
        NumberLiteral::new("\u{661}".to_string()),
        Err("\u{661}".to_string())
    );
}

#[test]
fn character_outside_the_alphabet_makes_any_source_fail() {
    let source: Vec<char> = "let a = 1 + 2; const b = 3 * 4;".chars().collect();
    for stray in ['(', ')', '#', '{', '"', '\'', '`', '\u{201c}'] {
        for at in 0..=source.len() {
            let mut changed: String = source[..at].iter().collect();
            changed.push(stray);
            changed.extend(source[at..].iter());
            assert!(parse(&changed).is_err(), "{:?}", changed);
        }
    }
}

#[test]
fn whitespace_between_any_two_tokens_changes_nothing() {
    let texts = [
        "const", "area", "=", "3.14", "*", "2", "*", "2", "-", "1", "/", "4", ";", "let", "b",
        "=", "7", ";",
    ];
    let expected = parse("const area = 3.14 * 2 * 2 - 1 / 4; let b = 7;");
    assert!(expected.is_ok());
    for gap in ["", " ", "\t", "\n", "\r\n", "  \t "] {
        for at in 0..=texts.len() {
            let mut source = String::new();
            for (i, text) in texts.iter().enumerate() {
                if i == at {
                    source.push_str(gap);
                } else if i > 0 {
                    source.push(' ');
                }
                source.push_str(text);
            }
            if at == texts.len() {
                source.push_str(gap);
            }
            // Without whitespace two words would run together, and so would
            // a word and the number behind it.
            let glued = gap.is_empty() && (at == 1 || at == 14);
            assert_eq!(parse(&source) == expected, !glued, "{:?}", source);
        }
    }
}

#[test]
fn program_written_out_parses_to_itself() {
    let first = parse("let\ta=1+2*3;const b=4/2-1;").unwrap();
    let second = parse("let a = 1 + 2 * 3 ; const b = 4 / 2 - 1 ;").unwrap();
    assert_eq!(first, second);
    assert_eq!(
        first,
        vec![
            let_statement(
                "a",
                binary(
                    number("1"),
                    BinaryOperator::Plus,
                    binary(number("2"), BinaryOperator::Multiply, number("3")),
                ),
            ),
            const_statement(
                "b",
                binary(
                    binary(number("4"), BinaryOperator::Divide, number("2")),
                    BinaryOperator::Minus,
                    number("1"),
                ),
            ),
        ]
    );
}
