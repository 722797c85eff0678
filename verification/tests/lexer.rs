use letlang::error::LexError;
use letlang::lexer::Lexer;
use letlang::token::{Token, TokenKind};

fn tokens_of(source: &str) -> Vec<Token> {
    Lexer::new(source.to_string()).lex().unwrap()
}

fn token(kind: TokenKind, literal: &str) -> Token {
    Token::new(kind, literal.to_string())
}

#[test]
fn token_new_keeps_kind_and_literal() {
    let t = Token::new(TokenKind::Identifier, "abc".to_string());
    assert_eq!(t.kind, TokenKind::Identifier);
    assert_eq!(t.literal, "abc");
}

#[test]
fn empty_source_has_no_token() {
    let mut lexer = Lexer::new(String::new());
    assert_eq!(lexer.next(), Ok(None));
    assert_eq!(lexer.next(), Ok(None));
    assert_eq!(lexer.peek(), Ok(None));
    assert_eq!(tokens_of(""), vec![]);
}

#[test]
fn whitespace_only_source_has_no_token() {
    let mut lexer = Lexer::new(" \t\r\n  ".to_string());
    assert_eq!(lexer.next(), Ok(None));
    assert_eq!(lexer.next(), Ok(None));
}

#[test]
fn symbols_are_single_character_tokens() {
    assert_eq!(
        tokens_of(";=+-*/"),
        vec![
            token(TokenKind::EndOfLine, ";"),
            token(TokenKind::OperatorAssignment, "="),
            token(TokenKind::OperatorInfixPlus, "+"),
            token(TokenKind::OperatorInfixMinus, "-"),
            token(TokenKind::OperatorInfixMultiply, "*"),
            token(TokenKind::OperatorInfixDivide, "/"),
        ]
    );
}

#[test]
fn declaration_is_tokenized_in_order() {
    assert_eq!(
        tokens_of("let x = 42.5;"),
        vec![
            token(TokenKind::Declarator, "let"),
            token(TokenKind::Identifier, "x"),
            token(TokenKind::OperatorAssignment, "="),
            token(TokenKind::Number, "42.5"),
            token(TokenKind::EndOfLine, ";"),
        ]
    );
}

#[test]
fn const_is_a_declarator() {
    assert_eq!(
        tokens_of("const"),
        vec![token(TokenKind::Declarator, "const")]
    );
}

#[test]
fn digit_group_underscores_are_stripped() {
    assert_eq!(
        tokens_of("1_000_000"),
        vec![token(TokenKind::Number, "1000000")]
    );
}

#[test]
fn number_takes_every_point() {
    assert_eq!(tokens_of("1.2.3"), vec![token(TokenKind::Number, "1.2.3")]);
}

#[test]
fn number_ends_before_a_letter() {
    assert_eq!(
        tokens_of("12ab"),
        vec![
            token(TokenKind::Number, "12"),
            token(TokenKind::Identifier, "ab"),
        ]
    );
}

#[test]
fn declarator_needs_an_exact_match() {
    assert_eq!(
        tokens_of("letx = 1;"),
        vec![
            token(TokenKind::Identifier, "letx"),
            token(TokenKind::OperatorAssignment, "="),
            token(TokenKind::Number, "1"),
            token(TokenKind::EndOfLine, ";"),
        ]
    );
    assert_eq!(
        tokens_of("constant le Let"),
        vec![
            token(TokenKind::Identifier, "constant"),
            token(TokenKind::Identifier, "le"),
            token(TokenKind::Identifier, "Let"),
        ]
    );
}

#[test]
fn identifier_may_hold_underscores_digits_and_letters_beyond_ascii() {
    assert_eq!(
        tokens_of("_a1 caf\u{e9} x\u{b2}"),
        vec![
            token(TokenKind::Identifier, "_a1"),
            token(TokenKind::Identifier, "caf\u{e9}"),
            token(TokenKind::Identifier, "x\u{b2}"),
        ]
    );
}

#[test]
fn string_literal_is_captured_without_its_quotes() {
    assert_eq!(
        tokens_of("\"a b\" 'c' `d`"),
        vec![
            token(TokenKind::LiteralString, "a b"),
            token(TokenKind::LiteralString, "c"),
            token(TokenKind::LiteralString, "d"),
        ]
    );
}

#[test]
fn string_literal_closes_only_at_its_own_quote() {
    assert_eq!(
        tokens_of("\"it's\""),
        vec![token(TokenKind::LiteralString, "it's")]
    );
}

#[test]
fn backslash_takes_the_next_character_as_it_stands() {
    assert_eq!(
        tokens_of("\"a\\\"b\\n\\\\\""),
        vec![token(TokenKind::LiteralString, "a\"bn\\")]
    );
}

#[test]
fn unterminated_string_closes_at_the_end() {
    assert_eq!(
        tokens_of("\"abc"),
        vec![token(TokenKind::LiteralString, "abc")]
    );
    assert_eq!(
        tokens_of("\"abc\\"),
        vec![token(TokenKind::LiteralString, "abc")]
    );
    assert_eq!(tokens_of("'"), vec![token(TokenKind::LiteralString, "")]);
}

#[test]
fn unrecognized_character_is_an_error_with_its_position() {
    let mut lexer = Lexer::new("let x = (1);".to_string());
    assert_eq!(
        lexer.lex(),
        Err(LexError {
            character: '(',
            position: 8
        })
    );
}

#[test]
fn position_counts_characters_not_bytes() {
    let mut lexer = Lexer::new("\u{e9}\u{e9} #".to_string());
    assert_eq!(
        lexer.lex(),
        Err(LexError {
            character: '#',
            position: 3
        })
    );
}

#[test]
fn error_is_repeated_by_later_requests() {
    let mut lexer = Lexer::new("a ? b".to_string());
    assert_eq!(lexer.next(), Ok(Some(token(TokenKind::Identifier, "a"))));
    let error = Err(LexError {
        character: '?',
        position: 2,
    });
    assert_eq!(lexer.peek(), error);
    assert_eq!(lexer.next(), error);
    assert_eq!(lexer.next(), error);
}

#[test]
fn peek_leaves_the_next_token_in_place() {
    let mut lexer = Lexer::new("let  x".to_string());
    let peeked = lexer.peek();
    assert_eq!(peeked, Ok(Some(token(TokenKind::Declarator, "let"))));
    assert_eq!(lexer.peek(), peeked);
    assert_eq!(lexer.next(), peeked);
    assert_eq!(lexer.peek(), Ok(Some(token(TokenKind::Identifier, "x"))));
    assert_eq!(lexer.next(), Ok(Some(token(TokenKind::Identifier, "x"))));
    assert_eq!(lexer.peek(), Ok(None));
    assert_eq!(lexer.next(), Ok(None));
}

#[test]
fn lex_goes_on_from_the_cursor() {
    let mut lexer = Lexer::new("a b c".to_string());
    assert_eq!(lexer.next(), Ok(Some(token(TokenKind::Identifier, "a"))));
    assert_eq!(
        lexer.lex(),
        Ok(vec![
            token(TokenKind::Identifier, "b"),
            token(TokenKind::Identifier, "c"),
        ])
    );
    assert_eq!(lexer.next(), Ok(None));
}

#[test]
fn cursor_moves_one_character_at_a_time() {
    let mut lexer = Lexer::new("abc".to_string());
    assert_eq!(lexer.current_char(), 'a');
    assert!(lexer.inc());
    assert_eq!(lexer.current_char(), 'b');
    assert!(lexer.inc());
    assert_eq!(lexer.current_char(), 'c');
}

#[test]
fn cursor_stays_on_the_last_character() {
    let mut lexer = Lexer::new("ab".to_string());
    assert!(lexer.inc());
    assert_eq!(lexer.current_char(), 'b');
    assert!(!lexer.inc());
    assert_eq!(lexer.current_char(), 'b');
    assert!(!lexer.inc());
    assert_eq!(lexer.current_char(), 'b');
    assert_eq!(lexer.next(), Ok(Some(token(TokenKind::Identifier, "b"))));
    assert_eq!(lexer.next(), Ok(None));
}

#[test]
fn cursor_of_a_single_character_does_not_move() {
    let mut lexer = Lexer::new(";".to_string());
    assert!(!lexer.inc());
    assert_eq!(lexer.current_char(), ';');
    assert_eq!(lexer.next(), Ok(Some(token(TokenKind::EndOfLine, ";"))));
}

#[test]
fn cursor_behind_the_source_does_not_move() {
    let mut lexer = Lexer::new("a".to_string());
    assert_eq!(lexer.next(), Ok(Some(token(TokenKind::Identifier, "a"))));
    assert!(!lexer.inc());
    assert_eq!(lexer.next(), Ok(None));
    assert_eq!(lexer.peek(), Ok(None));
}

#[test]
fn cursor_of_an_empty_source_does_not_move() {
    let mut lexer = Lexer::new(String::new());
    assert!(!lexer.inc());
    assert!(!lexer.inc());
    assert_eq!(lexer.next(), Ok(None));
}

#[test]
fn stepping_into_a_token_yields_its_rest() {
    let mut lexer = Lexer::new("let x".to_string());
    assert!(lexer.inc());
    assert_eq!(lexer.next(), Ok(Some(token(TokenKind::Identifier, "et"))));
    assert_eq!(lexer.next(), Ok(Some(token(TokenKind::Identifier, "x"))));
    assert_eq!(lexer.next(), Ok(None));
}

#[test]
fn tokens_written_with_other_whitespace_are_the_same_tokens() {
    let expected = tokens_of("let x = 1 + 2 ;");
    assert_eq!(expected.len(), 7);
    assert_eq!(tokens_of("let x=1+2;"), expected);
    assert_eq!(tokens_of("\n\nlet\tx\r\n=\n1\n+\n2\n;\n\n"), expected);
    assert_eq!(tokens_of("   let   x   =   1   +   2   ;   "), expected);
    assert_ne!(tokens_of("letx = 1 + 2 ;"), expected);
    assert_ne!(tokens_of("let x = 1 + 2;2"), expected);
}

#[test]
fn every_character_of_the_alphabet_is_accepted() {
    let mut lexer = Lexer::new("a_1 = 2.5_0 + - * / ; \t\r\n Z9".to_string());
    assert_eq!(lexer.lex().map(|tokens| tokens.len()), Ok(9));
}
