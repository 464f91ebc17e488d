//! Lexer tests: token streams, positions, and the lexical error cases.

use rhai::error::LexError;
use rhai::lexer::lex;
use rhai::position::Position;
use rhai::token::Token;

fn lex_str(s: &str) -> Result<Vec<(Token, Position)>, (LexError, Position)> {
    let chars: Vec<char> = s.chars().collect();
    lex(&chars)
}

#[test]
fn lexes_simple_statement_with_positions() {
    let toks = lex_str("let x = 42;").unwrap();
    let kinds: Vec<&Token> = toks.iter().map(|t| &t.0).collect();
    assert!(matches!(kinds[0], Token::Let));
    assert!(matches!(kinds[1], Token::Identifier(s) if s == "x"));
    assert!(matches!(kinds[2], Token::Equals));
    assert!(matches!(kinds[3], Token::NumberConstant(s) if s == "42"));
    assert!(matches!(kinds[4], Token::SemiColon));
    assert_eq!(toks[0].1, Position::new(1, 1));
    assert_eq!(toks[1].1, Position::new(1, 5));
    assert_eq!(toks[2].1, Position::new(1, 7));
    assert_eq!(toks[3].1, Position::new(1, 9));
    assert_eq!(toks[4].1, Position::new(1, 11));
}

#[test]
fn tracks_lines_and_columns() {
    let toks = lex_str("a\n  b").unwrap();
    assert_eq!(toks[0].1, Position::new(1, 1));
    assert_eq!(toks[1].1, Position::new(2, 3));
}

#[test]
fn empty_input_gives_no_tokens() {
    assert_eq!(lex_str("").unwrap().len(), 0);
    assert_eq!(lex_str("   \t\n ").unwrap().len(), 0);
}

#[test]
fn skips_line_and_block_comments() {
    let toks = lex_str("// note\n1").unwrap();
    assert_eq!(toks.len(), 1);
    assert_eq!(toks[0].1, Position::new(2, 1));
    let toks2 = lex_str("/* a /* nested */ b */ 7").unwrap();
    assert_eq!(toks2.len(), 1);
    assert!(matches!(&toks2[0].0, Token::NumberConstant(s) if s == "7"));
    assert_eq!(toks2[0].1, Position::new(1, 24));
}

#[test]
fn valid_number_forms() {
    for good in ["0", "42", "1_000", "3.14", "10.0", "0x1F", "0xab_cd"] {
        let toks = lex_str(good).unwrap();
        assert!(
            matches!(&toks[0].0, Token::NumberConstant(s) if s == good),
            "{good} should lex as a number"
        );
    }
}

#[test]
fn malformed_numbers_are_rejected() {
    for bad in ["1.2.3", "12ab", "0x", "1.", "1._5", "1e5", "0xZ"] {
        match lex_str(bad) {
            Err((LexError::MalformedNumber(s), _)) => assert_eq!(&s, bad),
            other => panic!("{bad} should be a malformed number, got {other:?}"),
        }
    }
}

#[test]
fn string_literal_with_escapes() {
    let toks = lex_str("\"a\\nb\\t\\\"c\\\\\"").unwrap();
    assert!(matches!(&toks[0].0, Token::StringConstant(s) if s == "a\nb\t\"c\\"));
}

#[test]
fn unterminated_string_cases() {
    assert!(matches!(
        lex_str("\"abc"),
        Err((LexError::UnterminatedString, _))
    ));
    assert!(matches!(
        lex_str("\"abc\ndef\""),
        Err((LexError::UnterminatedString, _))
    ));
}

#[test]
fn malformed_escape_sequence() {
    match lex_str("\"a\\qb\"") {
        Err((LexError::MalformedEscapeSequence(s), _)) => assert_eq!(s, "q"),
        other => panic!("expected malformed escape, got {other:?}"),
    }
}

#[test]
fn numeric_escape_sequences() {
    let toks = lex_str("\"\\x41\\u0042\\U00000043\"").unwrap();
    assert!(matches!(&toks[0].0, Token::StringConstant(s) if s == "ABC"));
    let snowman = lex_str("'\\u2603'").unwrap();
    assert!(matches!(&snowman[0].0, Token::CharConstant('\u{2603}')));
}

#[test]
fn invalid_numeric_escapes() {
    // A surrogate value is no scalar.
    match lex_str("\"\\uD800\"") {
        Err((LexError::MalformedEscapeSequence(s), _)) => assert_eq!(s, "u"),
        other => panic!("expected malformed escape, got {other:?}"),
    }
    // A non-hex digit inside the escape.
    match lex_str("\"\\xZ1\"") {
        Err((LexError::MalformedEscapeSequence(s), _)) => assert_eq!(s, "x"),
        other => panic!("expected malformed escape, got {other:?}"),
    }
    // The input ends inside the digits.
    assert!(matches!(
        lex_str("\"\\u00"),
        Err((LexError::UnterminatedString, _))
    ));
}

#[test]
fn literal_errors_carry_failure_point() {
    // The bad escape's backslash sits at column 4.
    match lex_str("\"ab\\qc\"") {
        Err((LexError::MalformedEscapeSequence(_), p)) => assert_eq!(p, Position::new(1, 4)),
        other => panic!("expected malformed escape, got {other:?}"),
    }
    // The unterminated literal fails where the input ends.
    match lex_str("\"abc") {
        Err((LexError::UnterminatedString, p)) => assert_eq!(p, Position::new(1, 5)),
        other => panic!("expected unterminated string, got {other:?}"),
    }
    // A newline inside the literal fails at the newline's column.
    match lex_str("\"ab\ncd\"") {
        Err((LexError::UnterminatedString, p)) => assert_eq!(p, Position::new(1, 4)),
        other => panic!("expected unterminated string, got {other:?}"),
    }
}

#[test]
fn char_literals() {
    let toks = lex_str("'a'").unwrap();
    assert!(matches!(&toks[0].0, Token::CharConstant('a')));
    let esc = lex_str("'\\n'").unwrap();
    assert!(matches!(&esc[0].0, Token::CharConstant('\n')));
    match lex_str("'ab'") {
        Err((LexError::MalformedChar(s), _)) => assert_eq!(s, "ab"),
        other => panic!("expected malformed char, got {other:?}"),
    }
}

#[test]
fn malformed_identifier_of_underscores() {
    match lex_str("___") {
        Err((LexError::MalformedIdentifier(s), _)) => assert_eq!(s, "___"),
        other => panic!("expected malformed identifier, got {other:?}"),
    }
    let ok = lex_str("_x __private a_b").unwrap();
    assert_eq!(ok.len(), 3);
}

#[test]
fn unexpected_character_with_position() {
    match lex_str("let $") {
        Err((LexError::UnexpectedChar(c), p)) => {
            assert_eq!(c, '$');
            assert_eq!(p, Position::new(1, 5));
        }
        other => panic!("expected unexpected char, got {other:?}"),
    }
}

#[test]
fn keywords_and_operators() {
    let toks =
        lex_str("if else while loop for in break return fn import true false const").unwrap();
    let expected = [
        Token::If,
        Token::Else,
        Token::While,
        Token::Loop,
        Token::For,
        Token::In,
        Token::Break,
        Token::Return,
        Token::Fn,
        Token::Import,
        Token::True,
        Token::False,
        Token::Const,
    ];
    for (got, want) in toks.iter().zip(expected.iter()) {
        assert_eq!(&got.0, want);
    }
    let ops = lex_str("== != <= >= && || = ! < > + - * / % & | ^").unwrap();
    let expected_ops = [
        Token::EqualsTo,
        Token::NotEqualsTo,
        Token::LessThanEqual,
        Token::GreaterThanEqual,
        Token::AndAnd,
        Token::OrOr,
        Token::Equals,
        Token::Bang,
        Token::LessThan,
        Token::GreaterThan,
        Token::Plus,
        Token::Minus,
        Token::Star,
        Token::Slash,
        Token::Percent,
        Token::Ampersand,
        Token::Pipe,
        Token::Caret,
    ];
    for (got, want) in ops.iter().zip(expected_ops.iter()) {
        assert_eq!(&got.0, want);
    }
}
