use lox_core::interpreter::Output;
use lox_core::lexer::Lexer;
use lox_core::lox::{Lox, LoxError};
use lox_core::number::NumberValue;
use lox_core::parser::Parser;
use lox_core::token::{Span, Token, TokenKind};

#[test]
fn run_renders_the_parse_tree() {
    let mut lox = Lox::new();
    assert_eq!(lox.run(b"1 + 2 * 3".to_vec()), Ok(b"(+ 1 (* 2 3))".to_vec()));
    assert_eq!(lox.contents, b"1 + 2 * 3".to_vec());
}

#[test]
fn run_reports_end_of_file() {
    let mut lox = Lox::new();
    assert_eq!(
        lox.run(b"(1 + 2".to_vec()),
        Err(LoxError::ParserError(b"Reached end of file".to_vec()))
    );
}

#[test]
fn run_reports_unexpected_token() {
    let mut lox = Lox::new();
    assert_eq!(
        lox.run(b")".to_vec()),
        Err(LoxError::ParserError(b"Unexpected token )".to_vec()))
    );
}

#[test]
fn run_twice_is_deterministic() {
    let mut a = Lox::new();
    let mut b = Lox::new();
    let src = b"(8 - 4) - 2 <= 1 ? \"y\" : \"n\"";
    assert_eq!(a.run(src.to_vec()), b.run(src.to_vec()));
}

#[test]
fn parser_consumes_exactly_the_filtered_tokens() {
    // the parser's tokens are the lexer's output minus Skip and Comment
    let src = b"1 + // c\n 2";
    let mut lexer = Lexer::new(src.to_vec());
    let all = lexer.tokenize();
    let expected: Vec<Token> = all
        .iter()
        .filter(|t| !matches!(t.kind, TokenKind::Skip(_) | TokenKind::Comment(_)))
        .cloned()
        .collect();
    let parser = Parser::new(all);
    assert_eq!(parser.tokens, expected);
    assert_eq!(parser.current, 0);
}

#[test]
fn token_rendering() {
    let t = Token::new(
        TokenKind::Number(NumberValue { num: 314, den: 100 }),
        Span::new(0, 4),
    );
    assert_eq!(t.render(), b"3.14".to_vec());
    let k = Token::new(TokenKind::And, Span::new(0, 3));
    assert_eq!(k.render(), b"and".to_vec());
    let s = Token::new(TokenKind::Skip(b' '), Span::new(0, 1));
    assert_eq!(s.render(), b"skip  ".to_vec());
    let e = Token::new(
        TokenKind::Error(lox_core::lexer::LexError::UnterminatedString),
        Span::new(0, 1),
    );
    assert_eq!(e.render(), b"error Unterminated String".to_vec());
}

#[test]
fn number_rendering() {
    assert_eq!(Output::Number(NumberValue { num: 2, den: 1 }).render(), b"2".to_vec());
    assert_eq!(Output::Number(NumberValue { num: -2, den: 1 }).render(), b"-2".to_vec());
    assert_eq!(Output::Number(NumberValue { num: 314, den: 100 }).render(), b"3.14".to_vec());
    assert_eq!(Output::Number(NumberValue { num: 5, den: 100 }).render(), b"0.05".to_vec());
    // a denominator that is no power of ten renders as a fraction
    assert_eq!(Output::Number(NumberValue { num: 1, den: 3 }).render(), b"1/3".to_vec());
    assert_eq!(Output::Number(NumberValue { num: -1, den: 3 }).render(), b"-1/3".to_vec());
}

#[test]
fn value_rendering() {
    assert_eq!(Output::Boolean(true).render(), b"true".to_vec());
    assert_eq!(Output::Boolean(false).render(), b"false".to_vec());
    assert_eq!(Output::Nil.render(), b"nil".to_vec());
    assert_eq!(Output::String(b"hi".to_vec()).render(), b"hi".to_vec());
}

#[test]
fn expression_rendering_matches_structure() {
    let mut lexer = Lexer::new(b"-1 * (2 + 3)".to_vec());
    let mut parser = Parser::new(lexer.tokenize());
    let expr = parser.parse().unwrap();
    assert_eq!(expr.render(), b"(* (- 1) (group (+ 2 3)))".to_vec());
}
