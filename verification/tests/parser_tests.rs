use lox_core::expr::Expr;
use lox_core::lexer::Lexer;
use lox_core::parser::{Parser, ParserError};
use lox_core::token::TokenKind;

fn parse(src: &[u8]) -> Result<Expr, ParserError> {
    let mut lexer = Lexer::new(src.to_vec());
    let mut parser = Parser::new(lexer.tokenize());
    parser.parse()
}

fn rendered(src: &[u8]) -> String {
    String::from_utf8(parse(src).unwrap().render()).unwrap()
}

#[test]
fn parse_precedence_multiplication_binds_tighter() {
    // standard precedence: `1 + 2 * 3` is `(+ 1 (* 2 3))`
    assert_eq!(rendered(b"1 + 2 * 3"), "(+ 1 (* 2 3))");
}

#[test]
fn parse_precedence_full_hierarchy() {
    assert_eq!(
        rendered(b"1 == 2 < 3 + 4 * -5"),
        "(== 1 (< 2 (+ 3 (* 4 (- 5)))))"
    );
}

#[test]
fn parse_grouping_overrides_precedence() {
    assert_eq!(rendered(b"(1 + 2) * 3"), "(* (group (+ 1 2)) 3)");
}

#[test]
fn parse_subtraction_left_associative() {
    assert_eq!(rendered(b"8 - 4 - 2"), "(- (- 8 4) 2)");
}

#[test]
fn parse_equality_left_associative() {
    assert_eq!(rendered(b"1 == 2 != 3"), "(!= (== 1 2) 3)");
}

#[test]
fn parse_unary_right_associative() {
    assert_eq!(rendered(b"!!true"), "(! (! true))");
    assert_eq!(rendered(b"--1"), "(- (- 1))");
}

#[test]
fn parse_comma_operator() {
    assert_eq!(rendered(b"1, 2, 3"), "(, (, 1 2) 3)");
}

#[test]
fn parse_ternary() {
    assert_eq!(rendered(b"true ? 1 : 2"), "(true ? 1 : 2)");
}

#[test]
fn parse_ternary_branches_at_equality_level() {
    assert_eq!(rendered(b"1 < 2 ? 3 + 4 : 5"), "((< 1 2) ? (+ 3 4) : 5)");
}

#[test]
fn parse_ternary_missing_colon_is_error() {
    match parse(b"1 ? 2 3") {
        Err(ParserError::UnexpectedToken(t)) => {
            assert!(matches!(t.kind, TokenKind::Number(_)));
        }
        other => panic!("expected an unexpected-token error, got {:?}", other),
    }
}

#[test]
fn parse_dangling_paren_is_eof_error() {
    // a dangling `(` yields an end-of-input error, never a partial tree
    assert!(matches!(parse(b"(1 + 2"), Err(ParserError::Eof)));
}

#[test]
fn parse_empty_source_is_eof_error() {
    assert!(matches!(parse(b""), Err(ParserError::Eof)));
}

#[test]
fn parse_unexpected_token_is_reported_with_the_token() {
    match parse(b")") {
        Err(ParserError::UnexpectedToken(t)) => {
            assert_eq!(t.kind, TokenKind::RightParen);
        }
        other => panic!("expected an unexpected-token error, got {:?}", other),
    }
}

#[test]
fn parse_skips_whitespace_and_comments() {
    // Skip and Comment tokens are dropped on construction, so these
    // parse to the same tree
    assert_eq!(rendered(b"1 + // note\n2"), rendered(b"1 + 2"));
    assert_eq!(rendered(b"1 /* x */ + 2"), "(+ 1 2)");
}

#[test]
fn parse_string_and_literals() {
    assert_eq!(rendered(b"\"hi\""), "hi");
    assert_eq!(rendered(b"nil"), "nil");
    assert_eq!(rendered(b"false"), "false");
    assert_eq!(rendered(b"3.14"), "3.14");
}

#[test]
fn parser_synchronize_stops_after_statement_boundary() {
    let mut lexer = Lexer::new(b"1 2 ; 3".to_vec());
    let mut parser = Parser::new(lexer.tokenize());
    parser.synchronize();
    // tokens after filtering: 1 2 ; 3 — the boundary is the `;`
    assert_eq!(parser.current, 3);
    parser.synchronize();
    // no further boundary: runs to the end
    assert_eq!(parser.current, 4);
}
