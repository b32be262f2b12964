use lox_core::lexer::{LexError, Lexer};
use lox_core::number::NumberValue;
use lox_core::token::{Span, Token, TokenKind};

fn lex(src: &[u8]) -> Vec<Token> {
    let mut lexer = Lexer::new(src.to_vec());
    lexer.tokenize()
}

fn kinds(src: &[u8]) -> Vec<TokenKind> {
    lex(src).into_iter().map(|t| t.kind).collect()
}

#[test]
fn lex_single_character_tokens() {
    assert_eq!(
        kinds(b"(){},.-+;*?:"),
        vec![
            TokenKind::LeftParen,
            TokenKind::RightParen,
            TokenKind::LeftBrace,
            TokenKind::RightBrace,
            TokenKind::Comma,
            TokenKind::Dot,
            TokenKind::Minus,
            TokenKind::Plus,
            TokenKind::SemiColon,
            TokenKind::Star,
            TokenKind::QuestionMark,
            TokenKind::Colon,
        ]
    );
}

#[test]
fn lex_two_character_operators() {
    assert_eq!(
        kinds(b"!= == <= >= ! = < >"),
        vec![
            TokenKind::BangEqual,
            TokenKind::Skip(b' '),
            TokenKind::EqualEqual,
            TokenKind::Skip(b' '),
            TokenKind::LessEqual,
            TokenKind::Skip(b' '),
            TokenKind::GreaterEqual,
            TokenKind::Skip(b' '),
            TokenKind::Bang,
            TokenKind::Skip(b' '),
            TokenKind::Equal,
            TokenKind::Skip(b' '),
            TokenKind::Less,
            TokenKind::Skip(b' '),
            TokenKind::Greater,
        ]
    );
}

#[test]
fn lex_spans_cover_lexemes() {
    assert_eq!(
        lex(b"1 + 23"),
        vec![
            Token::new(TokenKind::Number(NumberValue { num: 1, den: 1 }), Span::new(0, 1)),
            Token::new(TokenKind::Skip(b' '), Span::new(1, 2)),
            Token::new(TokenKind::Plus, Span::new(2, 3)),
            Token::new(TokenKind::Skip(b' '), Span::new(3, 4)),
            Token::new(TokenKind::Number(NumberValue { num: 23, den: 1 }), Span::new(4, 6)),
        ]
    );
}

#[test]
fn lex_whitespace_becomes_skip_tokens() {
    assert_eq!(
        kinds(b"\n\r\t "),
        vec![
            TokenKind::Skip(b'\n'),
            TokenKind::Skip(b'\r'),
            TokenKind::Skip(b'\t'),
            TokenKind::Skip(b' '),
        ]
    );
}

#[test]
fn lex_line_comment() {
    assert_eq!(
        kinds(b"// hi\n1"),
        vec![
            TokenKind::Comment(b" hi".to_vec()),
            TokenKind::Skip(b'\n'),
            TokenKind::Number(NumberValue { num: 1, den: 1 }),
        ]
    );
}

#[test]
fn lex_block_comment_tracks_to_closing() {
    assert_eq!(
        kinds(b"/* a\nb */+"),
        vec![TokenKind::Comment(b" a\nb ".to_vec()), TokenKind::Plus]
    );
}

#[test]
fn lex_unterminated_block_comment_takes_rest() {
    assert_eq!(kinds(b"/*x"), vec![TokenKind::Comment(b"x".to_vec())]);
}

#[test]
fn lex_string_literal() {
    assert_eq!(
        lex(b"\"ab\""),
        vec![Token::new(TokenKind::String(b"ab".to_vec()), Span::new(0, 4))]
    );
}

#[test]
fn lex_unterminated_string_is_error_token() {
    // an unterminated string yields an in-band lexical error, not a panic
    assert_eq!(
        kinds(b"\"abc"),
        vec![TokenKind::Error(LexError::UnterminatedString)]
    );
}

#[test]
fn lex_integer_number() {
    assert_eq!(
        kinds(b"42"),
        vec![TokenKind::Number(NumberValue { num: 42, den: 1 })]
    );
}

#[test]
fn lex_decimal_number() {
    assert_eq!(
        kinds(b"3.14"),
        vec![TokenKind::Number(NumberValue { num: 314, den: 100 })]
    );
}

#[test]
fn lex_trailing_dot_not_consumed() {
    assert_eq!(
        kinds(b"7."),
        vec![
            TokenKind::Number(NumberValue { num: 7, den: 1 }),
            TokenKind::Dot,
        ]
    );
}

#[test]
fn lex_keywords_and_identifiers() {
    assert_eq!(
        kinds(b"and andy nil"),
        vec![
            TokenKind::And,
            TokenKind::Skip(b' '),
            TokenKind::Identifier(b"andy".to_vec()),
            TokenKind::Skip(b' '),
            TokenKind::Nil,
        ]
    );
}

#[test]
fn lex_all_keywords() {
    assert_eq!(
        kinds(b"and class else false fun for if nil or print return super this true var while")
            .into_iter()
            .filter(|k| !matches!(k, TokenKind::Skip(_)))
            .collect::<Vec<_>>(),
        vec![
            TokenKind::And,
            TokenKind::Class,
            TokenKind::Else,
            TokenKind::False,
            TokenKind::Fun,
            TokenKind::For,
            TokenKind::If,
            TokenKind::Nil,
            TokenKind::Or,
            TokenKind::Print,
            TokenKind::Return,
            TokenKind::Super,
            TokenKind::This,
            TokenKind::True,
            TokenKind::Var,
            TokenKind::While,
        ]
    );
}

#[test]
fn lex_unrecognized_character_is_error_token() {
    assert_eq!(
        kinds(b"@"),
        vec![TokenKind::Error(LexError::UnrecognizedCharacter)]
    );
}

#[test]
fn lex_number_too_large_is_error_token() {
    // 20 nines exceeds the 64-bit numeric domain
    assert_eq!(
        kinds(b"99999999999999999999"),
        vec![TokenKind::Error(LexError::NumberTooLarge)]
    );
    // the largest representable integer still lexes
    assert_eq!(
        kinds(b"9223372036854775807"),
        vec![TokenKind::Number(NumberValue { num: i64::MAX, den: 1 })]
    );
}

#[test]
fn lex_too_many_fraction_digits_is_error_token() {
    assert_eq!(
        kinds(b"1.0000000000000000000"),
        vec![TokenKind::Error(LexError::NumberTooLarge)]
    );
}

#[test]
fn lex_empty_source() {
    assert_eq!(lex(b""), vec![]);
}

#[test]
fn lex_nul_byte_ends_input() {
    assert_eq!(
        kinds(&[b'1', 0, b'2']),
        vec![TokenKind::Number(NumberValue { num: 1, den: 1 })]
    );
}

#[test]
fn relex_same_source_is_deterministic() {
    let src = b"1 + 2 * (3 - \"x\") // done";
    assert_eq!(lex(src), lex(src));
}

#[test]
fn lexer_error_messages() {
    assert_eq!(
        LexError::UnterminatedString.message(),
        b"Unterminated String".to_vec()
    );
    assert_eq!(
        LexError::UnrecognizedCharacter.message(),
        b"Unrecognized Character".to_vec()
    );
    assert_eq!(LexError::NumberTooLarge.message(), b"Number Too Large".to_vec());
}

#[test]
fn lexer_next_token_pulls_one_at_a_time() {
    let mut lexer = Lexer::new(b"()".to_vec());
    assert!(!lexer.is_at_end());
    assert_eq!(
        lexer.next_token(),
        Some(Token::new(TokenKind::LeftParen, Span::new(0, 1)))
    );
    assert_eq!(
        lexer.next_token(),
        Some(Token::new(TokenKind::RightParen, Span::new(1, 2)))
    );
    assert!(lexer.is_at_end());
    assert_eq!(lexer.next_token(), None);
}
