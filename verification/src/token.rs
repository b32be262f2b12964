//! Tokens: a classified, positioned unit of lexical input, together with
//! its specification-level view.

use crate::lexer::LexError;
use crate::number::{NumberValue, Rat};
use vstd::prelude::*;

verus! {

/// Byte offsets `[start, end)` of a lexeme in the source buffer.
#[derive(Debug, Clone, Copy, PartialEq, Eq)]
pub struct Span {
    pub start: usize,
    pub end: usize,
}

impl Span {
    pub fn new(start: usize, end: usize) -> (s: Span)
        ensures
            s.start == start,
            s.end == end,
    {
        Span { start, end }
    }
}

/// The classification of one token. Text-bearing kinds own a copy of the
/// relevant bytes of their lexeme; a number carries its parsed value.
#[derive(Debug, Clone, PartialEq, Eq)]
pub enum TokenKind {
    // one-character tokens
    LeftParen,
    RightParen,
    LeftBrace,
    RightBrace,
    Comma,
    Dot,
    Minus,
    Plus,
    SemiColon,
    Slash,
    Star,
    QuestionMark,
    Colon,
    // one- or two-character tokens
    Bang,
    BangEqual,
    Equal,
    EqualEqual,
    Greater,
    GreaterEqual,
    Less,
    LessEqual,
    // literals
    Identifier(Vec<u8>),
    String(Vec<u8>),
    Number(NumberValue),
    // keywords
    And,
    Class,
    Else,
    False,
    Fun,
    For,
    If,
    Nil,
    Or,
    Print,
    Return,
    Super,
    This,
    True,
    Var,
    While,
    // structural markers
    Eof,
    Skip(u8),
    Error(LexError),
    Comment(Vec<u8>),
}

/// Specification-level view of a token kind: owned text becomes a byte
/// sequence and a number becomes its rational value.
pub enum TokenKindView {
    LeftParen,
    RightParen,
    LeftBrace,
    RightBrace,
    Comma,
    Dot,
    Minus,
    Plus,
    SemiColon,
    Slash,
    Star,
    QuestionMark,
    Colon,
    Bang,
    BangEqual,
    Equal,
    EqualEqual,
    Greater,
    GreaterEqual,
    Less,
    LessEqual,
    Identifier(Seq<u8>),
    String(Seq<u8>),
    Number(Rat),
    And,
    Class,
    Else,
    False,
    Fun,
    For,
    If,
    Nil,
    Or,
    Print,
    Return,
    Super,
    This,
    True,
    Var,
    While,
    Eof,
    Skip(u8),
    Error(LexError),
    Comment(Seq<u8>),
}

impl View for TokenKind {
    type V = TokenKindView;

    open spec fn view(&self) -> TokenKindView {
        match self {
            TokenKind::LeftParen => TokenKindView::LeftParen,
            TokenKind::RightParen => TokenKindView::RightParen,
            TokenKind::LeftBrace => TokenKindView::LeftBrace,
            TokenKind::RightBrace => TokenKindView::RightBrace,
            TokenKind::Comma => TokenKindView::Comma,
            TokenKind::Dot => TokenKindView::Dot,
            TokenKind::Minus => TokenKindView::Minus,
            TokenKind::Plus => TokenKindView::Plus,
            TokenKind::SemiColon => TokenKindView::SemiColon,
            TokenKind::Slash => TokenKindView::Slash,
            TokenKind::Star => TokenKindView::Star,
            TokenKind::QuestionMark => TokenKindView::QuestionMark,
            TokenKind::Colon => TokenKindView::Colon,
            TokenKind::Bang => TokenKindView::Bang,
            TokenKind::BangEqual => TokenKindView::BangEqual,
            TokenKind::Equal => TokenKindView::Equal,
            TokenKind::EqualEqual => TokenKindView::EqualEqual,
            TokenKind::Greater => TokenKindView::Greater,
            TokenKind::GreaterEqual => TokenKindView::GreaterEqual,
            TokenKind::Less => TokenKindView::Less,
            TokenKind::LessEqual => TokenKindView::LessEqual,
            TokenKind::Identifier(v) => TokenKindView::Identifier(v@),
            TokenKind::String(v) => TokenKindView::String(v@),
            TokenKind::Number(n) => TokenKindView::Number(n@),
            TokenKind::And => TokenKindView::And,
            TokenKind::Class => TokenKindView::Class,
            TokenKind::Else => TokenKindView::Else,
            TokenKind::False => TokenKindView::False,
            TokenKind::Fun => TokenKindView::Fun,
            TokenKind::For => TokenKindView::For,
            TokenKind::If => TokenKindView::If,
            TokenKind::Nil => TokenKindView::Nil,
            TokenKind::Or => TokenKindView::Or,
            TokenKind::Print => TokenKindView::Print,
            TokenKind::Return => TokenKindView::Return,
            TokenKind::Super => TokenKindView::Super,
            TokenKind::This => TokenKindView::This,
            TokenKind::True => TokenKindView::True,
            TokenKind::Var => TokenKindView::Var,
            TokenKind::While => TokenKindView::While,
            TokenKind::Eof => TokenKindView::Eof,
            TokenKind::Skip(c) => TokenKindView::Skip(*c),
            TokenKind::Error(e) => TokenKindView::Error(*e),
            TokenKind::Comment(v) => TokenKindView::Comment(v@),
        }
    }
}

/// A token: a classified unit of input together with the byte range of
/// its lexeme.
#[derive(Debug, Clone, PartialEq, Eq)]
pub struct Token {
    pub kind: TokenKind,
    pub span: Span,
}

impl Token {
    pub fn new(kind: TokenKind, span: Span) -> (t: Token)
        ensures
            t.kind == kind,
            t.span == span,
    {
        Token { kind, span }
    }
}

/// Specification-level view of a token.
pub struct TokenView {
    pub kind: TokenKindView,
    pub start: int,
    pub end: int,
}

impl View for Token {
    type V = TokenView;

    open spec fn view(&self) -> TokenView {
        TokenView {
            kind: self.kind@,
            start: self.span.start as int,
            end: self.span.end as int,
        }
    }
}

impl TokenKindView {
    /// A number token always carries a well-formed rational.
    pub open spec fn wf(self) -> bool {
        match self {
            TokenKindView::Number(r) => r.den >= 1,
            _ => true,
        }
    }
}

impl TokenView {
    pub open spec fn wf(self) -> bool {
        self.kind.wf() && 0 <= self.start <= self.end
    }
}

/// Copies a byte vector; the copy has the same view.
pub(crate) fn clone_bytes(v: &Vec<u8>) -> (r: Vec<u8>)
    ensures
        r@ == v@,
{
    let mut r: Vec<u8> = Vec::new();
    let mut i: usize = 0;
    while i < v.len()
        invariant
            i <= v.len(),
            r@ == v@.subrange(0, i as int),
        decreases v.len() - i,
    {
        r.push(v[i]);
        proof {
            assert(r@ =~= v@.subrange(0, i + 1));
        }
        i = i + 1;
    }
    proof {
        assert(r@ =~= v@);
    }
    r
}

/// Copies a token; the copy has the same view.
pub(crate) fn clone_token(t: &Token) -> (r: Token)
    ensures
        r@ == t@,
{
    let kind = match &t.kind {
        TokenKind::LeftParen => TokenKind::LeftParen,
        TokenKind::RightParen => TokenKind::RightParen,
        TokenKind::LeftBrace => TokenKind::LeftBrace,
        TokenKind::RightBrace => TokenKind::RightBrace,
        TokenKind::Comma => TokenKind::Comma,
        TokenKind::Dot => TokenKind::Dot,
        TokenKind::Minus => TokenKind::Minus,
        TokenKind::Plus => TokenKind::Plus,
        TokenKind::SemiColon => TokenKind::SemiColon,
        TokenKind::Slash => TokenKind::Slash,
        TokenKind::Star => TokenKind::Star,
        TokenKind::QuestionMark => TokenKind::QuestionMark,
        TokenKind::Colon => TokenKind::Colon,
        TokenKind::Bang => TokenKind::Bang,
        TokenKind::BangEqual => TokenKind::BangEqual,
        TokenKind::Equal => TokenKind::Equal,
        TokenKind::EqualEqual => TokenKind::EqualEqual,
        TokenKind::Greater => TokenKind::Greater,
        TokenKind::GreaterEqual => TokenKind::GreaterEqual,
        TokenKind::Less => TokenKind::Less,
        TokenKind::LessEqual => TokenKind::LessEqual,
        TokenKind::Identifier(v) => TokenKind::Identifier(clone_bytes(v)),
        TokenKind::String(v) => TokenKind::String(clone_bytes(v)),
        TokenKind::Number(n) => TokenKind::Number(*n),
        TokenKind::And => TokenKind::And,
        TokenKind::Class => TokenKind::Class,
        TokenKind::Else => TokenKind::Else,
        TokenKind::False => TokenKind::False,
        TokenKind::Fun => TokenKind::Fun,
        TokenKind::For => TokenKind::For,
        TokenKind::If => TokenKind::If,
        TokenKind::Nil => TokenKind::Nil,
        TokenKind::Or => TokenKind::Or,
        TokenKind::Print => TokenKind::Print,
        TokenKind::Return => TokenKind::Return,
        TokenKind::Super => TokenKind::Super,
        TokenKind::This => TokenKind::This,
        TokenKind::True => TokenKind::True,
        TokenKind::Var => TokenKind::Var,
        TokenKind::While => TokenKind::While,
        TokenKind::Eof => TokenKind::Eof,
        TokenKind::Skip(c) => TokenKind::Skip(*c),
        TokenKind::Error(e) => TokenKind::Error(*e),
        TokenKind::Comment(v) => TokenKind::Comment(clone_bytes(v)),
    };
    Token { kind, span: t.span }
}

} // verus!
