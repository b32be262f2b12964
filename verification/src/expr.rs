//! The expression tree built by the parser and consumed by the
//! evaluator, with its specification-level view and the grammar-level
//! well-formedness invariant on operator tokens.

use crate::number::{NumberValue, Rat};
use crate::token::{Token, TokenKind, TokenKindView, TokenView};
use vstd::prelude::*;

verus! {

/// An expression: a strict tree, built bottom-up by the parser and
/// never mutated afterwards.
#[derive(Debug, PartialEq)]
pub enum Expr {
    Literal(Literal),
    Unary(Unary),
    Binary(Binary),
    Grouping(Grouping),
    Ternary(Ternary),
}

#[derive(Debug, PartialEq)]
pub struct Literal {
    pub value: LiteralValue,
}

#[derive(Debug, PartialEq)]
pub enum LiteralValue {
    Number(NumberValue),
    String(Vec<u8>),
    Boolean(bool),
    Nil,
}

#[derive(Debug, PartialEq)]
pub struct Unary {
    pub operator: Token,
    pub right: Box<Expr>,
}

#[derive(Debug, PartialEq)]
pub struct Binary {
    pub left: Box<Expr>,
    pub operator: Token,
    pub right: Box<Expr>,
}

#[derive(Debug, PartialEq)]
pub struct Ternary {
    pub left: Box<Expr>,
    pub left_operator: Token,
    pub middle: Box<Expr>,
    pub right_operator: Token,
    pub right: Box<Expr>,
}

#[derive(Debug, PartialEq)]
pub struct Grouping {
    pub expr: Box<Expr>,
}

/// Specification-level view of a literal value.
pub enum LiteralView {
    Number(Rat),
    String(Seq<u8>),
    Boolean(bool),
    Nil,
}

/// Specification-level view of an expression tree.
pub enum ExprView {
    Literal(LiteralView),
    Unary { operator: TokenView, right: Box<ExprView> },
    Binary { left: Box<ExprView>, operator: TokenView, right: Box<ExprView> },
    Grouping(Box<ExprView>),
    Ternary {
        left: Box<ExprView>,
        left_operator: TokenView,
        middle: Box<ExprView>,
        right_operator: TokenView,
        right: Box<ExprView>,
    },
}

impl View for LiteralValue {
    type V = LiteralView;

    open spec fn view(&self) -> LiteralView {
        match self {
            LiteralValue::Number(n) => LiteralView::Number(n@),
            LiteralValue::String(v) => LiteralView::String(v@),
            LiteralValue::Boolean(b) => LiteralView::Boolean(*b),
            LiteralValue::Nil => LiteralView::Nil,
        }
    }
}

/// The view of an expression tree: the same tree over views.
pub open spec fn expr_view(e: Expr) -> ExprView
    decreases e,
{
    match e {
        Expr::Literal(l) => ExprView::Literal(l.value@),
        Expr::Unary(u) => ExprView::Unary {
            operator: u.operator@,
            right: Box::new(expr_view(*u.right)),
        },
        Expr::Binary(b) => ExprView::Binary {
            left: Box::new(expr_view(*b.left)),
            operator: b.operator@,
            right: Box::new(expr_view(*b.right)),
        },
        Expr::Grouping(g) => ExprView::Grouping(Box::new(expr_view(*g.expr))),
        Expr::Ternary(t) => ExprView::Ternary {
            left: Box::new(expr_view(*t.left)),
            left_operator: t.left_operator@,
            middle: Box::new(expr_view(*t.middle)),
            right_operator: t.right_operator@,
            right: Box::new(expr_view(*t.right)),
        },
    }
}

impl View for Expr {
    type V = ExprView;

    open spec fn view(&self) -> ExprView {
        expr_view(*self)
    }
}

/// The operator kinds legal on a `Binary` node at the grammar level.
pub open spec fn is_binary_op(k: TokenKindView) -> bool {
    ||| k is Comma
    ||| k is BangEqual
    ||| k is EqualEqual
    ||| k is Greater
    ||| k is GreaterEqual
    ||| k is Less
    ||| k is LessEqual
    ||| k is Minus
    ||| k is Plus
    ||| k is Slash
    ||| k is Star
}

impl LiteralView {
    /// A number literal carries a well-formed rational.
    pub open spec fn wf(self) -> bool {
        match self {
            LiteralView::Number(r) => r.den >= 1,
            _ => true,
        }
    }
}

impl ExprView {
    /// Grammar-level well-formedness: every operator token is one of
    /// the kinds legal for its node, and every number is well-formed.
    /// The parser guarantees this of every tree it builds.
    pub open spec fn wf(self) -> bool
        decreases self,
    {
        match self {
            ExprView::Literal(l) => l.wf(),
            ExprView::Unary { operator, right } => {
                &&& (operator.kind is Minus || operator.kind is Bang)
                &&& right.wf()
            },
            ExprView::Binary { left, operator, right } => {
                &&& is_binary_op(operator.kind)
                &&& left.wf()
                &&& right.wf()
            },
            ExprView::Grouping(inner) => inner.wf(),
            ExprView::Ternary { left, left_operator, middle, right_operator, right } => {
                &&& left_operator.kind is QuestionMark
                &&& right_operator.kind is Colon
                &&& left.wf()
                &&& middle.wf()
                &&& right.wf()
            },
        }
    }

    /// The evaluator accepts a well-formed tree with no comma operator:
    /// the comma form belongs to the grammar, and the evaluator treats
    /// it as an unreachable condition.
    pub open spec fn evaluable(self) -> bool
        decreases self,
    {
        match self {
            ExprView::Literal(l) => l.wf(),
            ExprView::Unary { operator, right } => {
                &&& (operator.kind is Minus || operator.kind is Bang)
                &&& right.evaluable()
            },
            ExprView::Binary { left, operator, right } => {
                &&& is_binary_op(operator.kind)
                &&& !(operator.kind is Comma)
                &&& left.evaluable()
                &&& right.evaluable()
            },
            ExprView::Grouping(inner) => inner.evaluable(),
            ExprView::Ternary { left, left_operator, middle, right_operator, right } => {
                &&& left_operator.kind is QuestionMark
                &&& right_operator.kind is Colon
                &&& left.evaluable()
                &&& middle.evaluable()
                &&& right.evaluable()
            },
        }
    }
}

/// The token kinds that form a literal expression.
pub open spec fn is_literal_kind(k: TokenKindView) -> bool {
    ||| k is Number
    ||| k is String
    ||| k is True
    ||| k is False
    ||| k is Nil
}

/// The literal value a literal token denotes.
pub open spec fn literal_of_kind(k: TokenKindView) -> LiteralView {
    match k {
        TokenKindView::Number(r) => LiteralView::Number(r),
        TokenKindView::String(s) => LiteralView::String(s),
        TokenKindView::True => LiteralView::Boolean(true),
        TokenKindView::False => LiteralView::Boolean(false),
        _ => LiteralView::Nil,
    }
}

impl Expr {
    /// Whether the evaluator accepts this tree: well formed and free of
    /// the comma operator. Callers that obtain a tree from an untrusted
    /// source gate evaluation on this test.
    pub fn is_evaluable(&self) -> (r: bool)
        ensures
            r == self@.evaluable(),
        decreases *self,
    {
        match self {
            Expr::Literal(l) => match &l.value {
                LiteralValue::Number(n) => n.den >= 1,
                _ => true,
            },
            Expr::Unary(u) => {
                let op_ok = match &u.operator.kind {
                    TokenKind::Minus => true,
                    TokenKind::Bang => true,
                    _ => false,
                };
                op_ok && u.right.is_evaluable()
            },
            Expr::Binary(b) => {
                let op_ok = match &b.operator.kind {
                    TokenKind::BangEqual => true,
                    TokenKind::EqualEqual => true,
                    TokenKind::Greater => true,
                    TokenKind::GreaterEqual => true,
                    TokenKind::Less => true,
                    TokenKind::LessEqual => true,
                    TokenKind::Minus => true,
                    TokenKind::Plus => true,
                    TokenKind::Slash => true,
                    TokenKind::Star => true,
                    _ => false,
                };
                op_ok && b.left.is_evaluable() && b.right.is_evaluable()
            },
            Expr::Grouping(g) => g.expr.is_evaluable(),
            Expr::Ternary(t) => {
                let ops_ok = match (&t.left_operator.kind, &t.right_operator.kind) {
                    (TokenKind::QuestionMark, TokenKind::Colon) => true,
                    _ => false,
                };
                ops_ok && t.left.is_evaluable() && t.middle.is_evaluable()
                    && t.right.is_evaluable()
            },
        }
    }
}

impl Literal {
    /// Builds the literal node a literal token denotes. Only the five
    /// literal token kinds are accepted; the parser upholds that.
    pub fn new(value: Token) -> (l: Literal)
        requires
            is_literal_kind(value@.kind),
        ensures
            l.value@ == literal_of_kind(value@.kind),
    {
        match value.kind {
            TokenKind::Number(n) => Literal { value: LiteralValue::Number(n) },
            TokenKind::String(v) => Literal { value: LiteralValue::String(v) },
            TokenKind::True => Literal { value: LiteralValue::Boolean(true) },
            TokenKind::False => Literal { value: LiteralValue::Boolean(false) },
            _ => Literal { value: LiteralValue::Nil },
        }
    }
}

impl Unary {
    pub fn new(operator: Token, right: Expr) -> (u: Unary)
        ensures
            u.operator == operator,
            *u.right == right,
    {
        Unary { operator, right: Box::new(right) }
    }
}

impl Binary {
    pub fn new(left: Expr, operator: Token, right: Expr) -> (b: Binary)
        ensures
            *b.left == left,
            b.operator == operator,
            *b.right == right,
    {
        Binary { left: Box::new(left), operator, right: Box::new(right) }
    }
}

impl Ternary {
    pub fn new(
        left: Expr,
        left_operator: Token,
        middle: Expr,
        right_operator: Token,
        right: Expr,
    ) -> (t: Ternary)
        ensures
            *t.left == left,
            t.left_operator == left_operator,
            *t.middle == middle,
            t.right_operator == right_operator,
            *t.right == right,
    {
        Ternary {
            left: Box::new(left),
            left_operator,
            middle: Box::new(middle),
            right_operator,
            right: Box::new(right),
        }
    }
}

impl Grouping {
    pub fn new(expr: Expr) -> (g: Grouping)
        ensures
            *g.expr == expr,
    {
        Grouping { expr: Box::new(expr) }
    }
}

} // verus!
