//! The evaluator: reduces one expression tree to one runtime value or a
//! typed runtime error, by post-order structural recursion.
//!
//! The semantics is stated by `spec_eval`; the executable `Interpreter`
//! is proved to return exactly what it describes.

use crate::expr::{Expr, ExprView, LiteralValue, LiteralView};
use crate::number::{
    rat_add, rat_div, rat_eq, rat_fits, rat_le, rat_lt, rat_mul, rat_neg, rat_sub, NumberValue,
    Rat,
};
use crate::token::{TokenKind, TokenKindView};
use vstd::prelude::*;

verus! {

/// A runtime value. Values are immutable and have no identity beyond
/// structural content.
#[derive(Debug, Clone, PartialEq)]
pub enum Output {
    Number(NumberValue),
    Boolean(bool),
    String(Vec<u8>),
    Nil,
}

/// Specification-level view of a runtime value.
pub enum ValueView {
    Number(Rat),
    Boolean(bool),
    String(Seq<u8>),
    Nil,
}

impl View for Output {
    type V = ValueView;

    open spec fn view(&self) -> ValueView {
        match self {
            Output::Number(n) => ValueView::Number(n@),
            Output::Boolean(b) => ValueView::Boolean(*b),
            Output::String(v) => ValueView::String(v@),
            Output::Nil => ValueView::Nil,
        }
    }
}

/// A typed runtime failure, terminal for the evaluation that raised it.
#[derive(Debug, Clone, Copy, PartialEq, Eq)]
pub enum RuntimeError {
    /// An operand of the wrong type for the operator.
    InvalidOperand,
    /// Division by a numeric zero.
    DivisionByZero,
    /// A ternary condition that is not exactly a boolean.
    InvalidOperation,
    /// An exact numeric result whose parts exceed 64 bits.
    Overflow,
}

/// A number value carried at runtime has a positive denominator.
pub open spec fn value_wf(v: ValueView) -> bool {
    match v {
        ValueView::Number(r) => r.den >= 1,
        _ => true,
    }
}

/// Truthiness: `nil` and `false` are falsy; every other value, zero and
/// the empty string included, is truthy.
pub open spec fn truthy(v: ValueView) -> bool {
    match v {
        ValueView::Nil => false,
        ValueView::Boolean(b) => b,
        _ => true,
    }
}

/// Structural equality over values: numbers compare by numeric value,
/// differing kinds are simply unequal.
pub open spec fn val_eq(a: ValueView, b: ValueView) -> bool {
    match (a, b) {
        (ValueView::Number(x), ValueView::Number(y)) => rat_eq(x, y),
        (ValueView::Boolean(x), ValueView::Boolean(y)) => x == y,
        (ValueView::String(x), ValueView::String(y)) => x == y,
        (ValueView::Nil, ValueView::Nil) => true,
        _ => false,
    }
}

/// A numeric result, or the overflow error when its exact value has no
/// 64-bit representation.
pub open spec fn num_result(r: Rat) -> Result<ValueView, RuntimeError> {
    if rat_fits(r) {
        Ok(ValueView::Number(r))
    } else {
        Err(RuntimeError::Overflow)
    }
}

/// The binary operators' semantics: arithmetic and comparison demand two
/// numbers (`+` also accepts two strings, concatenating); `/` by numeric
/// zero is its own error; `==` and `!=` accept all value kinds.
pub open spec fn spec_apply_binary(op: TokenKindView, l: ValueView, r: ValueView) -> Result<
    ValueView,
    RuntimeError,
> {
    match op {
        TokenKindView::Minus => match (l, r) {
            (ValueView::Number(x), ValueView::Number(y)) => num_result(rat_sub(x, y)),
            _ => Err(RuntimeError::InvalidOperand),
        },
        TokenKindView::Plus => match (l, r) {
            (ValueView::Number(x), ValueView::Number(y)) => num_result(rat_add(x, y)),
            (ValueView::String(x), ValueView::String(y)) => Ok(ValueView::String(x + y)),
            _ => Err(RuntimeError::InvalidOperand),
        },
        TokenKindView::Star => match (l, r) {
            (ValueView::Number(x), ValueView::Number(y)) => num_result(rat_mul(x, y)),
            _ => Err(RuntimeError::InvalidOperand),
        },
        TokenKindView::Slash => match (l, r) {
            (ValueView::Number(x), ValueView::Number(y)) => if y.num == 0 {
                Err(RuntimeError::DivisionByZero)
            } else {
                num_result(rat_div(x, y))
            },
            _ => Err(RuntimeError::InvalidOperand),
        },
        TokenKindView::Greater => match (l, r) {
            (ValueView::Number(x), ValueView::Number(y)) => Ok(ValueView::Boolean(rat_lt(y, x))),
            _ => Err(RuntimeError::InvalidOperand),
        },
        TokenKindView::GreaterEqual => match (l, r) {
            (ValueView::Number(x), ValueView::Number(y)) => Ok(ValueView::Boolean(rat_le(y, x))),
            _ => Err(RuntimeError::InvalidOperand),
        },
        TokenKindView::Less => match (l, r) {
            (ValueView::Number(x), ValueView::Number(y)) => Ok(ValueView::Boolean(rat_lt(x, y))),
            _ => Err(RuntimeError::InvalidOperand),
        },
        TokenKindView::LessEqual => match (l, r) {
            (ValueView::Number(x), ValueView::Number(y)) => Ok(ValueView::Boolean(rat_le(x, y))),
            _ => Err(RuntimeError::InvalidOperand),
        },
        TokenKindView::BangEqual => Ok(ValueView::Boolean(!val_eq(l, r))),
        TokenKindView::EqualEqual => Ok(ValueView::Boolean(val_eq(l, r))),
        _ => Err(RuntimeError::InvalidOperation),
    }
}

/// The evaluator's semantics: post-order reduction. Operands evaluate
/// before operators apply; a ternary evaluates all three branches
/// eagerly, then demands exactly a boolean condition.
pub open spec fn spec_eval(e: ExprView) -> Result<ValueView, RuntimeError>
    decreases e,
{
    match e {
        ExprView::Literal(l) => Ok(
            match l {
                LiteralView::Number(r) => ValueView::Number(r),
                LiteralView::String(s) => ValueView::String(s),
                LiteralView::Boolean(b) => ValueView::Boolean(b),
                LiteralView::Nil => ValueView::Nil,
            },
        ),
        ExprView::Grouping(inner) => spec_eval(*inner),
        ExprView::Unary { operator, right } => match spec_eval(*right) {
            Ok(v) => if operator.kind is Bang {
                Ok(ValueView::Boolean(!truthy(v)))
            } else {
                match v {
                    ValueView::Number(x) => num_result(rat_neg(x)),
                    _ => Err(RuntimeError::InvalidOperand),
                }
            },
            Err(e) => Err(e),
        },
        ExprView::Binary { left, operator, right } => match spec_eval(*left) {
            Ok(l) => match spec_eval(*right) {
                Ok(r) => spec_apply_binary(operator.kind, l, r),
                Err(e) => Err(e),
            },
            Err(e) => Err(e),
        },
        ExprView::Ternary { left, left_operator, middle, right_operator, right } => {
            match spec_eval(*left) {
                Ok(c) => match spec_eval(*middle) {
                    Ok(m) => match spec_eval(*right) {
                        Ok(r) => match c {
                            ValueView::Boolean(true) => Ok(m),
                            ValueView::Boolean(false) => Ok(r),
                            _ => Err(RuntimeError::InvalidOperation),
                        },
                        Err(e) => Err(e),
                    },
                    Err(e) => Err(e),
                },
                Err(e) => Err(e),
            }
        },
    }
}

/// Law: `nil` and `false` are the only falsy values; every number,
/// zero included, and every string, empty included, is truthy.
pub proof fn lemma_truthiness(v: ValueView)
    ensures
        truthy(v) <==> !(v is Nil || v == ValueView::Boolean(false)),
{
}

/// Law: division checks its divisor by numeric value, not by
/// representation: dividing by any number equal to zero is the
/// division-by-zero error, whatever the left operand.
pub proof fn lemma_division_by_zero_is_by_value(l: ValueView, r: ValueView)
    requires
        l is Number,
        (r matches ValueView::Number(y) && y.den >= 1 && rat_eq(y, (Rat { num: 0, den: 1 }))),
    ensures
        spec_apply_binary(TokenKindView::Slash, l, r) == Err::<ValueView, RuntimeError>(
            RuntimeError::DivisionByZero,
        ),
{
}

/// Compares two byte vectors by content.
fn bytes_eq(a: &Vec<u8>, b: &Vec<u8>) -> (r: bool)
    ensures
        r == (a@ == b@),
{
    if a.len() != b.len() {
        proof {
            assert(a@.len() != b@.len());
        }
        return false;
    }
    let mut i: usize = 0;
    while i < a.len()
        invariant
            i <= a.len(),
            a@.len() == b@.len(),
            forall|m: int| 0 <= m < i ==> a@[m] == b@[m],
        decreases a.len() - i,
    {
        if a[i] != b[i] {
            return false;
        }
        i = i + 1;
    }
    proof {
        assert(a@ =~= b@);
    }
    true
}

/// Concatenates two byte vectors.
fn concat_bytes(a: Vec<u8>, b: &Vec<u8>) -> (r: Vec<u8>)
    ensures
        r@ == a@ + b@,
{
    let mut r = a;
    let ghost a0 = r@;
    let mut i: usize = 0;
    while i < b.len()
        invariant
            i <= b.len(),
            r@ == a0 + b@.subrange(0, i as int),
        decreases b.len() - i,
    {
        r.push(b[i]);
        proof {
            assert(r@ =~= a0 + b@.subrange(0, i + 1));
        }
        i = i + 1;
    }
    proof {
        assert(r@ =~= a0 + b@);
    }
    r
}

impl Output {
    /// Truthiness of a value: only `nil` and `false` are falsy.
    pub fn is_truthy(&self) -> (r: bool)
        ensures
            r == truthy(self@),
    {
        match self {
            Output::Nil => false,
            Output::Boolean(b) => *b,
            _ => true,
        }
    }

    /// Structural equality of two values; numbers compare numerically.
    pub fn value_eq(&self, other: &Output) -> (r: bool)
        requires
            value_wf(self@),
            value_wf(other@),
        ensures
            r == val_eq(self@, other@),
    {
        match (self, other) {
            (Output::Number(x), Output::Number(y)) => x.eq_value(y),
            (Output::Boolean(x), Output::Boolean(y)) => *x == *y,
            (Output::String(x), Output::String(y)) => bytes_eq(x, y),
            (Output::Nil, Output::Nil) => true,
            _ => false,
        }
    }
}

/// Applies one binary operator to two evaluated operands.
fn apply_binary(op: &TokenKind, l: Output, r: Output) -> (res: Result<Output, RuntimeError>)
    requires
        value_wf(l@),
        value_wf(r@),
    ensures
        (match spec_apply_binary(op@, l@, r@) {
            Ok(v) => res matches Ok(x) && x@ == v && value_wf(x@),
            Err(e) => res matches Err(q) && q == e,
        }),
{
    match op {
        TokenKind::Minus => match (l, r) {
            (Output::Number(x), Output::Number(y)) => match x.sub(&y) {
                Some(c) => Ok(Output::Number(c)),
                None => Err(RuntimeError::Overflow),
            },
            _ => Err(RuntimeError::InvalidOperand),
        },
        TokenKind::Plus => match (l, r) {
            (Output::Number(x), Output::Number(y)) => match x.add(&y) {
                Some(c) => Ok(Output::Number(c)),
                None => Err(RuntimeError::Overflow),
            },
            (Output::String(x), Output::String(y)) => Ok(Output::String(concat_bytes(x, &y))),
            _ => Err(RuntimeError::InvalidOperand),
        },
        TokenKind::Star => match (l, r) {
            (Output::Number(x), Output::Number(y)) => match x.mul(&y) {
                Some(c) => Ok(Output::Number(c)),
                None => Err(RuntimeError::Overflow),
            },
            _ => Err(RuntimeError::InvalidOperand),
        },
        TokenKind::Slash => match (l, r) {
            (Output::Number(x), Output::Number(y)) => if y.is_zero() {
                Err(RuntimeError::DivisionByZero)
            } else {
                match x.div(&y) {
                    Some(c) => Ok(Output::Number(c)),
                    None => Err(RuntimeError::Overflow),
                }
            },
            _ => Err(RuntimeError::InvalidOperand),
        },
        TokenKind::Greater => match (l, r) {
            (Output::Number(x), Output::Number(y)) => Ok(Output::Boolean(y.lt(&x))),
            _ => Err(RuntimeError::InvalidOperand),
        },
        TokenKind::GreaterEqual => match (l, r) {
            (Output::Number(x), Output::Number(y)) => Ok(Output::Boolean(y.le(&x))),
            _ => Err(RuntimeError::InvalidOperand),
        },
        TokenKind::Less => match (l, r) {
            (Output::Number(x), Output::Number(y)) => Ok(Output::Boolean(x.lt(&y))),
            _ => Err(RuntimeError::InvalidOperand),
        },
        TokenKind::LessEqual => match (l, r) {
            (Output::Number(x), Output::Number(y)) => Ok(Output::Boolean(x.le(&y))),
            _ => Err(RuntimeError::InvalidOperand),
        },
        TokenKind::BangEqual => Ok(Output::Boolean(!l.value_eq(&r))),
        TokenKind::EqualEqual => Ok(Output::Boolean(l.value_eq(&r))),
        _ => Err(RuntimeError::InvalidOperation),
    }
}

/// The tree-walking evaluator. It holds no state of its own; one call
/// reduces one owned expression tree.
#[derive(Debug)]
pub struct Interpreter;

impl Interpreter {
    pub fn new() -> (i: Interpreter)
        ensures
            true,
    {
        Interpreter
    }

    /// Reduces one expression tree to a value or a typed error: exactly
    /// what the specification semantics assigns to the tree. The tree
    /// must be evaluable: parser-built, with no comma operator.
    pub fn interpret(&mut self, expr: Expr) -> (r: Result<Output, RuntimeError>)
        requires
            expr@.evaluable(),
        ensures
            (match spec_eval(expr@) {
                Ok(v) => r matches Ok(x) && x@ == v && value_wf(x@),
                Err(e) => r matches Err(q) && q == e,
            }),
        decreases expr,
    {
        match expr {
            Expr::Literal(l) => Ok(
                match l.value {
                    LiteralValue::Number(n) => Output::Number(n),
                    LiteralValue::String(v) => Output::String(v),
                    LiteralValue::Boolean(b) => Output::Boolean(b),
                    LiteralValue::Nil => Output::Nil,
                },
            ),
            Expr::Grouping(g) => self.interpret(*g.expr),
            Expr::Unary(u) => {
                let right = match self.interpret(*u.right) {
                    Ok(v) => v,
                    Err(e) => {
                        return Err(e);
                    },
                };
                match &u.operator.kind {
                    TokenKind::Bang => Ok(Output::Boolean(!right.is_truthy())),
                    _ => match right {
                        Output::Number(n) => match n.neg() {
                            Some(m) => Ok(Output::Number(m)),
                            None => Err(RuntimeError::Overflow),
                        },
                        _ => Err(RuntimeError::InvalidOperand),
                    },
                }
            },
            Expr::Binary(b) => {
                let left = match self.interpret(*b.left) {
                    Ok(v) => v,
                    Err(e) => {
                        return Err(e);
                    },
                };
                let right = match self.interpret(*b.right) {
                    Ok(v) => v,
                    Err(e) => {
                        return Err(e);
                    },
                };
                apply_binary(&b.operator.kind, left, right)
            },
            Expr::Ternary(t) => {
                let left = match self.interpret(*t.left) {
                    Ok(v) => v,
                    Err(e) => {
                        return Err(e);
                    },
                };
                let middle = match self.interpret(*t.middle) {
                    Ok(v) => v,
                    Err(e) => {
                        return Err(e);
                    },
                };
                let right = match self.interpret(*t.right) {
                    Ok(v) => v,
                    Err(e) => {
                        return Err(e);
                    },
                };
                match left {
                    Output::Boolean(true) => Ok(middle),
                    Output::Boolean(false) => Ok(right),
                    _ => Err(RuntimeError::InvalidOperation),
                }
            },
        }
    }
}

} // verus!
