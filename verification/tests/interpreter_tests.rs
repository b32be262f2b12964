use lox_core::interpreter::{Interpreter, Output, RuntimeError};
use lox_core::lexer::Lexer;
use lox_core::number::NumberValue;
use lox_core::parser::Parser;

fn eval(src: &[u8]) -> Result<Output, RuntimeError> {
    let mut lexer = Lexer::new(src.to_vec());
    let mut parser = Parser::new(lexer.tokenize());
    let expr = parser.parse().unwrap();
    Interpreter::new().interpret(expr)
}

fn num(n: i64, d: i64) -> Output {
    Output::Number(NumberValue { num: n, den: d })
}

#[test]
fn eval_subtraction_left_associative() {
    // (8 - 4) - 2, not 8 - (4 - 2)
    assert_eq!(eval(b"8 - 4 - 2"), Ok(num(2, 1)));
}

#[test]
fn eval_arithmetic() {
    assert_eq!(eval(b"1 + 2 * 3"), Ok(num(7, 1)));
    assert_eq!(eval(b"(1 + 2) * 3"), Ok(num(9, 1)));
    assert_eq!(eval(b"-5 + 3"), Ok(num(-2, 1)));
}

#[test]
fn eval_division_by_zero() {
    assert_eq!(eval(b"6 / 0"), Err(RuntimeError::DivisionByZero));
}

#[test]
fn eval_division_by_zero_checks_numeric_value() {
    // the zero check is by numeric value, not integer-ness
    assert_eq!(eval(b"6 / 0.0"), Err(RuntimeError::DivisionByZero));
}

#[test]
fn eval_division_is_exact() {
    assert_eq!(eval(b"1 / 3"), Ok(num(1, 3)));
    assert_eq!(eval(b"6 / 0.5 == 12"), Ok(Output::Boolean(true)));
}

#[test]
fn eval_string_concatenation() {
    assert_eq!(eval(b"\"a\" + \"b\""), Ok(Output::String(b"ab".to_vec())));
}

#[test]
fn eval_mixed_plus_is_invalid_operand() {
    assert_eq!(eval(b"\"a\" + 1"), Err(RuntimeError::InvalidOperand));
    assert_eq!(eval(b"1 + nil"), Err(RuntimeError::InvalidOperand));
}

#[test]
fn eval_bang_nil_is_true() {
    assert_eq!(eval(b"!nil"), Ok(Output::Boolean(true)));
}

#[test]
fn eval_bang_zero_is_false() {
    // zero is truthy, so its negation is false
    assert_eq!(eval(b"!0"), Ok(Output::Boolean(false)));
}

#[test]
fn eval_empty_string_is_truthy() {
    assert_eq!(eval(b"!\"\""), Ok(Output::Boolean(false)));
}

#[test]
fn eval_bang_false_is_true() {
    assert_eq!(eval(b"!false"), Ok(Output::Boolean(true)));
}

#[test]
fn eval_unary_minus_needs_a_number() {
    assert_eq!(eval(b"-nil"), Err(RuntimeError::InvalidOperand));
    assert_eq!(eval(b"-\"x\""), Err(RuntimeError::InvalidOperand));
}

#[test]
fn eval_comparisons() {
    assert_eq!(eval(b"1 < 2"), Ok(Output::Boolean(true)));
    assert_eq!(eval(b"2 <= 2"), Ok(Output::Boolean(true)));
    assert_eq!(eval(b"3 > 4"), Ok(Output::Boolean(false)));
    assert_eq!(eval(b"4 >= 5"), Ok(Output::Boolean(false)));
    assert_eq!(eval(b"0.5 < 1"), Ok(Output::Boolean(true)));
}

#[test]
fn eval_comparison_needs_numbers() {
    assert_eq!(eval(b"true > false"), Err(RuntimeError::InvalidOperand));
    assert_eq!(eval(b"\"a\" < \"b\""), Err(RuntimeError::InvalidOperand));
}

#[test]
fn eval_equality_is_by_value() {
    assert_eq!(eval(b"1 == 1.0"), Ok(Output::Boolean(true)));
    assert_eq!(eval(b"0.5 * 2 == 1"), Ok(Output::Boolean(true)));
    assert_eq!(eval(b"1 != 2"), Ok(Output::Boolean(true)));
    assert_eq!(eval(b"\"a\" == \"a\""), Ok(Output::Boolean(true)));
    assert_eq!(eval(b"nil == nil"), Ok(Output::Boolean(true)));
    assert_eq!(eval(b"true == true"), Ok(Output::Boolean(true)));
}

#[test]
fn eval_equality_across_kinds_is_false_not_an_error() {
    assert_eq!(eval(b"1 == \"1\""), Ok(Output::Boolean(false)));
    assert_eq!(eval(b"nil == false"), Ok(Output::Boolean(false)));
    assert_eq!(eval(b"nil != 0"), Ok(Output::Boolean(true)));
}

#[test]
fn eval_ternary_selects_by_boolean() {
    assert_eq!(eval(b"true ? 1 : 2"), Ok(num(1, 1)));
    assert_eq!(eval(b"false ? 1 : 2"), Ok(num(2, 1)));
    assert_eq!(eval(b"1 < 2 ? 3 : 4"), Ok(num(3, 1)));
}

#[test]
fn eval_ternary_condition_must_be_boolean() {
    assert_eq!(eval(b"1 ? 2 : 3"), Err(RuntimeError::InvalidOperation));
    assert_eq!(eval(b"nil ? 2 : 3"), Err(RuntimeError::InvalidOperation));
}

#[test]
fn eval_ternary_is_eager() {
    // all three branches evaluate before the condition is inspected
    assert_eq!(eval(b"true ? 1 : 1 / 0"), Err(RuntimeError::DivisionByZero));
}

#[test]
fn eval_overflow_is_reported() {
    assert_eq!(
        eval(b"9223372036854775807 + 1"),
        Err(RuntimeError::Overflow)
    );
    assert_eq!(
        eval(b"9223372036854775807 * 2"),
        Err(RuntimeError::Overflow)
    );
}

#[test]
fn eval_decimal_arithmetic_is_exact() {
    assert_eq!(eval(b"0.1 + 0.2 == 0.3"), Ok(Output::Boolean(true)));
    // results keep the exact product denominator; equality is numeric
    assert_eq!(eval(b"3.14 - 0.14"), Ok(num(30000, 10000)));
    assert_eq!(eval(b"3.14 - 0.14 == 3"), Ok(Output::Boolean(true)));
}

#[test]
fn eval_literals() {
    assert_eq!(eval(b"nil"), Ok(Output::Nil));
    assert_eq!(eval(b"true"), Ok(Output::Boolean(true)));
    assert_eq!(eval(b"\"hi\""), Ok(Output::String(b"hi".to_vec())));
    assert_eq!(eval(b"3.14"), Ok(num(314, 100)));
}

#[test]
fn output_truthiness() {
    assert!(!Output::Nil.is_truthy());
    assert!(!Output::Boolean(false).is_truthy());
    assert!(Output::Boolean(true).is_truthy());
    assert!(num(0, 1).is_truthy());
    assert!(Output::String(Vec::new()).is_truthy());
}

#[test]
fn output_value_equality_is_numeric() {
    assert!(num(1, 2).value_eq(&num(2, 4)));
    assert!(!num(1, 2).value_eq(&num(1, 3)));
    assert!(!num(0, 1).value_eq(&Output::Nil));
}

#[test]
fn comma_trees_are_not_evaluable() {
    let mut lexer = lox_core::lexer::Lexer::new(b"1, 2".to_vec());
    let mut parser = Parser::new(lexer.tokenize());
    let expr = parser.parse().unwrap();
    assert!(!expr.is_evaluable());
    let mut lexer2 = lox_core::lexer::Lexer::new(b"1 + 2".to_vec());
    let mut parser2 = Parser::new(lexer2.tokenize());
    assert!(parser2.parse().unwrap().is_evaluable());
}
