//! The tree-walking evaluator.

use vstd::prelude::*;
use vstd::string::*;

use super::number::equals;
use super::number::is_less;
use super::number::negate;
use super::number::Calculation;
use super::semantics::alike;
use super::semantics::answers;
use super::semantics::binary_outcome;
use super::semantics::binary_step;
use super::semantics::depth;
use super::semantics::evaluates;
use super::semantics::unary_result;
use super::semantics::unary_step;
use super::value::Value;
use super::value::ValueModel;
use super::Error;
use crate::expr::binary::BinaryOperator;
use crate::expr::expression::Expr;
use crate::expr::expression::ExprModel;
use crate::expr::unary::UnaryOperator;
use crate::primitives::Literal;

verus! {

/// What an evaluation result holds, as mathematical values.
pub open spec fn outcome(result: core::result::Result<Value, Error>) -> core::result::Result<
    ValueModel,
    Error,
> {
    match result {
        Ok(value) => Ok(value@),
        Err(error) => Err(error),
    }
}

/// Asks `arithmetic` for one calculation.
fn ask<F: Fn(Calculation) -> u64>(arithmetic: &F, request: Calculation) -> (answer: u64)
    requires
        forall|asked: Calculation| call_requires(*arithmetic, (asked,)),
    ensures
        answers(*arithmetic, request@, answer),
{
    arithmetic(request)
}

/// Applies a prefix operator to a value.
pub fn unary(operator: UnaryOperator, value: Value) -> (out: core::result::Result<Value, Error>)
    ensures
        outcome(out) == unary_result(operator, value@),
{
    match operator {
        UnaryOperator::Bang => match value {
            Value::Bool(truth) => Ok(Value::Bool(!truth)),
            Value::Nil => Ok(Value::Bool(true)),
            _ => Ok(Value::Bool(false)),
        },
        UnaryOperator::Minus => match value {
            Value::Number(bits) => Ok(Value::Number(negate(bits))),
            _ => Err(Error::InvalidUnaryOperand),
        },
    }
}

/// Whether two values are equal in the language.
pub fn same(left: &Value, right: &Value) -> (yes: bool)
    ensures
        yes == alike(left@, right@),
{
    match (left, right) {
        (Value::Number(a), Value::Number(b)) => equals(*a, *b),
        (Value::String(a), Value::String(b)) => *a == *b,
        (Value::Bool(a), Value::Bool(b)) => *a == *b,
        (Value::Nil, Value::Nil) => true,
        _ => false,
    }
}

/// Applies an infix operator to two values, with `arithmetic` doing the
/// calculation where the operator needs one.
pub fn binary<F: Fn(Calculation) -> u64>(
    operator: BinaryOperator,
    left: Value,
    right: Value,
    arithmetic: &F,
) -> (out: core::result::Result<Value, Error>)
    requires
        forall|asked: Calculation| call_requires(*arithmetic, (asked,)),
    ensures
        binary_outcome(*arithmetic, operator, left@, right@, outcome(out)),
{
    match operator {
        BinaryOperator::Division => match (left, right) {
            (Value::Number(a), Value::Number(b)) => Ok(
                Value::Number(ask(arithmetic, Calculation::Quotient(a, b))),
            ),
            _ => Err(Error::InvalidBinaryOperand { operator }),
        },
        BinaryOperator::Multiplication => match (left, right) {
            (Value::Number(a), Value::Number(b)) => Ok(
                Value::Number(ask(arithmetic, Calculation::Product(a, b))),
            ),
            _ => Err(Error::InvalidBinaryOperand { operator }),
        },
        BinaryOperator::Minus => match (left, right) {
            (Value::Number(a), Value::Number(b)) => Ok(
                Value::Number(ask(arithmetic, Calculation::Difference(a, b))),
            ),
            _ => Err(Error::InvalidBinaryOperand { operator }),
        },
        BinaryOperator::Plus => match (left, right) {
            (Value::Number(a), Value::Number(b)) => Ok(
                Value::Number(ask(arithmetic, Calculation::Sum(a, b))),
            ),
            (Value::String(a), Value::String(b)) => {
                let mut joined = a;
                joined.append(b.as_str());
                Ok(Value::String(joined))
            },
            _ => Err(Error::InvalidBinaryOperand { operator }),
        },
        BinaryOperator::Greater => match (left, right) {
            (Value::Number(a), Value::Number(b)) => Ok(Value::Bool(is_less(b, a))),
            _ => Err(Error::InvalidBinaryOperand { operator }),
        },
        BinaryOperator::GreaterEqual => match (left, right) {
            (Value::Number(a), Value::Number(b)) => Ok(
                Value::Bool(is_less(b, a) || equals(a, b)),
            ),
            _ => Err(Error::InvalidBinaryOperand { operator }),
        },
        BinaryOperator::Less => match (left, right) {
            (Value::Number(a), Value::Number(b)) => Ok(Value::Bool(is_less(a, b))),
            _ => Err(Error::InvalidBinaryOperand { operator }),
        },
        BinaryOperator::LessEqual => match (left, right) {
            (Value::Number(a), Value::Number(b)) => Ok(
                Value::Bool(is_less(a, b) || equals(a, b)),
            ),
            _ => Err(Error::InvalidBinaryOperand { operator }),
        },
        BinaryOperator::BangEqual => Ok(Value::Bool(!same(&left, &right))),
        BinaryOperator::EqualEqual => Ok(Value::Bool(same(&left, &right))),
    }
}

/// Evaluates an expression, with `arithmetic` doing the calculations.
pub fn eval<F: Fn(Calculation) -> u64>(expr: Expr, arithmetic: &F) -> (out: core::result::Result<
    Value,
    Error,
>)
    requires
        forall|asked: Calculation| call_requires(*arithmetic, (asked,)),
    ensures
        evaluates(*arithmetic, expr@, outcome(out)),
    decreases 2 * depth(expr@),
{
    match expr {
        Expr::Literal(literal) => match literal {
            Literal::Null => Ok(Value::Nil),
            Literal::String(text) => Ok(Value::String(text)),
            Literal::Number(text) => Ok(Value::Number(ask(arithmetic, Calculation::Numeral(text)))),
            Literal::False => Ok(Value::Bool(false)),
            Literal::True => Ok(Value::Bool(true)),
        },
        Expr::Grouping(inner) => eval(*inner, arithmetic),
        Expr::Unary { operator, right } => eval_unary(operator, *right, arithmetic),
        Expr::Binary { operator, left, right } => eval_binary(operator, *left, *right, arithmetic),
    }
}

/// Evaluates the operand of a prefix operator and applies the operator.
fn eval_unary<F: Fn(Calculation) -> u64>(operator: UnaryOperator, right: Expr, arithmetic: &F) -> (out:
    core::result::Result<Value, Error>)
    requires
        forall|asked: Calculation| call_requires(*arithmetic, (asked,)),
    ensures
        evaluates(
            *arithmetic,
            ExprModel::Unary { operator, right: Box::new(right@) },
            outcome(out),
        ),
    decreases 2 * depth(ExprModel::Unary { operator, right: Box::new(right@) }) - 1,
{
    let ghost operand = right@;
    let value = eval(right, arithmetic);
    let ghost seen = outcome(value);
    let out = match value {
        Ok(value) => unary(operator, value),
        Err(error) => Err(error),
    };
    assert(evaluates(*arithmetic, operand, seen));
    assert(outcome(out) == unary_step(operator, seen));
    out
}

/// Evaluates the operands of an infix operator, the left one first, and
/// applies the operator.
fn eval_binary<F: Fn(Calculation) -> u64>(
    operator: BinaryOperator,
    left: Expr,
    right: Expr,
    arithmetic: &F,
) -> (out: core::result::Result<Value, Error>)
    requires
        forall|asked: Calculation| call_requires(*arithmetic, (asked,)),
    ensures
        evaluates(
            *arithmetic,
            ExprModel::Binary { operator, left: Box::new(left@), right: Box::new(right@) },
            outcome(out),
        ),
    decreases
            2 * depth(
                ExprModel::Binary { operator, left: Box::new(left@), right: Box::new(right@) },
            ) - 1,
{
    let ghost left_model = left@;
    let ghost right_model = right@;
    let first = eval(left, arithmetic);
    let ghost seen_first = outcome(first);
    assert(evaluates(*arithmetic, left_model, seen_first));
    let a = match first {
        Ok(a) => a,
        Err(error) => {
            assert(binary_step(
                *arithmetic,
                operator,
                seen_first,
                seen_first,
                Err::<ValueModel, Error>(error),
            ));
            return Err(error);
        },
    };
    let second = eval(right, arithmetic);
    let ghost seen_second = outcome(second);
    assert(evaluates(*arithmetic, right_model, seen_second));
    let b = match second {
        Ok(b) => b,
        Err(error) => {
            assert(binary_step(
                *arithmetic,
                operator,
                seen_first,
                seen_second,
                Err::<ValueModel, Error>(error),
            ));
            return Err(error);
        },
    };
    let out = binary(operator, a, b, arithmetic);
    assert(binary_step(*arithmetic, operator, seen_first, seen_second, outcome(out)));
    out
}

} // verus!
