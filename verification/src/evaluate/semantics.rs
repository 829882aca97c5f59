//! What expressions evaluate to: the rules of the operators on values, and
//! the relation between a tree and its results.

use vstd::prelude::*;

use super::number::equal;
use super::number::less;
use super::number::negated;
use super::number::Calculation;
use super::number::CalculationModel;
use super::value::Kind;
use super::value::ValueModel;
use super::Error;
use crate::expr::binary::BinaryOperator;
use crate::expr::expression::ExprModel;
use crate::expr::unary::UnaryOperator;
use crate::primitives::LiteralModel;

verus! {

/// Whether `answer` is an answer that `arithmetic` may give to the
/// calculation `asked`.
pub open spec fn answers<F: Fn(Calculation) -> u64>(
    arithmetic: F,
    asked: CalculationModel,
    answer: u64,
) -> bool {
    exists|request: Calculation|
        #![trigger call_ensures(arithmetic, (request,), answer)]
        request@ == asked && call_ensures(arithmetic, (request,), answer)
}

/// The value of a literal, where `number` is the number that its numeral
/// denotes if it is one.
pub open spec fn literal_value(literal: LiteralModel, number: u64) -> ValueModel {
    match literal {
        LiteralModel::Null => ValueModel::Nil,
        LiteralModel::String(text) => ValueModel::String(text),
        LiteralModel::Number(_) => ValueModel::Number(number),
        LiteralModel::False => ValueModel::Bool(false),
        LiteralModel::True => ValueModel::Bool(true),
    }
}

/// What a prefix operator makes of a value: `!` is true of `false` and of
/// `nil` and false of everything else, `-` takes a number only.
pub open spec fn unary_result(operator: UnaryOperator, value: ValueModel) -> core::result::Result<
    ValueModel,
    Error,
> {
    match operator {
        UnaryOperator::Bang => match value {
            ValueModel::Bool(truth) => Ok(ValueModel::Bool(!truth)),
            ValueModel::Nil => Ok(ValueModel::Bool(true)),
            _ => Ok(ValueModel::Bool(false)),
        },
        UnaryOperator::Minus => match value {
            ValueModel::Number(bits) => Ok(ValueModel::Number(negated(bits))),
            _ => Err(Error::InvalidUnaryOperand),
        },
    }
}

/// The equality of the language: values of one type are compared by what
/// they hold, values of different types are never equal.
pub open spec fn alike(left: ValueModel, right: ValueModel) -> bool {
    match (left, right) {
        (ValueModel::Number(a), ValueModel::Number(b)) => equal(a, b),
        (ValueModel::String(a), ValueModel::String(b)) => a == b,
        (ValueModel::Bool(a), ValueModel::Bool(b)) => a == b,
        (ValueModel::Nil, ValueModel::Nil) => true,
        _ => false,
    }
}

/// The calculation that an infix operator needs: `+ - * /` between two
/// numbers ask for one, everything else is settled without.
pub open spec fn binary_request(
    operator: BinaryOperator,
    left: ValueModel,
    right: ValueModel,
) -> Option<CalculationModel> {
    match (left, right) {
        (ValueModel::Number(a), ValueModel::Number(b)) => match operator {
            BinaryOperator::Plus => Some(CalculationModel::Sum(a, b)),
            BinaryOperator::Minus => Some(CalculationModel::Difference(a, b)),
            BinaryOperator::Multiplication => Some(CalculationModel::Product(a, b)),
            BinaryOperator::Division => Some(CalculationModel::Quotient(a, b)),
            _ => None,
        },
        _ => None,
    }
}

/// What an infix operator makes of two values where it needs no
/// calculation: `==` and `!=` take every pair, `> >= < <=` two numbers, `+`
/// two strings, and `- * /` nothing but numbers.
pub open spec fn binary_settled(
    operator: BinaryOperator,
    left: ValueModel,
    right: ValueModel,
) -> core::result::Result<ValueModel, Error> {
    match operator {
        BinaryOperator::EqualEqual => Ok(ValueModel::Bool(alike(left, right))),
        BinaryOperator::BangEqual => Ok(ValueModel::Bool(!alike(left, right))),
        BinaryOperator::Greater => match (left, right) {
            (ValueModel::Number(a), ValueModel::Number(b)) => Ok(ValueModel::Bool(less(b, a))),
            _ => Err(Error::InvalidBinaryOperand { operator }),
        },
        BinaryOperator::GreaterEqual => match (left, right) {
            (ValueModel::Number(a), ValueModel::Number(b)) => Ok(
                ValueModel::Bool(less(b, a) || equal(a, b)),
            ),
            _ => Err(Error::InvalidBinaryOperand { operator }),
        },
        BinaryOperator::Less => match (left, right) {
            (ValueModel::Number(a), ValueModel::Number(b)) => Ok(ValueModel::Bool(less(a, b))),
            _ => Err(Error::InvalidBinaryOperand { operator }),
        },
        BinaryOperator::LessEqual => match (left, right) {
            (ValueModel::Number(a), ValueModel::Number(b)) => Ok(
                ValueModel::Bool(less(a, b) || equal(a, b)),
            ),
            _ => Err(Error::InvalidBinaryOperand { operator }),
        },
        BinaryOperator::Plus => match (left, right) {
            (ValueModel::String(a), ValueModel::String(b)) => Ok(ValueModel::String(a + b)),
            _ => Err(Error::InvalidBinaryOperand { operator }),
        },
        _ => Err(Error::InvalidBinaryOperand { operator }),
    }
}

/// Whether `out` is what an infix operator may make of two values, with
/// `arithmetic` doing the calculations.
pub open spec fn binary_outcome<F: Fn(Calculation) -> u64>(
    arithmetic: F,
    operator: BinaryOperator,
    left: ValueModel,
    right: ValueModel,
    out: core::result::Result<ValueModel, Error>,
) -> bool {
    match binary_request(operator, left, right) {
        Some(asked) => out matches Ok(ValueModel::Number(number)) && answers(
            arithmetic,
            asked,
            number,
        ),
        None => out == binary_settled(operator, left, right),
    }
}

/// What a prefix operator makes of what its operand evaluated to: the error
/// of the operand, or what it makes of the value.
pub open spec fn unary_step(
    operator: UnaryOperator,
    operand: core::result::Result<ValueModel, Error>,
) -> core::result::Result<ValueModel, Error> {
    match operand {
        Ok(value) => unary_result(operator, value),
        Err(error) => Err(error),
    }
}

/// Whether `out` is what an infix operator may make of what its operands
/// evaluated to: the error of the left operand, else the error of the right
/// one, else what it may make of the two values. After an error on the left
/// the right operand is not evaluated, and `second` stands for nothing.
pub open spec fn binary_step<F: Fn(Calculation) -> u64>(
    arithmetic: F,
    operator: BinaryOperator,
    first: core::result::Result<ValueModel, Error>,
    second: core::result::Result<ValueModel, Error>,
    out: core::result::Result<ValueModel, Error>,
) -> bool {
    match first {
        Err(error) => out == Err::<ValueModel, Error>(error),
        Ok(a) => match second {
            Err(error) => out == Err::<ValueModel, Error>(error),
            Ok(b) => binary_outcome(arithmetic, operator, a, b, out),
        },
    }
}

/// Whether `out` is what an expression may evaluate to, with `arithmetic`
/// doing the calculations.
///
/// The operands of an infix operator are evaluated from left to right, and
/// the first error is the error of the whole.
pub open spec fn evaluates<F: Fn(Calculation) -> u64>(
    arithmetic: F,
    expr: ExprModel,
    out: core::result::Result<ValueModel, Error>,
) -> bool
    decreases expr,
{
    match expr {
        ExprModel::Literal(literal) => match literal {
            LiteralModel::Number(text) => out matches Ok(ValueModel::Number(number)) && answers(
                arithmetic,
                CalculationModel::Numeral(text),
                number,
            ),
            _ => out == Ok::<ValueModel, Error>(literal_value(literal, 0)),
        },
        ExprModel::Grouping(inner) => evaluates(arithmetic, *inner, out),
        ExprModel::Unary { operator, right } => exists|operand: core::result::Result<
            ValueModel,
            Error,
        >|
            #![trigger unary_step(operator, operand)]
            evaluates(arithmetic, *right, operand) && out == unary_step(operator, operand),
        ExprModel::Binary { operator, left, right } => exists|
            first: core::result::Result<ValueModel, Error>,
            second: core::result::Result<ValueModel, Error>,
        |
            #![trigger binary_step(arithmetic, operator, first, second, out)]
            evaluates(arithmetic, *left, first) && (first is Ok ==> evaluates(
                arithmetic,
                *right,
                second,
            )) && binary_step(arithmetic, operator, first, second, out),
    }
}

/// The number of operators and groupings on the longest way from the root
/// of an expression to a literal.
pub open spec fn depth(expr: ExprModel) -> nat
    decreases expr,
{
    match expr {
        ExprModel::Literal(_) => 0,
        ExprModel::Grouping(inner) => 1 + depth(*inner),
        ExprModel::Unary { operator, right } => 1 + depth(*right),
        ExprModel::Binary { operator, left, right } => 1 + if depth(*left) >= depth(*right) {
            depth(*left)
        } else {
            depth(*right)
        },
    }
}

/// Values of different runtime types are never equal, whatever does the
/// arithmetic: `==` between them gives `false` and `!=` gives `true`, and
/// neither gives an error.
pub proof fn lemma_different_types_differ<F: Fn(Calculation) -> u64>(
    arithmetic: F,
    left: ValueModel,
    right: ValueModel,
    out: core::result::Result<ValueModel, Error>,
)
    requires
        left.kind() != right.kind(),
    ensures
        !alike(left, right),
        binary_outcome(arithmetic, BinaryOperator::EqualEqual, left, right, out) <==> out == Ok::<
            ValueModel,
            Error,
        >(ValueModel::Bool(false)),
        binary_outcome(arithmetic, BinaryOperator::BangEqual, left, right, out) <==> out == Ok::<
            ValueModel,
            Error,
        >(ValueModel::Bool(true)),
{
}

/// `==` and `!=` take every pair of values: neither asks for a calculation
/// nor gives an error, and each gives the opposite of the other.
pub proof fn lemma_equality_is_total(left: ValueModel, right: ValueModel)
    ensures
        binary_request(BinaryOperator::EqualEqual, left, right) is None,
        binary_request(BinaryOperator::BangEqual, left, right) is None,
        binary_settled(BinaryOperator::EqualEqual, left, right) == Ok::<ValueModel, Error>(
            ValueModel::Bool(alike(left, right)),
        ),
        binary_settled(BinaryOperator::BangEqual, left, right) == Ok::<ValueModel, Error>(
            ValueModel::Bool(!alike(left, right)),
        ),
{
}

/// The runtime type of what a prefix operator gives for an operand of a
/// type, or the error.
pub open spec fn unary_kind(operator: UnaryOperator, operand: Kind) -> core::result::Result<
    Kind,
    Error,
> {
    match operator {
        UnaryOperator::Bang => Ok(Kind::Bool),
        UnaryOperator::Minus => match operand {
            Kind::Number => Ok(Kind::Number),
            _ => Err(Error::InvalidUnaryOperand),
        },
    }
}

/// The runtime type of what an infix operator gives for operands of two
/// types, or the error.
pub open spec fn binary_kind(operator: BinaryOperator, left: Kind, right: Kind) -> core::result::Result<
    Kind,
    Error,
> {
    match operator {
        BinaryOperator::EqualEqual | BinaryOperator::BangEqual => Ok(Kind::Bool),
        BinaryOperator::Greater
        | BinaryOperator::GreaterEqual
        | BinaryOperator::Less
        | BinaryOperator::LessEqual => match (left, right) {
            (Kind::Number, Kind::Number) => Ok(Kind::Bool),
            _ => Err(Error::InvalidBinaryOperand { operator }),
        },
        BinaryOperator::Plus => match (left, right) {
            (Kind::Number, Kind::Number) => Ok(Kind::Number),
            (Kind::String, Kind::String) => Ok(Kind::String),
            _ => Err(Error::InvalidBinaryOperand { operator }),
        },
        _ => match (left, right) {
            (Kind::Number, Kind::Number) => Ok(Kind::Number),
            _ => Err(Error::InvalidBinaryOperand { operator }),
        },
    }
}

/// The runtime type of what an expression evaluates to, or the error with
/// which its evaluation ends.
pub open spec fn type_of(expr: ExprModel) -> core::result::Result<Kind, Error>
    decreases expr,
{
    match expr {
        ExprModel::Literal(literal) => Ok(literal_value(literal, 0).kind()),
        ExprModel::Grouping(inner) => type_of(*inner),
        ExprModel::Unary { operator, right } => match type_of(*right) {
            Ok(operand) => unary_kind(operator, operand),
            Err(error) => Err(error),
        },
        ExprModel::Binary { operator, left, right } => match type_of(*left) {
            Err(error) => Err(error),
            Ok(first) => match type_of(*right) {
                Err(error) => Err(error),
                Ok(second) => binary_kind(operator, first, second),
            },
        },
    }
}

/// The runtime type of a result of evaluation, or its error.
pub open spec fn kind_of(out: core::result::Result<ValueModel, Error>) -> core::result::Result<
    Kind,
    Error,
> {
    match out {
        Ok(value) => Ok(value.kind()),
        Err(error) => Err(error),
    }
}

/// Whether an evaluation fails, with which error, and of which runtime type
/// its value is, does not depend on what does the arithmetic: the tree alone
/// decides it.
pub proof fn lemma_evaluation_is_typed<F: Fn(Calculation) -> u64>(
    arithmetic: F,
    expr: ExprModel,
    out: core::result::Result<ValueModel, Error>,
)
    requires
        evaluates(arithmetic, expr, out),
    ensures
        kind_of(out) == type_of(expr),
    decreases expr,
{
    match expr {
        ExprModel::Literal(_) => {},
        ExprModel::Grouping(inner) => {
            lemma_evaluation_is_typed(arithmetic, *inner, out);
        },
        ExprModel::Unary { operator, right } => {
            let operand = choose|operand: core::result::Result<ValueModel, Error>|
                #![trigger unary_step(operator, operand)]
                evaluates(arithmetic, *right, operand) && out == unary_step(operator, operand);
            lemma_evaluation_is_typed(arithmetic, *right, operand);
        },
        ExprModel::Binary { operator, left, right } => {
            let (first, second) = choose|
                first: core::result::Result<ValueModel, Error>,
                second: core::result::Result<ValueModel, Error>,
            |
                #![trigger binary_step(arithmetic, operator, first, second, out)]
                evaluates(arithmetic, *left, first) && (first is Ok ==> evaluates(
                    arithmetic,
                    *right,
                    second,
                )) && binary_step(arithmetic, operator, first, second, out);
            lemma_evaluation_is_typed(arithmetic, *left, first);
            if first is Ok {
                lemma_evaluation_is_typed(arithmetic, *right, second);
            }
        },
    }
}

} // verus!
