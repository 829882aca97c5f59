use lox::evaluate::eval::binary;
use lox::evaluate::eval::eval;
use lox::evaluate::eval::same;
use lox::evaluate::eval::unary;
use lox::evaluate::number::equals;
use lox::evaluate::number::is_less;
use lox::evaluate::number::negate;
use lox::evaluate::number::not_a_number;
use lox::evaluate::number::Calculation;
use lox::evaluate::value::Kind;
use lox::evaluate::Error;
use lox::evaluate::Value;
use lox::expr::binary::BinaryOperator;
use lox::expr::expression::Expr;
use lox::expr::unary::UnaryOperator;
use lox::parser::parser::Parser;
use lox::primitives::Literal;
use lox::scan::lexer::tokenize;
use lox::scan::tokens_of;

fn arithmetic(asked: Calculation) -> u64 {
    let number = match asked {
        Calculation::Numeral(text) => text.parse::<f64>().unwrap(),
        Calculation::Sum(a, b) => f64::from_bits(a) + f64::from_bits(b),
        Calculation::Difference(a, b) => f64::from_bits(a) - f64::from_bits(b),
        Calculation::Product(a, b) => f64::from_bits(a) * f64::from_bits(b),
        Calculation::Quotient(a, b) => f64::from_bits(a) / f64::from_bits(b),
    };
    number.to_bits()
}

fn evaluate(source: &str) -> Result<Value, Error> {
    let tokens = tokens_of(&tokenize(source));
    let tree = Parser::new(tokens).parse().unwrap();
    eval(tree, &arithmetic)
}

fn number(value: f64) -> Value {
    Value::Number(value.to_bits())
}

fn text(value: &str) -> Value {
    Value::String(value.to_string())
}

fn samples() -> Vec<f64> {
    vec![
        0.0,
        -0.0,
        1.0,
        -1.0,
        1.5,
        -1.5,
        2.0,
        1e-320,
        -1e-320,
        f64::MIN_POSITIVE,
        f64::MAX,
        f64::MIN,
        f64::EPSILON,
        f64::INFINITY,
        f64::NEG_INFINITY,
        f64::NAN,
        -f64::NAN,
        f64::from_bits(0x7ff0_0000_0000_0001),
        f64::from_bits(0xfff8_0000_0000_0001),
        123456.789,
        -987654.321,
    ]
}

fn values() -> Vec<Value> {
    vec![
        number(0.0),
        number(1.0),
        number(f64::NAN),
        text(""),
        text("1"),
        text("nil"),
        Value::Bool(true),
        Value::Bool(false),
        Value::Nil,
    ]
}

fn twin(value: &Value) -> Value {
    match value {
        Value::Number(bits) => Value::Number(*bits),
        Value::String(text) => Value::String(text.clone()),
        Value::Bool(truth) => Value::Bool(*truth),
        Value::Nil => Value::Nil,
    }
}

#[test]
fn sum_in_a_grouping_equals_a_number() {
    assert_eq!(evaluate("(1 + 2) == 3"), Ok(Value::Bool(true)));
}

#[test]
fn a_number_is_not_equal_to_a_string() {
    assert_eq!(evaluate("1 == \"1\""), Ok(Value::Bool(false)));
    assert_eq!(evaluate("1 != \"1\""), Ok(Value::Bool(true)));
}

#[test]
fn minus_before_a_string_is_an_error() {
    assert_eq!(evaluate("-\"a\""), Err(Error::InvalidUnaryOperand));
}

#[test]
fn division_by_zero_is_infinity() {
    assert_eq!(evaluate("1 / 0"), Ok(number(f64::INFINITY)));
    assert_eq!(evaluate("-1 / 0"), Ok(number(f64::NEG_INFINITY)));
    match evaluate("0 / 0") {
        Ok(Value::Number(bits)) => assert!(f64::from_bits(bits).is_nan()),
        other => panic!("no number: {:?}", other),
    }
}

#[test]
fn strings_are_joined_left_then_right() {
    assert_eq!(evaluate("\"a\" + \"b\""), Ok(text("ab")));
    assert_eq!(evaluate("\"a\" + \"\" + \"bc\" + \"d\""), Ok(text("abcd")));
}

#[test]
fn literals_evaluate_to_themselves() {
    assert_eq!(evaluate("nil"), Ok(Value::Nil));
    assert_eq!(evaluate("true"), Ok(Value::Bool(true)));
    assert_eq!(evaluate("false"), Ok(Value::Bool(false)));
    assert_eq!(evaluate("\"hi\""), Ok(text("hi")));
    assert_eq!(evaluate("12.5"), Ok(number(12.5)));
    assert_eq!(evaluate("12."), Ok(number(12.0)));
    assert_eq!(evaluate("((12))"), Ok(number(12.0)));
    assert_eq!(
        evaluate("0.1"),
        Ok(Value::Number(0x3fb9_9999_9999_999a))
    );
}

#[test]
fn arithmetic_on_numbers() {
    assert_eq!(evaluate("1 + 2"), Ok(number(3.0)));
    assert_eq!(evaluate("1 - 2"), Ok(number(-1.0)));
    assert_eq!(evaluate("3 * 4"), Ok(number(12.0)));
    assert_eq!(evaluate("1 / 4"), Ok(number(0.25)));
    assert_eq!(evaluate("2 + 3 * 4"), Ok(number(14.0)));
    assert_eq!(evaluate("(2 + 3) * 4"), Ok(number(20.0)));
    assert_eq!(evaluate("10 - 4 - 3"), Ok(number(3.0)));
    assert_eq!(evaluate("0.1 + 0.2"), Ok(number(0.1 + 0.2)));
    assert_eq!(evaluate("0.1 + 0.2 == 0.3"), Ok(Value::Bool(false)));
}

#[test]
fn negation() {
    assert_eq!(evaluate("-3"), Ok(number(-3.0)));
    assert_eq!(evaluate("--3"), Ok(number(3.0)));
    assert_eq!(evaluate("-0"), Ok(number(-0.0)));
    assert_eq!(evaluate("-(1 - 1) == 0"), Ok(Value::Bool(true)));
    assert_eq!(evaluate("-nil"), Err(Error::InvalidUnaryOperand));
    assert_eq!(evaluate("-true"), Err(Error::InvalidUnaryOperand));
}

#[test]
fn only_false_and_nil_are_falsy() {
    assert_eq!(evaluate("!true"), Ok(Value::Bool(false)));
    assert_eq!(evaluate("!false"), Ok(Value::Bool(true)));
    assert_eq!(evaluate("!nil"), Ok(Value::Bool(true)));
    assert_eq!(evaluate("!0"), Ok(Value::Bool(false)));
    assert_eq!(evaluate("!1"), Ok(Value::Bool(false)));
    assert_eq!(evaluate("!\"\""), Ok(Value::Bool(false)));
    assert_eq!(evaluate("!\"false\""), Ok(Value::Bool(false)));
    assert_eq!(evaluate("!!nil"), Ok(Value::Bool(false)));
}

#[test]
fn comparisons_take_numbers_only() {
    assert_eq!(evaluate("1 < 2"), Ok(Value::Bool(true)));
    assert_eq!(evaluate("2 < 2"), Ok(Value::Bool(false)));
    assert_eq!(evaluate("2 <= 2"), Ok(Value::Bool(true)));
    assert_eq!(evaluate("3 <= 2"), Ok(Value::Bool(false)));
    assert_eq!(evaluate("3 > 2"), Ok(Value::Bool(true)));
    assert_eq!(evaluate("2 > 2"), Ok(Value::Bool(false)));
    assert_eq!(evaluate("2 >= 2"), Ok(Value::Bool(true)));
    assert_eq!(evaluate("1 >= 2"), Ok(Value::Bool(false)));
    assert_eq!(evaluate("-1 < 1"), Ok(Value::Bool(true)));
    assert_eq!(evaluate("-2 < -1"), Ok(Value::Bool(true)));
    for (source, operator) in [
        ("\"a\" < \"b\"", BinaryOperator::Less),
        ("true <= false", BinaryOperator::LessEqual),
        ("nil > nil", BinaryOperator::Greater),
        ("1 >= \"1\"", BinaryOperator::GreaterEqual),
    ] {
        assert_eq!(evaluate(source), Err(Error::InvalidBinaryOperand { operator }));
    }
}

#[test]
fn arithmetic_takes_no_other_pairs() {
    for (source, operator) in [
        ("1 + \"a\"", BinaryOperator::Plus),
        ("\"a\" + 1", BinaryOperator::Plus),
        ("true + false", BinaryOperator::Plus),
        ("nil + nil", BinaryOperator::Plus),
        ("\"a\" - \"b\"", BinaryOperator::Minus),
        ("1 - nil", BinaryOperator::Minus),
        ("\"a\" * 2", BinaryOperator::Multiplication),
        ("true * true", BinaryOperator::Multiplication),
        ("\"a\" / \"b\"", BinaryOperator::Division),
        ("nil / 1", BinaryOperator::Division),
    ] {
        assert_eq!(evaluate(source), Err(Error::InvalidBinaryOperand { operator }));
    }
}

#[test]
fn equality_within_a_type() {
    assert_eq!(evaluate("1 == 1"), Ok(Value::Bool(true)));
    assert_eq!(evaluate("1 == 2"), Ok(Value::Bool(false)));
    assert_eq!(evaluate("1 != 2"), Ok(Value::Bool(true)));
    assert_eq!(evaluate("1.0 == 1"), Ok(Value::Bool(true)));
    assert_eq!(evaluate("\"a\" == \"a\""), Ok(Value::Bool(true)));
    assert_eq!(evaluate("\"a\" == \"b\""), Ok(Value::Bool(false)));
    assert_eq!(evaluate("\"a\" != \"b\""), Ok(Value::Bool(true)));
    assert_eq!(evaluate("true == true"), Ok(Value::Bool(true)));
    assert_eq!(evaluate("true == false"), Ok(Value::Bool(false)));
    assert_eq!(evaluate("true != false"), Ok(Value::Bool(true)));
    assert_eq!(evaluate("nil == nil"), Ok(Value::Bool(true)));
    assert_eq!(evaluate("nil != nil"), Ok(Value::Bool(false)));
    assert_eq!(evaluate("0 / 0 == 0 / 0"), Ok(Value::Bool(false)));
    assert_eq!(evaluate("0 / 0 != 0 / 0"), Ok(Value::Bool(true)));
    assert_eq!(evaluate("0 == -0"), Ok(Value::Bool(true)));
}

#[test]
fn values_of_different_types_are_never_equal() {
    let all = values();
    for left in &all {
        for right in &all {
            if left.kind() != right.kind() {
                assert!(!same(left, right));
                assert_eq!(
                    binary(BinaryOperator::EqualEqual, twin(left), twin(right), &arithmetic),
                    Ok(Value::Bool(false))
                );
                assert_eq!(
                    binary(BinaryOperator::BangEqual, twin(left), twin(right), &arithmetic),
                    Ok(Value::Bool(true))
                );
            }
        }
    }
}

#[test]
fn equality_and_inequality_are_opposites() {
    let all = values();
    for left in &all {
        for right in &all {
            let equal = binary(BinaryOperator::EqualEqual, twin(left), twin(right), &arithmetic);
            let unequal = binary(BinaryOperator::BangEqual, twin(left), twin(right), &arithmetic);
            assert_eq!(equal, Ok(Value::Bool(same(left, right))));
            assert_eq!(unequal, Ok(Value::Bool(!same(left, right))));
        }
    }
}

#[test]
fn kinds_of_values() {
    assert_eq!(number(1.0).kind(), Kind::Number);
    assert_eq!(text("1").kind(), Kind::String);
    assert_eq!(Value::Bool(false).kind(), Kind::Bool);
    assert_eq!(Value::Nil.kind(), Kind::Nil);
}

#[test]
fn the_left_operand_is_evaluated_first() {
    assert_eq!(evaluate("-\"a\" + (1 < nil)"), Err(Error::InvalidUnaryOperand));
    assert_eq!(
        evaluate("(1 < nil) + -\"a\""),
        Err(Error::InvalidBinaryOperand { operator: BinaryOperator::Less })
    );
    assert_eq!(
        evaluate("1 + (nil * 2)"),
        Err(Error::InvalidBinaryOperand { operator: BinaryOperator::Multiplication })
    );
    assert_eq!(evaluate("!(-nil)"), Err(Error::InvalidUnaryOperand));
    assert_eq!(evaluate("(-nil) == 1"), Err(Error::InvalidUnaryOperand));
}

#[test]
fn calculations_are_asked_in_order() {
    let asked = std::cell::RefCell::new(Vec::new());
    let recording = |calculation: Calculation| {
        asked.borrow_mut().push(calculation.clone());
        arithmetic(calculation)
    };
    let tokens = tokens_of(&tokenize("1 + 2 * 3"));
    let tree = Parser::new(tokens).parse().unwrap();
    assert_eq!(eval(tree, &recording), Ok(number(7.0)));
    assert_eq!(
        asked.into_inner(),
        vec![
            Calculation::Numeral("1".to_string()),
            Calculation::Numeral("2".to_string()),
            Calculation::Numeral("3".to_string()),
            Calculation::Product(2f64.to_bits(), 3f64.to_bits()),
            Calculation::Sum(1f64.to_bits(), 6f64.to_bits()),
        ]
    );
}

#[test]
fn operators_on_values() {
    assert_eq!(unary(UnaryOperator::Minus, number(2.5)), Ok(number(-2.5)));
    assert_eq!(unary(UnaryOperator::Minus, text("2.5")), Err(Error::InvalidUnaryOperand));
    assert_eq!(unary(UnaryOperator::Bang, Value::Nil), Ok(Value::Bool(true)));
    assert_eq!(unary(UnaryOperator::Bang, number(0.0)), Ok(Value::Bool(false)));
    assert_eq!(
        binary(BinaryOperator::Plus, text("left "), text("right"), &arithmetic),
        Ok(text("left right"))
    );
    assert_eq!(
        binary(BinaryOperator::Division, number(1.0), number(8.0), &arithmetic),
        Ok(number(0.125))
    );
    assert_eq!(
        binary(BinaryOperator::Minus, number(1.0), Value::Nil, &arithmetic),
        Err(Error::InvalidBinaryOperand { operator: BinaryOperator::Minus })
    );
}

#[test]
fn a_tree_built_by_hand() {
    let tree = Expr::Binary {
        operator: BinaryOperator::Plus,
        left: Box::new(Expr::Literal(Literal::String("a".to_string()))),
        right: Box::new(Expr::Grouping(Box::new(Expr::Literal(Literal::String(
            "b".to_string(),
        ))))),
    };
    assert_eq!(eval(tree, &arithmetic), Ok(text("ab")));
    let tree = Expr::Unary {
        operator: UnaryOperator::Bang,
        right: Box::new(Expr::Literal(Literal::Null)),
    };
    assert_eq!(eval(tree, &arithmetic), Ok(Value::Bool(true)));
}

#[test]
fn negation_flips_the_sign_of_every_number() {
    for x in samples() {
        assert_eq!(negate(x.to_bits()), (-x).to_bits());
        assert_eq!(negate(negate(x.to_bits())), x.to_bits());
    }
}

#[test]
fn comparison_of_bits_is_comparison_of_numbers() {
    for a in samples() {
        assert_eq!(not_a_number(a.to_bits()), a.is_nan());
        for b in samples() {
            assert_eq!(equals(a.to_bits(), b.to_bits()), a == b, "{:?} == {:?}", a, b);
            assert_eq!(is_less(a.to_bits(), b.to_bits()), a < b, "{:?} < {:?}", a, b);
            for (operator, expected) in [
                (BinaryOperator::Less, a < b),
                (BinaryOperator::LessEqual, a <= b),
                (BinaryOperator::Greater, a > b),
                (BinaryOperator::GreaterEqual, a >= b),
                (BinaryOperator::EqualEqual, a == b),
                (BinaryOperator::BangEqual, a != b),
            ] {
                assert_eq!(
                    binary(operator, number(a), number(b), &arithmetic),
                    Ok(Value::Bool(expected)),
                    "{:?} {:?} {:?}",
                    a,
                    operator,
                    b
                );
            }
        }
    }
}

#[test]
fn evaluation_error_messages() {
    assert_eq!(Error::InvalidUnaryOperand.message(), "Operand must be Numeric.");
    assert_eq!(
        Error::InvalidBinaryOperand { operator: BinaryOperator::GreaterEqual }.message(),
        "Operator '>=' used with invalid data types."
    );
    assert_eq!(
        Error::InvalidBinaryOperand { operator: BinaryOperator::Plus }.message(),
        "Operator '+' used with invalid data types."
    );
}

#[test]
fn comparison_of_bits_on_many_numbers() {
    let mut state: u64 = 0x9e37_79b9_7f4a_7c15;
    let mut next = || {
        state = state.wrapping_mul(6364136223846793005).wrapping_add(1442695040888963407);
        let high = state >> 32;
        state = state.wrapping_mul(6364136223846793005).wrapping_add(1442695040888963407);
        (high << 32) | (state >> 32)
    };
    for round in 0..50000 {
        let a = next();
        let b = if round % 3 == 0 { a ^ (1u64 << (round % 64)) } else { next() };
        let (x, y) = (f64::from_bits(a), f64::from_bits(b));
        assert_eq!(equals(a, b), x == y);
        assert_eq!(is_less(a, b), x < y);
        assert_eq!(not_a_number(a), x.is_nan());
        assert_eq!(negate(a), (-x).to_bits());
    }
}

#[test]
fn the_type_of_a_result_does_not_depend_on_the_arithmetic() {
    let zero = |_: Calculation| 0u64;
    let nan = |_: Calculation| f64::NAN.to_bits();
    for source in [
        "1 + 2",
        "1 + 2 == 3",
        "-(1 / 0) < 4",
        "!(1 * 2)",
        "\"a\" + \"b\"",
        "1 + \"a\"",
        "-\"a\"",
        "(1 < 2) < 3",
        "nil == (1 - 1)",
    ] {
        let expected = evaluate(source).map(|value| value.kind());
        for arithmetic in [&zero as &dyn Fn(Calculation) -> u64, &nan] {
            let tree = Parser::new(tokens_of(&tokenize(source))).parse().unwrap();
            assert_eq!(eval(tree, &arithmetic).map(|value| value.kind()), expected);
        }
    }
}
