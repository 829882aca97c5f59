//! Numbers are 64-bit binary floating-point numbers, held by their bits:
//! the sign in the highest bit, the exponent and the fraction below it.
//! Negation and comparison read nothing but those bits.

use vstd::prelude::*;

verus! {

/// A computation that rounds its result to the nearest number. The
/// evaluator asks for it and takes the bits of the answer.
#[derive(Debug, Clone, PartialEq, Eq)]
pub enum Calculation {
    /// The number that a decimal numeral denotes.
    Numeral(String),
    Sum(u64, u64),
    Difference(u64, u64),
    Product(u64, u64),
    Quotient(u64, u64),
}

/// What a [`Calculation`] holds, as mathematical values.
pub enum CalculationModel {
    Numeral(Seq<char>),
    Sum(u64, u64),
    Difference(u64, u64),
    Product(u64, u64),
    Quotient(u64, u64),
}

impl View for Calculation {
    type V = CalculationModel;

    open spec fn view(&self) -> CalculationModel {
        match self {
            Calculation::Numeral(text) => CalculationModel::Numeral(text@),
            Calculation::Sum(a, b) => CalculationModel::Sum(*a, *b),
            Calculation::Difference(a, b) => CalculationModel::Difference(*a, *b),
            Calculation::Product(a, b) => CalculationModel::Product(*a, *b),
            Calculation::Quotient(a, b) => CalculationModel::Quotient(*a, *b),
        }
    }
}

/// The bit of the sign.
pub const SIGN: u64 = 0x8000_0000_0000_0000;

/// The bits of positive infinity. Every larger magnitude is not a number.
pub const INFINITY: u64 = 0x7ff0_0000_0000_0000;

/// The bits without the sign.
pub open spec fn magnitude(bits: u64) -> int {
    if bits >= SIGN {
        bits - SIGN
    } else {
        bits as int
    }
}

/// Whether the bits stand for no number.
pub open spec fn is_nan(bits: u64) -> bool {
    magnitude(bits) > INFINITY
}

/// The bits of the number with the opposite sign.
pub open spec fn negated(bits: u64) -> u64 {
    if bits >= SIGN {
        (bits - SIGN) as u64
    } else {
        (bits + SIGN) as u64
    }
}

/// An integer that orders the numbers as their values do: the magnitude,
/// below zero where the sign is set. Both zeros have rank zero.
pub open spec fn rank(bits: u64) -> int {
    if bits >= SIGN {
        -magnitude(bits)
    } else {
        magnitude(bits)
    }
}

/// `a == b` on numbers: false where either is not a number, and true of the
/// two zeros.
pub open spec fn equal(a: u64, b: u64) -> bool {
    !is_nan(a) && !is_nan(b) && rank(a) == rank(b)
}

/// `a < b` on numbers: false where either is not a number.
pub open spec fn less(a: u64, b: u64) -> bool {
    !is_nan(a) && !is_nan(b) && rank(a) < rank(b)
}

/// Whether the bits stand for no number.
pub fn not_a_number(bits: u64) -> (yes: bool)
    ensures
        yes == is_nan(bits),
{
    if bits >= SIGN {
        bits - SIGN > INFINITY
    } else {
        bits > INFINITY
    }
}

/// Returns the number with the opposite sign.
pub fn negate(bits: u64) -> (opposite: u64)
    ensures
        opposite == negated(bits),
{
    if bits >= SIGN {
        bits - SIGN
    } else {
        bits + SIGN
    }
}

/// The integer that orders the numbers as their values do.
fn rank_of(bits: u64) -> (r: i64)
    ensures
        r == rank(bits),
{
    if bits >= SIGN {
        let magnitude = (bits - SIGN) as i64;
        -magnitude
    } else {
        bits as i64
    }
}

/// Whether two numbers are equal.
pub fn equals(a: u64, b: u64) -> (yes: bool)
    ensures
        yes == equal(a, b),
{
    !not_a_number(a) && !not_a_number(b) && rank_of(a) == rank_of(b)
}

/// Whether the first number is less than the second.
pub fn is_less(a: u64, b: u64) -> (yes: bool)
    ensures
        yes == less(a, b),
{
    !not_a_number(a) && !not_a_number(b) && rank_of(a) < rank_of(b)
}

} // verus!
