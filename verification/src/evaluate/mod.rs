//! Evaluation: from an expression tree to one value.

use vstd::prelude::*;
use vstd::string::*;

use crate::expr::binary::BinaryOperator;

pub mod eval;
pub mod number;
pub mod semantics;
pub mod value;

pub use eval::eval;
pub use value::Value;

verus! {

pub type Result<T> = core::result::Result<T, Error>;

/// Why an expression has no value.
#[derive(Debug, PartialEq, Eq, Clone, Copy, Structural)]
pub enum Error {
    /// `-` before something that is no number.
    InvalidUnaryOperand,
    /// An infix operator between values that it does not take.
    InvalidBinaryOperand { operator: BinaryOperator },
}

impl Error {
    /// The sentence that reports the error.
    pub open spec fn text(self) -> Seq<char> {
        match self {
            Error::InvalidUnaryOperand => "Operand must be Numeric."@,
            Error::InvalidBinaryOperand { operator } => "Operator '"@ + operator.sign()
                + "' used with invalid data types."@,
        }
    }

    /// Returns the sentence that reports the error.
    pub fn message(&self) -> (text: String)
        ensures
            text@ == self.text(),
    {
        match self {
            Error::InvalidUnaryOperand => String::from_str("Operand must be Numeric."),
            Error::InvalidBinaryOperand { operator } => {
                let mut text = String::from_str("Operator '");
                text.append(operator.symbol());
                text.append("' used with invalid data types.");
                text
            },
        }
    }
}

} // verus!
