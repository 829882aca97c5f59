//! Prefix operators.

use vstd::prelude::*;

use super::Error;
use crate::primitives::TokenType;

verus! {

/// The prefix operators.
#[derive(Debug, PartialEq, Eq, Clone, Copy, Structural)]
pub enum UnaryOperator {
    Bang,
    Minus,
}

impl UnaryOperator {
    /// The operator that a token category names, if it names one.
    pub open spec fn of(token_type: TokenType) -> Option<UnaryOperator> {
        match token_type {
            TokenType::Bang => Some(UnaryOperator::Bang),
            TokenType::Minus => Some(UnaryOperator::Minus),
            _ => None,
        }
    }

    /// The token category that names the operator.
    pub open spec fn token_type(self) -> TokenType {
        match self {
            UnaryOperator::Bang => TokenType::Bang,
            UnaryOperator::Minus => TokenType::Minus,
        }
    }

    /// The operator as the source spells it.
    pub open spec fn sign(self) -> Seq<char> {
        match self {
            UnaryOperator::Bang => "!"@,
            UnaryOperator::Minus => "-"@,
        }
    }

    /// Returns the operator that `token_type` names, or the error that
    /// carries the category where it names none.
    pub fn try_from(token_type: TokenType) -> (operator: core::result::Result<Self, Error>)
        ensures
            operator == match Self::of(token_type) {
                Some(found) => Ok::<Self, Error>(found),
                None => Err(Error::InvalidTypeForUnaryOperator { token_type }),
            },
    {
        match token_type {
            TokenType::Bang => Ok(UnaryOperator::Bang),
            TokenType::Minus => Ok(UnaryOperator::Minus),
            _ => Err(Error::InvalidTypeForUnaryOperator { token_type }),
        }
    }

    /// Returns the operator as the source spells it.
    pub fn symbol(&self) -> (text: &'static str)
        ensures
            text@ == self.sign(),
    {
        match self {
            UnaryOperator::Bang => "!",
            UnaryOperator::Minus => "-",
        }
    }
}

} // verus!
