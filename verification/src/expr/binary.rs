//! Infix operators.

use vstd::prelude::*;

use super::Error;
use crate::primitives::TokenType;

verus! {

/// The infix operators.
#[derive(Debug, PartialEq, Eq, Clone, Copy, Structural)]
pub enum BinaryOperator {
    BangEqual,
    EqualEqual,
    Greater,
    GreaterEqual,
    Less,
    LessEqual,
    Minus,
    Plus,
    Division,
    Multiplication,
}

impl BinaryOperator {
    /// The operator that a token category names, if it names one.
    pub open spec fn of(token_type: TokenType) -> Option<BinaryOperator> {
        match token_type {
            TokenType::BangEqual => Some(BinaryOperator::BangEqual),
            TokenType::EqualEqual => Some(BinaryOperator::EqualEqual),
            TokenType::Greater => Some(BinaryOperator::Greater),
            TokenType::GreaterEqual => Some(BinaryOperator::GreaterEqual),
            TokenType::Less => Some(BinaryOperator::Less),
            TokenType::LessEqual => Some(BinaryOperator::LessEqual),
            TokenType::Minus => Some(BinaryOperator::Minus),
            TokenType::Plus => Some(BinaryOperator::Plus),
            TokenType::Slash => Some(BinaryOperator::Division),
            TokenType::Asterisk => Some(BinaryOperator::Multiplication),
            _ => None,
        }
    }

    /// The token category that names the operator.
    pub open spec fn token_type(self) -> TokenType {
        match self {
            BinaryOperator::BangEqual => TokenType::BangEqual,
            BinaryOperator::EqualEqual => TokenType::EqualEqual,
            BinaryOperator::Greater => TokenType::Greater,
            BinaryOperator::GreaterEqual => TokenType::GreaterEqual,
            BinaryOperator::Less => TokenType::Less,
            BinaryOperator::LessEqual => TokenType::LessEqual,
            BinaryOperator::Minus => TokenType::Minus,
            BinaryOperator::Plus => TokenType::Plus,
            BinaryOperator::Division => TokenType::Slash,
            BinaryOperator::Multiplication => TokenType::Asterisk,
        }
    }

    /// The operator as the source spells it.
    pub open spec fn sign(self) -> Seq<char> {
        match self {
            BinaryOperator::BangEqual => "!="@,
            BinaryOperator::EqualEqual => "=="@,
            BinaryOperator::Greater => ">"@,
            BinaryOperator::GreaterEqual => ">="@,
            BinaryOperator::Less => "<"@,
            BinaryOperator::LessEqual => "<="@,
            BinaryOperator::Minus => "-"@,
            BinaryOperator::Plus => "+"@,
            BinaryOperator::Division => "/"@,
            BinaryOperator::Multiplication => "*"@,
        }
    }

    /// Returns the operator that `token_type` names, or the error that
    /// carries the category where it names none.
    pub fn try_from(token_type: TokenType) -> (operator: core::result::Result<Self, Error>)
        ensures
            operator == match Self::of(token_type) {
                Some(found) => Ok::<Self, Error>(found),
                None => Err(Error::InvalidTypeForBinaryOperator { token_type }),
            },
    {
        match token_type {
            TokenType::BangEqual => Ok(BinaryOperator::BangEqual),
            TokenType::EqualEqual => Ok(BinaryOperator::EqualEqual),
            TokenType::Greater => Ok(BinaryOperator::Greater),
            TokenType::GreaterEqual => Ok(BinaryOperator::GreaterEqual),
            TokenType::Less => Ok(BinaryOperator::Less),
            TokenType::LessEqual => Ok(BinaryOperator::LessEqual),
            TokenType::Minus => Ok(BinaryOperator::Minus),
            TokenType::Plus => Ok(BinaryOperator::Plus),
            TokenType::Slash => Ok(BinaryOperator::Division),
            TokenType::Asterisk => Ok(BinaryOperator::Multiplication),
            _ => Err(Error::InvalidTypeForBinaryOperator { token_type }),
        }
    }

    /// Returns the operator as the source spells it.
    pub fn symbol(&self) -> (text: &'static str)
        ensures
            text@ == self.sign(),
    {
        match self {
            BinaryOperator::BangEqual => "!=",
            BinaryOperator::EqualEqual => "==",
            BinaryOperator::Greater => ">",
            BinaryOperator::GreaterEqual => ">=",
            BinaryOperator::Less => "<",
            BinaryOperator::LessEqual => "<=",
            BinaryOperator::Minus => "-",
            BinaryOperator::Plus => "+",
            BinaryOperator::Division => "/",
            BinaryOperator::Multiplication => "*",
        }
    }
}

} // verus!
