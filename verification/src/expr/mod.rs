//! The expression tree and its operators.

use vstd::prelude::*;

use crate::primitives::TokenType;

pub mod binary;
pub mod expression;
pub mod unary;

verus! {

pub type Result<T> = core::result::Result<T, Error>;

/// A token category that names no operator of the kind asked for.
#[derive(Debug, PartialEq, Eq, Clone, Copy, Structural)]
pub enum Error {
    InvalidTypeForBinaryOperator { token_type: TokenType },
    InvalidTypeForUnaryOperator { token_type: TokenType },
}

} // verus!
