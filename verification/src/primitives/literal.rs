//! Literal payloads of tokens.

use vstd::prelude::*;
use vstd::string::*;

verus! {

/// The payload of a literal token.
///
/// A number is kept as the decimal numeral that the source spells: digits
/// with at most one `.` among them.
#[derive(Clone, Debug, PartialEq, Eq)]
pub enum Literal {
    Null,
    String(String),
    Number(String),
    False,
    True,
}

/// What a [`Literal`] holds, as mathematical sequences.
pub enum LiteralModel {
    Null,
    String(Seq<char>),
    Number(Seq<char>),
    False,
    True,
}

impl View for Literal {
    type V = LiteralModel;

    open spec fn view(&self) -> LiteralModel {
        match self {
            Literal::Null => LiteralModel::Null,
            Literal::String(s) => LiteralModel::String(s@),
            Literal::Number(s) => LiteralModel::Number(s@),
            Literal::False => LiteralModel::False,
            Literal::True => LiteralModel::True,
        }
    }
}

impl LiteralModel {
    /// The text that stands for the literal in a token listing.
    pub open spec fn text(self) -> Seq<char> {
        match self {
            LiteralModel::Null => "null"@,
            LiteralModel::String(s) => s,
            LiteralModel::Number(s) => s,
            LiteralModel::False => "false"@,
            LiteralModel::True => "true"@,
        }
    }
}

impl Literal {
    /// Returns a literal that holds the same payload.
    pub fn copy(&self) -> (twin: Literal)
        ensures
            twin@ == self@,
    {
        match self {
            Literal::Null => Literal::Null,
            Literal::String(s) => Literal::String(s.clone()),
            Literal::Number(s) => Literal::Number(s.clone()),
            Literal::False => Literal::False,
            Literal::True => Literal::True,
        }
    }

    /// Returns the text that stands for the literal in a token listing.
    pub fn render(&self) -> (text: String)
        ensures
            text@ == self@.text(),
    {
        match self {
            Literal::Null => String::from_str("null"),
            Literal::String(s) => s.clone(),
            Literal::Number(s) => s.clone(),
            Literal::False => String::from_str("false"),
            Literal::True => String::from_str("true"),
        }
    }
}

} // verus!
