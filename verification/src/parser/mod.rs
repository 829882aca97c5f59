//! Syntax analysis: from a token sequence to one expression tree.

use vstd::prelude::*;
use vstd::string::*;

use crate::text::decimal;
use crate::text::push_decimal;

pub mod grammar;
pub mod laws;
pub mod parser;

verus! {

pub type Result<T> = core::result::Result<T, Error>;

/// Why a token sequence is no expression.
#[derive(Debug, PartialEq, Eq)]
pub enum Error {
    /// A token that cannot stand where it was found.
    UnexpectedToken { line: usize, lexeme: String },
    /// The tokens ended where an operand or a `)` had to follow.
    MissingToken,
}

/// What an [`Error`] holds, as mathematical values.
pub enum ErrorModel {
    UnexpectedToken { line: usize, lexeme: Seq<char> },
    MissingToken,
}

impl View for Error {
    type V = ErrorModel;

    open spec fn view(&self) -> ErrorModel {
        match self {
            Error::UnexpectedToken { line, lexeme } => ErrorModel::UnexpectedToken {
                line: *line,
                lexeme: lexeme@,
            },
            Error::MissingToken => ErrorModel::MissingToken,
        }
    }
}

impl ErrorModel {
    /// The diagnostic line for a syntax error.
    pub open spec fn text(self) -> Seq<char> {
        match self {
            ErrorModel::UnexpectedToken { line, lexeme } => "[line "@ + decimal(line as nat)
                + "] error at '"@ + lexeme + "': Expect expression."@,
            ErrorModel::MissingToken => "A token was expected, but none were found."@,
        }
    }
}

impl Error {
    /// Returns the diagnostic line for the error.
    pub fn message(&self) -> (text: String)
        ensures
            text@ == self@.text(),
    {
        match self {
            Error::UnexpectedToken { line, lexeme } => {
                let mut text = String::from_str("[line ");
                push_decimal(&mut text, *line);
                text.append("] error at '");
                text.append(lexeme.as_str());
                text.append("': Expect expression.");
                text
            },
            Error::MissingToken => String::from_str("A token was expected, but none were found."),
        }
    }
}

} // verus!
