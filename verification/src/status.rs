//! How a run of the front end ended, for the program that calls it.

use vstd::prelude::*;

verus! {

/// The ways in which a run ends.
#[derive(Debug, PartialEq, Eq, Clone, Copy, Structural)]
pub enum ProgramState {
    Success,
    LexerError,
    ParserError,
    RuntimeException,
}

impl ProgramState {
    /// The exit status that reports the state: zero for success, 65 for an
    /// error in the source text, 70 for an error while evaluating.
    pub open spec fn status(self) -> u8 {
        match self {
            ProgramState::Success => 0,
            ProgramState::LexerError | ProgramState::ParserError => 65,
            ProgramState::RuntimeException => 70,
        }
    }

    /// Returns the exit status that reports the state.
    pub fn code(&self) -> (code: u8)
        ensures
            code == self.status(),
    {
        match self {
            ProgramState::Success => 0,
            ProgramState::LexerError | ProgramState::ParserError => 65,
            ProgramState::RuntimeException => 70,
        }
    }
}

} // verus!
