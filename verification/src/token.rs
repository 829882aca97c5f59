//! Tokens: a classified lexeme with its literal payload and source line.

use vstd::prelude::*;
use vstd::string::*;

pub use crate::primitives::Literal;
pub use crate::primitives::LiteralModel;
pub use crate::primitives::TokenType;

verus! {

/// One lexical unit of the source text.
#[derive(Clone, Debug, PartialEq, Eq)]
pub struct Token<'a> {
    pub token_type: TokenType,
    pub lexeme: &'a str,
    pub literal: Literal,
    pub line: usize,
}

/// What a [`Token`] holds, as mathematical values.
pub struct TokenModel {
    pub token_type: TokenType,
    pub lexeme: Seq<char>,
    pub literal: LiteralModel,
    pub line: usize,
}

impl<'a> View for Token<'a> {
    type V = TokenModel;

    open spec fn view(&self) -> TokenModel {
        TokenModel {
            token_type: self.token_type,
            lexeme: self.lexeme@,
            literal: self.literal@,
            line: self.line,
        }
    }
}

/// What a sequence of tokens holds, as mathematical values.
pub open spec fn models(tokens: Seq<Token<'_>>) -> Seq<TokenModel> {
    tokens.map_values(|token: Token<'_>| token@)
}

impl TokenModel {
    /// Whether the literal is of the token's category: a number token
    /// carries a number and a string token a string.
    pub open spec fn literal_fits(self) -> bool {
        &&& self.token_type == TokenType::Number ==> self.literal is Number
        &&& self.token_type == TokenType::String ==> self.literal is String
    }

    /// The line of a token listing: category, lexeme and literal.
    pub open spec fn text(self) -> Seq<char> {
        self.token_type.label() + seq![' '] + self.lexeme + seq![' '] + self.literal.text()
    }
}

impl<'a> Token<'a> {
    pub fn new(token_type: TokenType, lexeme: &'a str, literal: Literal, line: usize) -> (token:
        Self)
        ensures
            token.token_type == token_type,
            token.lexeme == lexeme,
            token.literal == literal,
            token.line == line,
    {
        Self { token_type, lexeme, literal, line }
    }

    /// Returns a token that holds the same values.
    pub fn copy(&self) -> (twin: Token<'a>)
        ensures
            twin@ == self@,
    {
        Token {
            token_type: self.token_type,
            lexeme: self.lexeme,
            literal: self.literal.copy(),
            line: self.line,
        }
    }

    /// Returns the line of a token listing: category, lexeme and literal.
    pub fn render(&self) -> (text: String)
        ensures
            text@ == self@.text(),
    {
        let mut text = String::from_str(self.token_type.name());
        text.push(' ');
        text.append(self.lexeme);
        text.push(' ');
        let literal = self.literal.render();
        text.append(literal.as_str());
        text
    }
}

} // verus!
