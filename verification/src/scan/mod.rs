//! Lexical analysis: from source text to tokens and lexical errors.

use vstd::prelude::*;
use vstd::string::*;

use crate::text::decimal;
use crate::text::push_decimal;
use crate::token::models;
use crate::token::Token;
use crate::token::TokenModel;

pub mod grammar;
pub mod lexer;

verus! {

pub type Result<T> = core::result::Result<T, Error>;

/// What the scanner reports instead of a token.
#[derive(Debug, PartialEq, Eq, Clone, Copy, Structural)]
pub enum Error {
    /// A character that starts no token, with the line it stands on.
    UnrecognizedCharacter { line: usize, which: char },
    /// A string literal without a closing quote, with the line it starts on.
    UnterminatedString { line: usize },
}

impl Error {
    /// The diagnostic line for a lexical error.
    pub open spec fn text(self) -> Seq<char> {
        match self {
            Error::UnrecognizedCharacter { line, which } => ("[line "@ + decimal(line as nat)
                + "] Error: Unexpected character: "@).push(which),
            Error::UnterminatedString { line } => "[line "@ + decimal(line as nat)
                + "] Error: Unterminated string."@,
        }
    }

    /// Returns the diagnostic line for the error.
    pub fn message(&self) -> (text: String)
        ensures
            text@ == self.text(),
    {
        let mut text = String::from_str("[line ");
        match self {
            Error::UnrecognizedCharacter { line, which } => {
                push_decimal(&mut text, *line);
                text.append("] Error: Unexpected character: ");
                text.push(*which);
            },
            Error::UnterminatedString { line } => {
                push_decimal(&mut text, *line);
                text.append("] Error: Unterminated string.");
            },
        }
        text
    }
}

/// The tokens among scanned items, in their order.
pub open spec fn tokens_among(items: Seq<core::result::Result<TokenModel, Error>>) -> Seq<
    TokenModel,
>
    decreases items.len(),
{
    if items.len() == 0 {
        Seq::empty()
    } else {
        match items.last() {
            Ok(token) => tokens_among(items.drop_last()).push(token),
            Err(_) => tokens_among(items.drop_last()),
        }
    }
}

/// The tokens among items keep what holds of every token of the items:
/// here, that the literal is of the token's category.
pub proof fn lemma_tokens_among_fit(items: Seq<core::result::Result<TokenModel, Error>>)
    requires
        forall|i: int|
            0 <= i < items.len() ==> ((#[trigger] items[i]) matches Ok(token)
                ==> token.literal_fits()),
    ensures
        forall|k: int|
            0 <= k < tokens_among(items).len() ==> (#[trigger] tokens_among(
                items,
            )[k]).literal_fits(),
    decreases items.len(),
{
    if items.len() > 0 {
        let shorter = items.drop_last();
        assert forall|i: int| 0 <= i < shorter.len() implies ((#[trigger] shorter[i]) matches Ok(
            token,
        ) ==> token.literal_fits()) by {
            assert(shorter[i] == items[i]);
        }
        lemma_tokens_among_fit(shorter);
        let kept = tokens_among(shorter);
        assert forall|k: int| 0 <= k < tokens_among(items).len() implies (#[trigger] tokens_among(
            items,
        )[k]).literal_fits() by {
            match items[items.len() - 1] {
                Ok(token) => {
                    assert(tokens_among(items) == kept.push(token));
                    if k < kept.len() {
                        assert(tokens_among(items)[k] == kept[k]);
                    } else {
                        assert(tokens_among(items)[k] == token);
                    }
                },
                Err(_) => {
                    assert(tokens_among(items) == kept);
                },
            }
        }
    }
}

/// The tokens that a scan of any source text leaves for a parser carry
/// literals of their categories.
pub proof fn lemma_scanned_tokens_fit(src: Seq<char>)
    ensures
        forall|k: int|
            0 <= k < tokens_among(grammar::items_from(src, 0)).len() ==> (#[trigger] tokens_among(
                grammar::items_from(src, 0),
            )[k]).literal_fits(),
{
    grammar::lemma_literals_fit(src, 0);
    lemma_tokens_among_fit(grammar::items_from(src, 0));
}

/// Returns the tokens among scanned items, in their order: what is left
/// for a parser once the lexical errors have been reported.
pub fn tokens_of<'a>(items: &Vec<core::result::Result<Token<'a>, Error>>) -> (tokens: Vec<
    Token<'a>,
>)
    ensures
        models(tokens@) == tokens_among(grammar::items_view(items@)),
{
    let mut tokens: Vec<Token<'a>> = Vec::new();
    let mut i: usize = 0;
    while i < items.len()
        invariant
            i <= items.len(),
            models(tokens@) == tokens_among(
                grammar::items_view(items@.subrange(0, i as int)),
            ),
        decreases items.len() - i,
    {
        let ghost before = models(tokens@);
        proof {
            let shorter = grammar::items_view(items@.subrange(0, i as int));
            let longer = grammar::items_view(items@.subrange(0, i + 1));
            assert(longer.drop_last() == shorter);
            assert(longer.last() == grammar::item_view(items@[i as int]));
        }
        match &items[i] {
            Ok(token) => {
                tokens.push(token.copy());
                assert(models(tokens@) == before.push(token@));
            },
            Err(_) => {},
        }
        i += 1;
    }
    assert(items@.subrange(0, i as int) == items@);
    tokens
}

/// Whether there is a lexical error among scanned items.
pub open spec fn has_error(items: Seq<core::result::Result<TokenModel, Error>>) -> bool {
    exists|i: int| 0 <= i < items.len() && (#[trigger] items[i]) is Err
}

/// Tells whether there is a lexical error among scanned items.
pub fn failed<'a>(items: &Vec<core::result::Result<Token<'a>, Error>>) -> (yes: bool)
    ensures
        yes == has_error(grammar::items_view(items@)),
{
    let mut i: usize = 0;
    while i < items.len()
        invariant
            i <= items.len(),
            forall|j: int| 0 <= j < i ==> !((#[trigger] grammar::items_view(items@)[j]) is Err),
        decreases items.len() - i,
    {
        assert(grammar::items_view(items@)[i as int] == grammar::item_view(items@[i as int]));
        if items[i].is_err() {
            return true;
        }
        i += 1;
    }
    false
}

} // verus!
