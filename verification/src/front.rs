//! The front end as a whole: from a source text to the tree of its
//! expression.

use vstd::prelude::*;

use crate::expr::expression::Expr;
use crate::expr::expression::ExprModel;
use crate::parser::grammar::trimmed;
use crate::parser::grammar::whole;
use crate::parser::laws::kinds;
use crate::parser::laws::lemma_tree_follows_precedence;
use crate::parser::laws::lemma_tree_spells_tokens;
use crate::parser::laws::literals_fit;
use crate::parser::laws::spelling;
use crate::parser::laws::stands_at;
use crate::parser::parser::result_view;
use crate::parser::parser::Parser;
use crate::parser::Error;
use crate::parser::ErrorModel;
use crate::scan::grammar::items_from;
use crate::scan::lemma_scanned_tokens_fit;
use crate::scan::lexer::tokenize;
use crate::scan::tokens_among;
use crate::scan::tokens_of;
use crate::token::TokenModel;

verus! {

/// The tokens that a source text leaves for the parser: what a scan of it
/// yields, without the lexical errors and without the end-of-file token.
pub open spec fn words(src: Seq<char>) -> Seq<TokenModel> {
    trimmed(tokens_among(items_from(src, 0)))
}

/// The tree of the expression that a source text spells, or the error in
/// its syntax.
pub open spec fn parsed(src: Seq<char>) -> core::result::Result<ExprModel, ErrorModel> {
    whole(words(src), 0).result
}

/// Scans a source text, leaves the lexical errors out and parses the tokens
/// to one expression.
pub fn parse_source(source: &str) -> (result: core::result::Result<Expr, Error>)
    ensures
        result_view(result) == parsed(source@),
{
    let items = tokenize(source);
    let mut parser = Parser::new(tokens_of(&items));
    parser.parse()
}

/// The tree of a source text is written by the tokens of the text, in their
/// order, and nests its operations by precedence.
pub proof fn lemma_parsed_tree_is_the_text(src: Seq<char>)
    ensures
        parsed(src) matches Ok(tree) ==> spelling(tree) == kinds(words(src)) && stands_at(
            tree,
            4,
        ),
{
    let all = tokens_among(items_from(src, 0));
    let ts = words(src);
    lemma_scanned_tokens_fit(src);
    assert(literals_fit(ts)) by {
        assert forall|i: int| 0 <= i < ts.len() implies (#[trigger] ts[i]).literal_fits() by {
            assert(ts[i] == all[i]);
        }
    }
    lemma_tree_spells_tokens(ts, 0);
    lemma_tree_follows_precedence(ts, 0);
    assert(kinds(ts).subrange(0, ts.len() as int) =~= kinds(ts));
}

} // verus!
