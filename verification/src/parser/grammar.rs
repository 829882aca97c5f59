//! The grammar of expressions, as functions from a token sequence and an
//! offset to a tree or an error.
//!
//! ```text
//! expression → equality
//! equality   → comparison (("!="|"==") comparison)*
//! comparison → term ((">"|">="|"<"|"<=") term)*
//! term       → factor (("-"|"+") factor)*
//! factor     → unary (("/"|"*") unary)*
//! unary      → ("!"|"-") unary | primary
//! primary    → NUMBER | STRING | "true" | "false" | "nil" | "(" expression ")"
//! ```

use vstd::prelude::*;

use super::ErrorModel;
use crate::expr::binary::BinaryOperator;
use crate::expr::expression::ExprModel;
use crate::expr::unary::UnaryOperator;
use crate::primitives::LiteralModel;
use crate::primitives::TokenType;
use crate::token::TokenModel;

verus! {

/// The precedence levels of the infix operators, loosest first.
#[derive(Debug, PartialEq, Eq, Clone, Copy, Structural)]
pub enum Level {
    Equality,
    Comparison,
    Term,
    Factor,
}

impl Level {
    /// The token categories that are operators of the level.
    pub open spec fn types(self) -> Seq<TokenType> {
        match self {
            Level::Equality => seq![TokenType::BangEqual, TokenType::EqualEqual],
            Level::Comparison => seq![
                TokenType::Greater,
                TokenType::GreaterEqual,
                TokenType::Less,
                TokenType::LessEqual,
            ],
            Level::Term => seq![TokenType::Minus, TokenType::Plus],
            Level::Factor => seq![TokenType::Slash, TokenType::Asterisk],
        }
    }

    /// The operator of the level that a token category names, if it names one.
    pub open spec fn operator(self, token_type: TokenType) -> Option<BinaryOperator> {
        if self.types().contains(token_type) {
            BinaryOperator::of(token_type)
        } else {
            None
        }
    }

    /// How tightly the level binds: the tighter, the smaller.
    pub open spec fn rank(self) -> nat {
        match self {
            Level::Equality => 4,
            Level::Comparison => 3,
            Level::Term => 2,
            Level::Factor => 1,
        }
    }
}

/// What parsing from one offset gives: the tree or the error, and the
/// offset behind the last token that was read.
pub struct Parsed {
    pub result: core::result::Result<ExprModel, ErrorModel>,
    pub end: int,
}

/// The error that reports a token that cannot stand where it was found.
pub open spec fn unexpected(token: TokenModel) -> ErrorModel {
    ErrorModel::UnexpectedToken { line: token.line, lexeme: token.lexeme }
}

/// `primary → NUMBER | STRING | "true" | "false" | "nil" | "(" expression ")"`
pub open spec fn primary(ts: Seq<TokenModel>, at: int) -> Parsed
    decreases ts.len() - at, 0nat,
{
    if at < 0 || at >= ts.len() {
        Parsed { result: Err(ErrorModel::MissingToken), end: at }
    } else {
        let token = ts[at];
        match token.token_type {
            TokenType::False => Parsed {
                result: Ok(ExprModel::Literal(LiteralModel::False)),
                end: at + 1,
            },
            TokenType::True => Parsed {
                result: Ok(ExprModel::Literal(LiteralModel::True)),
                end: at + 1,
            },
            TokenType::Nil => Parsed {
                result: Ok(ExprModel::Literal(LiteralModel::Null)),
                end: at + 1,
            },
            TokenType::Number | TokenType::String => Parsed {
                result: Ok(ExprModel::Literal(token.literal)),
                end: at + 1,
            },
            TokenType::LeftParenthesis => {
                let inner = binary(ts, at + 1, Level::Equality);
                match inner.result {
                    Err(_) => inner,
                    Ok(tree) => if inner.end < 0 || inner.end >= ts.len() {
                        Parsed { result: Err(ErrorModel::MissingToken), end: inner.end }
                    } else if ts[inner.end].token_type != TokenType::RightParenthesis {
                        Parsed { result: Err(unexpected(ts[inner.end])), end: inner.end + 1 }
                    } else {
                        Parsed {
                            result: Ok(ExprModel::Grouping(Box::new(tree))),
                            end: inner.end + 1,
                        }
                    },
                }
            },
            _ => Parsed { result: Err(unexpected(token)), end: at + 1 },
        }
    }
}

/// `unary → ("!"|"-") unary | primary`
pub open spec fn unary(ts: Seq<TokenModel>, at: int) -> Parsed
    decreases ts.len() - at, 1nat,
{
    if 0 <= at < ts.len() && UnaryOperator::of(ts[at].token_type) is Some {
        let right = unary(ts, at + 1);
        match right.result {
            Err(_) => right,
            Ok(tree) => Parsed {
                result: Ok(
                    ExprModel::Unary {
                        operator: UnaryOperator::of(ts[at].token_type)->0,
                        right: Box::new(tree),
                    },
                ),
                end: right.end,
            },
        }
    } else {
        primary(ts, at)
    }
}

/// What stands on either side of an operator of `level`: an expression of
/// the next tighter level.
pub open spec fn operand(ts: Seq<TokenModel>, at: int, level: Level) -> Parsed
    decreases ts.len() - at, 2 * level.rank(),
{
    match level {
        Level::Equality => binary(ts, at, Level::Comparison),
        Level::Comparison => binary(ts, at, Level::Term),
        Level::Term => binary(ts, at, Level::Factor),
        Level::Factor => unary(ts, at),
    }
}

/// `level → operand (operator operand)*`, folded to the left.
pub open spec fn binary(ts: Seq<TokenModel>, at: int, level: Level) -> Parsed
    decreases ts.len() - at, 2 * level.rank() + 1,
{
    let first = operand(ts, at, level);
    match first.result {
        Err(_) => first,
        Ok(left) => if at < first.end <= ts.len() {
            chain(ts, first.end, level, left)
        } else {
            first
        },
    }
}

/// The rest of a level behind the operand `left`: as long as an operator of
/// the level follows, it and the operand behind it are read, and `left`
/// becomes the left operand of the new node.
pub open spec fn chain(ts: Seq<TokenModel>, at: int, level: Level, left: ExprModel) -> Parsed
    decreases ts.len() - at, 0nat,
{
    if 0 <= at < ts.len() && level.operator(ts[at].token_type) is Some {
        let right = operand(ts, at + 1, level);
        match right.result {
            Err(_) => right,
            Ok(tree) => {
                let folded = ExprModel::Binary {
                    operator: level.operator(ts[at].token_type)->0,
                    left: Box::new(left),
                    right: Box::new(tree),
                };
                if at < right.end <= ts.len() {
                    chain(ts, right.end, level, folded)
                } else {
                    Parsed { result: Ok(folded), end: right.end }
                }
            },
        }
    } else {
        Parsed { result: Ok(left), end: at }
    }
}

/// `expression → equality`
pub open spec fn expression(ts: Seq<TokenModel>, at: int) -> Parsed {
    binary(ts, at, Level::Equality)
}

/// One whole expression from offset `at` to the end of the tokens: a token
/// that is left over behind the expression is reported as unexpected.
pub open spec fn whole(ts: Seq<TokenModel>, at: int) -> Parsed {
    let first = expression(ts, at);
    match first.result {
        Err(_) => first,
        Ok(_) => if 0 <= first.end < ts.len() {
            Parsed { result: Err(unexpected(ts[first.end])), end: first.end }
        } else {
            first
        },
    }
}

/// A parse that gives a tree has read every token.
pub proof fn lemma_whole_takes_all(ts: Seq<TokenModel>, at: int)
    requires
        0 <= at <= ts.len(),
    ensures
        whole(ts, at).result is Ok ==> whole(ts, at).end == ts.len(),
{
    lemma_level_bounds(ts, at, Level::Equality);
}

/// The tokens without the end-of-file token that closes them.
pub open spec fn trimmed(ts: Seq<TokenModel>) -> Seq<TokenModel> {
    if ts.len() > 0 && ts.last().token_type == TokenType::EndOfFile {
        ts.drop_last()
    } else {
        ts
    }
}

/// A primary ends within the tokens and takes at least one of them.
pub proof fn lemma_primary_bounds(ts: Seq<TokenModel>, at: int)
    requires
        0 <= at <= ts.len(),
    ensures
        at <= primary(ts, at).end <= ts.len(),
        primary(ts, at).result is Ok ==> at < primary(ts, at).end,
    decreases ts.len() - at, 0nat,
{
    if at < ts.len() && ts[at].token_type == TokenType::LeftParenthesis {
        lemma_level_bounds(ts, at + 1, Level::Equality);
    }
}

/// A unary expression ends within the tokens and takes at least one of them.
pub proof fn lemma_unary_bounds(ts: Seq<TokenModel>, at: int)
    requires
        0 <= at <= ts.len(),
    ensures
        at <= unary(ts, at).end <= ts.len(),
        unary(ts, at).result is Ok ==> at < unary(ts, at).end,
    decreases ts.len() - at, 1nat,
{
    if at < ts.len() && UnaryOperator::of(ts[at].token_type) is Some {
        lemma_unary_bounds(ts, at + 1);
    } else {
        lemma_primary_bounds(ts, at);
    }
}

/// An expression of any level ends within the tokens and takes at least one
/// of them.
pub proof fn lemma_level_bounds(ts: Seq<TokenModel>, at: int, level: Level)
    requires
        0 <= at <= ts.len(),
    ensures
        at <= operand(ts, at, level).end <= ts.len(),
        operand(ts, at, level).result is Ok ==> at < operand(ts, at, level).end,
        at <= binary(ts, at, level).end <= ts.len(),
        binary(ts, at, level).result is Ok ==> at < binary(ts, at, level).end,
    decreases ts.len() - at, 2 * level.rank() + 1,
{
    match level {
        Level::Equality => lemma_level_bounds(ts, at, Level::Comparison),
        Level::Comparison => lemma_level_bounds(ts, at, Level::Term),
        Level::Term => lemma_level_bounds(ts, at, Level::Factor),
        Level::Factor => lemma_unary_bounds(ts, at),
    }
    let first = operand(ts, at, level);
    if let Ok(left) = first.result {
        lemma_chain_bounds(ts, first.end, level, left);
    }
}

/// The rest of a level ends within the tokens.
pub proof fn lemma_chain_bounds(ts: Seq<TokenModel>, at: int, level: Level, left: ExprModel)
    requires
        0 <= at <= ts.len(),
    ensures
        at <= chain(ts, at, level, left).end <= ts.len(),
    decreases ts.len() - at, 0nat,
{
    if at < ts.len() && level.operator(ts[at].token_type) is Some {
        lemma_level_bounds(ts, at + 1, level);
        let right = operand(ts, at + 1, level);
        if let Ok(tree) = right.result {
            let folded = ExprModel::Binary {
                operator: level.operator(ts[at].token_type)->0,
                left: Box::new(left),
                right: Box::new(tree),
            };
            lemma_chain_bounds(ts, right.end, level, folded);
        }
    }
}

} // verus!
