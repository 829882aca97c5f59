//! The recursive-descent parser: one function for each rule of the grammar.

use vstd::pervasive::unreached;
use vstd::prelude::*;

use super::grammar::binary;
use super::grammar::chain;
use super::grammar::expression;
use super::grammar::lemma_level_bounds;
use super::grammar::lemma_unary_bounds;
use super::grammar::operand;
use super::grammar::primary;
use super::grammar::trimmed;
use super::grammar::unary;
use super::grammar::whole;
use super::grammar::Level;
use super::Error;
use super::ErrorModel;
use crate::expr::binary::BinaryOperator;
use crate::expr::expression::Expr;
use crate::expr::expression::ExprModel;
use crate::expr::unary::UnaryOperator;
use crate::primitives::Literal;
use crate::primitives::TokenType;
use crate::token::models;
use crate::token::Token;
use crate::token::TokenModel;

verus! {

/// What a parse result holds, as mathematical values.
pub open spec fn result_view(result: core::result::Result<Expr, Error>) -> core::result::Result<
    ExprModel,
    ErrorModel,
> {
    match result {
        Ok(tree) => Ok(tree@),
        Err(error) => Err(error@),
    }
}

/// The views of a vector of tokens stand where the tokens stand.
proof fn lemma_models(tokens: Seq<Token<'_>>)
    ensures
        models(tokens).len() == tokens.len(),
        forall|i: int| 0 <= i < tokens.len() ==> (#[trigger] models(tokens)[i]) == tokens[i]@,
{
}

/// The categories in a list of two are those two.
proof fn lemma_two_types(types: Seq<TokenType>, a: TokenType, b: TokenType)
    requires
        types.len() == 2,
        types[0] == a,
        types[1] == b,
    ensures
        forall|t: TokenType| types.contains(t) <==> (t == a || t == b),
{
    assert forall|t: TokenType| (t == a || t == b) implies types.contains(t) by {
        if t == a {
            assert(types[0] == t);
        } else {
            assert(types[1] == t);
        }
    }
}

/// The categories in a list of four are those four.
proof fn lemma_four_types(
    types: Seq<TokenType>,
    a: TokenType,
    b: TokenType,
    c: TokenType,
    d: TokenType,
)
    requires
        types.len() == 4,
        types[0] == a,
        types[1] == b,
        types[2] == c,
        types[3] == d,
    ensures
        forall|t: TokenType| types.contains(t) <==> (t == a || t == b || t == c || t == d),
{
    assert forall|t: TokenType| (t == a || t == b || t == c || t == d) implies types.contains(
        t,
    ) by {
        if t == a {
            assert(types[0] == t);
        } else if t == b {
            assert(types[1] == t);
        } else if t == c {
            assert(types[2] == t);
        } else {
            assert(types[3] == t);
        }
    }
}

/// A recursive-descent parser over a sequence of tokens, of which it reads
/// one after the other from the front.
pub struct Parser<'a> {
    tokens: Vec<Token<'a>>,
    position: usize,
}

impl<'a> Parser<'a> {
    /// The tokens that the parser was made for.
    pub closed spec fn tokens(&self) -> Seq<TokenModel> {
        models(self.tokens@)
    }

    /// The number of tokens that have been read.
    pub closed spec fn cursor(&self) -> int {
        self.position as int
    }

    /// The invariant of a parser: the cursor lies within the tokens.
    pub closed spec fn wf(&self) -> bool {
        self.position <= self.tokens@.len()
    }

    /// Makes a parser for `tokens`, without the end-of-file token where it
    /// is the last of them.
    pub fn new(tokens: Vec<Token<'a>>) -> (parser: Self)
        ensures
            parser.wf(),
            parser.tokens() == trimmed(models(tokens@)),
            parser.cursor() == 0,
    {
        let mut tokens = tokens;
        let ghost given = tokens@;
        let n = tokens.len();
        if n > 0 && tokens[n - 1].token_type == TokenType::EndOfFile {
            tokens.pop();
            assert(models(tokens@) == models(given).drop_last());
        }
        Parser { tokens, position: 0 }
    }

    /// Parses one expression that takes every token.
    pub fn parse(&mut self) -> (result: core::result::Result<Expr, Error>)
        requires
            old(self).wf(),
        ensures
            final(self).wf(),
            final(self).tokens() == old(self).tokens(),
            result_view(result) == whole(old(self).tokens(), old(self).cursor()).result,
            final(self).cursor() == whole(old(self).tokens(), old(self).cursor()).end,
            result is Ok ==> final(self).cursor() == final(self).tokens().len(),
    {
        proof {
            lemma_level_bounds(self.tokens(), self.cursor(), Level::Equality);
        }
        let tree = match self.expression() {
            Ok(tree) => tree,
            Err(error) => {
                return Err(error);
            },
        };
        if self.position < self.tokens.len() {
            let token = &self.tokens[self.position];
            return Err(Error::UnexpectedToken { line: token.line, lexeme: token.lexeme.to_owned() });
        }
        Ok(tree)
    }

    /// Parses an expression of the loosest level.
    fn expression(&mut self) -> (result: core::result::Result<Expr, Error>)
        requires
            old(self).wf(),
        ensures
            final(self).wf(),
            final(self).tokens() == old(self).tokens(),
            result_view(result) == expression(old(self).tokens(), old(self).cursor()).result,
            final(self).cursor() == expression(old(self).tokens(), old(self).cursor()).end,
        decreases old(self).tokens@.len() - old(self).position, 10nat,
    {
        self.equality()
    }

    /// Parses comparisons joined by `!=` and `==`.
    fn equality(&mut self) -> (result: core::result::Result<Expr, Error>)
        requires
            old(self).wf(),
        ensures
            final(self).wf(),
            final(self).tokens() == old(self).tokens(),
            result_view(result) == binary(
                old(self).tokens(),
                old(self).cursor(),
                Level::Equality,
            ).result,
            final(self).cursor() == binary(
                old(self).tokens(),
                old(self).cursor(),
                Level::Equality,
            ).end,
        decreases old(self).tokens@.len() - old(self).position, 9nat,
    {
        let ghost ts = self.tokens();
        let ghost start = self.cursor();
        let ghost level = Level::Equality;
        proof {
            lemma_level_bounds(ts, start, Level::Comparison);
            lemma_two_types(level.types(), TokenType::BangEqual, TokenType::EqualEqual);
        }
        let mut expr = match self.comparison() {
            Ok(expr) => expr,
            Err(error) => {
                return Err(error);
            },
        };
        let mut more = self.matches_type(vec![TokenType::BangEqual, TokenType::EqualEqual]);
        while more
            invariant
                self.wf(),
                self.tokens() == ts,
                level == Level::Equality,
                start < self.cursor() <= ts.len(),
                start == old(self).position,
                ts.len() == old(self).tokens@.len(),
                ts.len() == self.tokens@.len(),
                ts == old(self).tokens(),
                chain(ts, self.cursor(), level, expr@) == binary(ts, start, level),
                more == (self.cursor() < ts.len() && level.types().contains(
                    ts[self.cursor()].token_type,
                )),
                forall|t: TokenType|
                    level.types().contains(t) <==> (t == TokenType::BangEqual || t
                        == TokenType::EqualEqual),
            decreases ts.len() - self.cursor(),
        {
            proof {
                lemma_models(self.tokens@);
            }
            let ghost left = expr@;
            let ghost at = self.cursor();
            let count = self.tokens.len();
            let token_type = self.tokens[self.position].token_type;
            self.position += 1;
            let operator = match BinaryOperator::try_from(token_type) {
                Ok(operator) => operator,
                Err(_) => unreached(),
            };
            proof {
                lemma_level_bounds(ts, self.cursor(), Level::Comparison);
            }
            assert(token_type == ts[at].token_type);
            assert(level.operator(token_type) == Some(operator));
            assert(operand(ts, at + 1, level) == binary(ts, at + 1, Level::Comparison));
            let right = match self.comparison() {
                Ok(right) => right,
                Err(error) => {
                    assert(chain(ts, at, level, left) == operand(ts, at + 1, level));
                    return Err(error);
                },
            };
            expr = Expr::Binary { operator, left: Box::new(expr), right: Box::new(right) };
            assert(chain(ts, at, level, left) == chain(ts, self.cursor(), level, expr@));
            more = self.matches_type(vec![TokenType::BangEqual, TokenType::EqualEqual]);
        }
        Ok(expr)
    }

    /// Parses terms joined by `>`, `>=`, `<` and `<=`.
    fn comparison(&mut self) -> (result: core::result::Result<Expr, Error>)
        requires
            old(self).wf(),
        ensures
            final(self).wf(),
            final(self).tokens() == old(self).tokens(),
            result_view(result) == binary(
                old(self).tokens(),
                old(self).cursor(),
                Level::Comparison,
            ).result,
            final(self).cursor() == binary(
                old(self).tokens(),
                old(self).cursor(),
                Level::Comparison,
            ).end,
        decreases old(self).tokens@.len() - old(self).position, 7nat,
    {
        let ghost ts = self.tokens();
        let ghost start = self.cursor();
        let ghost level = Level::Comparison;
        proof {
            lemma_level_bounds(ts, start, Level::Term);
            lemma_four_types(
                level.types(),
                TokenType::Greater,
                TokenType::GreaterEqual,
                TokenType::Less,
                TokenType::LessEqual,
            );
        }
        let mut expr = match self.term() {
            Ok(expr) => expr,
            Err(error) => {
                return Err(error);
            },
        };
        let mut more = self.matches_type(
            vec![
                TokenType::Greater,
                TokenType::GreaterEqual,
                TokenType::Less,
                TokenType::LessEqual,
            ],
        );
        while more
            invariant
                self.wf(),
                self.tokens() == ts,
                level == Level::Comparison,
                start < self.cursor() <= ts.len(),
                start == old(self).position,
                ts.len() == old(self).tokens@.len(),
                ts.len() == self.tokens@.len(),
                ts == old(self).tokens(),
                chain(ts, self.cursor(), level, expr@) == binary(ts, start, level),
                more == (self.cursor() < ts.len() && level.types().contains(
                    ts[self.cursor()].token_type,
                )),
                forall|t: TokenType|
                    level.types().contains(t) <==> (t == TokenType::Greater || t
                        == TokenType::GreaterEqual || t == TokenType::Less || t
                        == TokenType::LessEqual),
            decreases ts.len() - self.cursor(),
        {
            proof {
                lemma_models(self.tokens@);
            }
            let ghost left = expr@;
            let ghost at = self.cursor();
            let count = self.tokens.len();
            let token_type = self.tokens[self.position].token_type;
            self.position += 1;
            let operator = match BinaryOperator::try_from(token_type) {
                Ok(operator) => operator,
                Err(_) => unreached(),
            };
            proof {
                lemma_level_bounds(ts, self.cursor(), Level::Term);
            }
            assert(token_type == ts[at].token_type);
            assert(level.operator(token_type) == Some(operator));
            assert(operand(ts, at + 1, level) == binary(ts, at + 1, Level::Term));
            let right = match self.term() {
                Ok(right) => right,
                Err(error) => {
                    assert(chain(ts, at, level, left) == operand(ts, at + 1, level));
                    return Err(error);
                },
            };
            expr = Expr::Binary { operator, left: Box::new(expr), right: Box::new(right) };
            assert(chain(ts, at, level, left) == chain(ts, self.cursor(), level, expr@));
            more = self.matches_type(
                vec![
                    TokenType::Greater,
                    TokenType::GreaterEqual,
                    TokenType::Less,
                    TokenType::LessEqual,
                ],
            );
        }
        Ok(expr)
    }

    /// Parses factors joined by `-` and `+`.
    fn term(&mut self) -> (result: core::result::Result<Expr, Error>)
        requires
            old(self).wf(),
        ensures
            final(self).wf(),
            final(self).tokens() == old(self).tokens(),
            result_view(result) == binary(old(self).tokens(), old(self).cursor(), Level::Term).result,
            final(self).cursor() == binary(old(self).tokens(), old(self).cursor(), Level::Term).end,
        decreases old(self).tokens@.len() - old(self).position, 5nat,
    {
        let ghost ts = self.tokens();
        let ghost start = self.cursor();
        let ghost level = Level::Term;
        proof {
            lemma_level_bounds(ts, start, Level::Factor);
            lemma_two_types(level.types(), TokenType::Minus, TokenType::Plus);
        }
        let mut expr = match self.factor() {
            Ok(expr) => expr,
            Err(error) => {
                return Err(error);
            },
        };
        let mut more = self.matches_type(vec![TokenType::Minus, TokenType::Plus]);
        while more
            invariant
                self.wf(),
                self.tokens() == ts,
                level == Level::Term,
                start < self.cursor() <= ts.len(),
                start == old(self).position,
                ts.len() == old(self).tokens@.len(),
                ts.len() == self.tokens@.len(),
                ts == old(self).tokens(),
                chain(ts, self.cursor(), level, expr@) == binary(ts, start, level),
                more == (self.cursor() < ts.len() && level.types().contains(
                    ts[self.cursor()].token_type,
                )),
                forall|t: TokenType|
                    level.types().contains(t) <==> (t == TokenType::Minus || t == TokenType::Plus),
            decreases ts.len() - self.cursor(),
        {
            proof {
                lemma_models(self.tokens@);
            }
            let ghost left = expr@;
            let ghost at = self.cursor();
            let count = self.tokens.len();
            let token_type = self.tokens[self.position].token_type;
            self.position += 1;
            let operator = match BinaryOperator::try_from(token_type) {
                Ok(operator) => operator,
                Err(_) => unreached(),
            };
            proof {
                lemma_level_bounds(ts, self.cursor(), Level::Factor);
            }
            assert(token_type == ts[at].token_type);
            assert(level.operator(token_type) == Some(operator));
            assert(operand(ts, at + 1, level) == binary(ts, at + 1, Level::Factor));
            let right = match self.factor() {
                Ok(right) => right,
                Err(error) => {
                    assert(chain(ts, at, level, left) == operand(ts, at + 1, level));
                    return Err(error);
                },
            };
            expr = Expr::Binary { operator, left: Box::new(expr), right: Box::new(right) };
            assert(chain(ts, at, level, left) == chain(ts, self.cursor(), level, expr@));
            more = self.matches_type(vec![TokenType::Minus, TokenType::Plus]);
        }
        Ok(expr)
    }

    /// Parses unary expressions joined by `/` and `*`.
    fn factor(&mut self) -> (result: core::result::Result<Expr, Error>)
        requires
            old(self).wf(),
        ensures
            final(self).wf(),
            final(self).tokens() == old(self).tokens(),
            result_view(result) == binary(
                old(self).tokens(),
                old(self).cursor(),
                Level::Factor,
            ).result,
            final(self).cursor() == binary(
                old(self).tokens(),
                old(self).cursor(),
                Level::Factor,
            ).end,
        decreases old(self).tokens@.len() - old(self).position, 3nat,
    {
        let ghost ts = self.tokens();
        let ghost start = self.cursor();
        let ghost level = Level::Factor;
        proof {
            lemma_unary_bounds(ts, start);
            lemma_two_types(level.types(), TokenType::Slash, TokenType::Asterisk);
        }
        let mut expr = match self.unary() {
            Ok(expr) => expr,
            Err(error) => {
                return Err(error);
            },
        };
        let mut more = self.matches_type(vec![TokenType::Slash, TokenType::Asterisk]);
        while more
            invariant
                self.wf(),
                self.tokens() == ts,
                level == Level::Factor,
                start < self.cursor() <= ts.len(),
                start == old(self).position,
                ts.len() == old(self).tokens@.len(),
                ts.len() == self.tokens@.len(),
                ts == old(self).tokens(),
                chain(ts, self.cursor(), level, expr@) == binary(ts, start, level),
                more == (self.cursor() < ts.len() && level.types().contains(
                    ts[self.cursor()].token_type,
                )),
                forall|t: TokenType|
                    level.types().contains(t) <==> (t == TokenType::Slash || t
                        == TokenType::Asterisk),
            decreases ts.len() - self.cursor(),
        {
            proof {
                lemma_models(self.tokens@);
            }
            let ghost left = expr@;
            let ghost at = self.cursor();
            let count = self.tokens.len();
            let token_type = self.tokens[self.position].token_type;
            self.position += 1;
            let operator = match BinaryOperator::try_from(token_type) {
                Ok(operator) => operator,
                Err(_) => unreached(),
            };
            proof {
                lemma_unary_bounds(ts, self.cursor());
            }
            assert(token_type == ts[at].token_type);
            assert(level.operator(token_type) == Some(operator));
            assert(operand(ts, at + 1, level) == unary(ts, at + 1));
            let right = match self.unary() {
                Ok(right) => right,
                Err(error) => {
                    assert(chain(ts, at, level, left) == operand(ts, at + 1, level));
                    return Err(error);
                },
            };
            expr = Expr::Binary { operator, left: Box::new(expr), right: Box::new(right) };
            assert(chain(ts, at, level, left) == chain(ts, self.cursor(), level, expr@));
            more = self.matches_type(vec![TokenType::Slash, TokenType::Asterisk]);
        }
        Ok(expr)
    }

    /// Parses the prefix operators `!` and `-` and the primary behind them.
    fn unary(&mut self) -> (result: core::result::Result<Expr, Error>)
        requires
            old(self).wf(),
        ensures
            final(self).wf(),
            final(self).tokens() == old(self).tokens(),
            result_view(result) == unary(old(self).tokens(), old(self).cursor()).result,
            final(self).cursor() == unary(old(self).tokens(), old(self).cursor()).end,
        decreases old(self).tokens@.len() - old(self).position, 1nat,
    {
        proof {
            lemma_two_types(
                seq![TokenType::Bang, TokenType::Minus],
                TokenType::Bang,
                TokenType::Minus,
            );
        }
        if self.matches_type(vec![TokenType::Bang, TokenType::Minus]) {
            proof {
                lemma_models(self.tokens@);
            }
            let count = self.tokens.len();
            let token_type = self.tokens[self.position].token_type;
            self.position += 1;
            let operator = match UnaryOperator::try_from(token_type) {
                Ok(operator) => operator,
                Err(_) => unreached(),
            };
            let right = match self.unary() {
                Ok(right) => right,
                Err(error) => {
                    return Err(error);
                },
            };
            return Ok(Expr::Unary { operator, right: Box::new(right) });
        }
        self.primary()
    }

    /// Parses a literal or an expression between parentheses.
    fn primary(&mut self) -> (result: core::result::Result<Expr, Error>)
        requires
            old(self).wf(),
        ensures
            final(self).wf(),
            final(self).tokens() == old(self).tokens(),
            result_view(result) == primary(old(self).tokens(), old(self).cursor()).result,
            final(self).cursor() == primary(old(self).tokens(), old(self).cursor()).end,
        decreases old(self).tokens@.len() - old(self).position, 0nat,
    {
        if self.position >= self.tokens.len() {
            return Err(Error::MissingToken);
        }
        let ghost ts = self.tokens();
        let at = self.position;
        self.position += 1;
        let token_type = self.tokens[at].token_type;
        if token_type == TokenType::False {
            return Ok(Expr::Literal(Literal::False));
        }
        if token_type == TokenType::True {
            return Ok(Expr::Literal(Literal::True));
        }
        if token_type == TokenType::Nil {
            return Ok(Expr::Literal(Literal::Null));
        }
        if token_type == TokenType::Number || token_type == TokenType::String {
            return Ok(Expr::Literal(self.tokens[at].literal.copy()));
        }
        if token_type == TokenType::LeftParenthesis {
            proof {
                lemma_level_bounds(ts, at + 1, Level::Equality);
            }
            let expr = match self.expression() {
                Ok(expr) => expr,
                Err(error) => {
                    return Err(error);
                },
            };
            if self.position >= self.tokens.len() {
                return Err(Error::MissingToken);
            }
            let closing = self.position;
            self.position += 1;
            if self.tokens[closing].token_type != TokenType::RightParenthesis {
                return Err(
                    Error::UnexpectedToken {
                        line: self.tokens[closing].line,
                        lexeme: self.tokens[closing].lexeme.to_owned(),
                    },
                );
            }
            return Ok(Expr::Grouping(Box::new(expr)));
        }
        Err(
            Error::UnexpectedToken {
                line: self.tokens[at].line,
                lexeme: self.tokens[at].lexeme.to_owned(),
            },
        )
    }

    /// Whether the next token is of one of the given categories. The token
    /// is not read.
    fn matches_type(&self, types: Vec<TokenType>) -> (found: bool)
        requires
            self.wf(),
        ensures
            found == (self.cursor() < self.tokens().len() && types@.contains(
                self.tokens()[self.cursor()].token_type,
            )),
    {
        if self.position >= self.tokens.len() {
            return false;
        }
        let token_type = self.tokens[self.position].token_type;
        proof {
            lemma_models(self.tokens@);
        }
        let ghost wanted = self.tokens()[self.cursor()].token_type;
        let mut i: usize = 0;
        while i < types.len()
            invariant
                i <= types.len(),
                token_type == wanted,
                self.cursor() < self.tokens().len(),
                wanted == self.tokens()[self.cursor()].token_type,
                forall|j: int| 0 <= j < i ==> types@[j] != token_type,
            decreases types.len() - i,
        {
            if types[i] == token_type {
                assert(types@[i as int] == token_type);
                return true;
            }
            i += 1;
        }
        false
    }
}

} // verus!
