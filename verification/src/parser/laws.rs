//! What holds of the grammar: a tree that a parse gives is written by the
//! tokens of the parse and nests its operations by precedence, and the
//! tokens of such a tree are parsed to that tree and to no other.

use vstd::prelude::*;

use super::grammar::binary;
use super::grammar::chain;
use super::grammar::expression;
use super::grammar::lemma_level_bounds;
use super::grammar::lemma_primary_bounds;
use super::grammar::lemma_unary_bounds;
use super::grammar::operand;
use super::grammar::primary;
use super::grammar::unary;
use super::grammar::whole;
use super::grammar::Level;
use crate::expr::binary::BinaryOperator;
use crate::expr::expression::ExprModel;
use crate::expr::unary::UnaryOperator;
use crate::primitives::LiteralModel;
use crate::primitives::TokenType;
use crate::token::TokenModel;

verus! {

/// The token categories that write a tree, from left to right.
pub open spec fn spelling(tree: ExprModel) -> Seq<TokenType>
    decreases tree,
{
    match tree {
        ExprModel::Literal(literal) => seq![
            match literal {
                LiteralModel::Null => TokenType::Nil,
                LiteralModel::String(_) => TokenType::String,
                LiteralModel::Number(_) => TokenType::Number,
                LiteralModel::False => TokenType::False,
                LiteralModel::True => TokenType::True,
            },
        ],
        ExprModel::Grouping(inner) => seq![TokenType::LeftParenthesis] + spelling(*inner)
            + seq![TokenType::RightParenthesis],
        ExprModel::Unary { operator, right } => seq![operator.token_type()] + spelling(*right),
        ExprModel::Binary { operator, left, right } => spelling(*left) + seq![
            operator.token_type(),
        ] + spelling(*right),
    }
}

/// The categories of a sequence of tokens.
pub open spec fn kinds(ts: Seq<TokenModel>) -> Seq<TokenType> {
    ts.map_values(|token: TokenModel| token.token_type)
}

/// Whether every number token carries a number and every string token a
/// string, as the tokens of a scanner do.
pub open spec fn literals_fit(ts: Seq<TokenModel>) -> bool {
    forall|i: int| 0 <= i < ts.len() ==> (#[trigger] ts[i]).literal_fits()
}

/// The tree that a parse gives is written by the tokens that the parse has
/// read, in their order: nothing is dropped, added or moved.
pub proof fn lemma_tree_spells_tokens(ts: Seq<TokenModel>, at: int)
    requires
        0 <= at <= ts.len(),
        literals_fit(ts),
    ensures
        expression(ts, at).result matches Ok(tree) ==> spelling(tree) == kinds(ts).subrange(
            at,
            expression(ts, at).end,
        ),
        whole(ts, at).result matches Ok(tree) ==> spelling(tree) == kinds(ts).subrange(
            at,
            ts.len() as int,
        ),
{
    lemma_level_spells(ts, at, Level::Equality);
    lemma_level_bounds(ts, at, Level::Equality);
}

/// A primary is written by the tokens that it takes.
proof fn lemma_primary_spells(ts: Seq<TokenModel>, at: int)
    requires
        0 <= at <= ts.len(),
        literals_fit(ts),
    ensures
        primary(ts, at).result matches Ok(tree) ==> spelling(tree) == kinds(ts).subrange(
            at,
            primary(ts, at).end,
        ),
    decreases ts.len() - at, 0nat,
{
    lemma_primary_bounds(ts, at);
    if at < ts.len() {
        let token = ts[at];
        assert(kinds(ts)[at] == token.token_type);
        if token.token_type == TokenType::LeftParenthesis {
            let inner = binary(ts, at + 1, Level::Equality);
            lemma_level_bounds(ts, at + 1, Level::Equality);
            lemma_level_spells(ts, at + 1, Level::Equality);
            if let Ok(tree) = primary(ts, at).result {
                let end = primary(ts, at).end;
                assert(kinds(ts)[inner.end] == TokenType::RightParenthesis);
                assert(kinds(ts).subrange(at, end) =~= seq![TokenType::LeftParenthesis] + kinds(
                    ts,
                ).subrange(at + 1, inner.end) + seq![TokenType::RightParenthesis]);
            }
        } else if let Ok(tree) = primary(ts, at).result {
            assert(kinds(ts).subrange(at, at + 1) =~= seq![token.token_type]);
        }
    }
}

/// A unary expression is written by the tokens that it takes.
proof fn lemma_unary_spells(ts: Seq<TokenModel>, at: int)
    requires
        0 <= at <= ts.len(),
        literals_fit(ts),
    ensures
        unary(ts, at).result matches Ok(tree) ==> spelling(tree) == kinds(ts).subrange(
            at,
            unary(ts, at).end,
        ),
    decreases ts.len() - at, 1nat,
{
    if at < ts.len() && UnaryOperator::of(ts[at].token_type) is Some {
        lemma_unary_bounds(ts, at + 1);
        lemma_unary_spells(ts, at + 1);
        let right = unary(ts, at + 1);
        if right.result is Ok {
            assert(kinds(ts)[at] == ts[at].token_type);
            assert(kinds(ts).subrange(at, right.end) =~= seq![ts[at].token_type] + kinds(
                ts,
            ).subrange(at + 1, right.end));
        }
    } else {
        lemma_primary_spells(ts, at);
    }
}

/// An expression of any level is written by the tokens that it takes.
proof fn lemma_level_spells(ts: Seq<TokenModel>, at: int, level: Level)
    requires
        0 <= at <= ts.len(),
        literals_fit(ts),
    ensures
        operand(ts, at, level).result matches Ok(tree) ==> spelling(tree) == kinds(ts).subrange(
            at,
            operand(ts, at, level).end,
        ),
        binary(ts, at, level).result matches Ok(tree) ==> spelling(tree) == kinds(ts).subrange(
            at,
            binary(ts, at, level).end,
        ),
    decreases ts.len() - at, 2 * level.rank() + 1,
{
    match level {
        Level::Equality => lemma_level_spells(ts, at, Level::Comparison),
        Level::Comparison => lemma_level_spells(ts, at, Level::Term),
        Level::Term => lemma_level_spells(ts, at, Level::Factor),
        Level::Factor => lemma_unary_spells(ts, at),
    }
    lemma_level_bounds(ts, at, level);
    let first = operand(ts, at, level);
    if let Ok(left) = first.result {
        lemma_chain_spells(ts, first.end, level, left, at);
    }
}

/// The rest of a level adds to its left operand the tokens that it takes.
proof fn lemma_chain_spells(
    ts: Seq<TokenModel>,
    at: int,
    level: Level,
    left: ExprModel,
    from: int,
)
    requires
        0 <= from <= at <= ts.len(),
        literals_fit(ts),
        spelling(left) == kinds(ts).subrange(from, at),
    ensures
        chain(ts, at, level, left).result matches Ok(tree) ==> spelling(tree) == kinds(
            ts,
        ).subrange(from, chain(ts, at, level, left).end),
    decreases ts.len() - at, 0nat,
{
    if at < ts.len() && level.operator(ts[at].token_type) is Some {
        lemma_level_bounds(ts, at + 1, level);
        lemma_level_spells(ts, at + 1, level);
        let right = operand(ts, at + 1, level);
        if let Ok(tree) = right.result {
            let operator = level.operator(ts[at].token_type)->0;
            let folded = ExprModel::Binary {
                operator,
                left: Box::new(left),
                right: Box::new(tree),
            };
            assert(kinds(ts)[at] == ts[at].token_type);
            assert(operator.token_type() == ts[at].token_type);
            assert(spelling(folded) =~= kinds(ts).subrange(from, right.end));
            lemma_chain_spells(ts, right.end, level, folded, from);
        }
    }
}

/// The level of an infix operator.
pub open spec fn level_of(operator: BinaryOperator) -> Level {
    match operator {
        BinaryOperator::BangEqual | BinaryOperator::EqualEqual => Level::Equality,
        BinaryOperator::Greater
        | BinaryOperator::GreaterEqual
        | BinaryOperator::Less
        | BinaryOperator::LessEqual => Level::Comparison,
        BinaryOperator::Minus | BinaryOperator::Plus => Level::Term,
        BinaryOperator::Division | BinaryOperator::Multiplication => Level::Factor,
    }
}

/// Whether a tree stands as it is, without parentheses around it, where the
/// grammar asks for an expression that binds at least as tightly as `rank`
/// says; rank zero asks for a unary expression.
///
/// An infix operation stands there if its operator binds that tightly, its
/// left operand stands at the operator's own level and its right operand at
/// the next tighter one. That is precedence, and association to the left.
pub open spec fn stands_at(tree: ExprModel, rank: nat) -> bool
    decreases tree,
{
    match tree {
        ExprModel::Literal(_) => true,
        ExprModel::Grouping(inner) => stands_at(*inner, Level::Equality.rank()),
        ExprModel::Unary { operator, right } => stands_at(*right, 0),
        ExprModel::Binary { operator, left, right } => {
            let own = level_of(operator).rank();
            own <= rank && stands_at(*left, own) && stands_at(*right, (own - 1) as nat)
        },
    }
}

/// A tree that stands at a level stands at every looser one.
proof fn lemma_stands_looser(tree: ExprModel, rank: nat, looser: nat)
    requires
        stands_at(tree, rank),
        rank <= looser,
    ensures
        stands_at(tree, looser),
{
}

/// The tree that a parse gives holds an infix operation as an operand of
/// another only where precedence and association to the left put it:
/// everything else stands in a grouping.
pub proof fn lemma_tree_follows_precedence(ts: Seq<TokenModel>, at: int)
    requires
        0 <= at <= ts.len(),
    ensures
        expression(ts, at).result matches Ok(tree) ==> stands_at(tree, Level::Equality.rank()),
        whole(ts, at).result matches Ok(tree) ==> stands_at(tree, Level::Equality.rank()),
{
    lemma_level_stands(ts, at, Level::Equality);
}

/// A primary stands wherever an expression is asked for.
proof fn lemma_primary_stands(ts: Seq<TokenModel>, at: int)
    requires
        0 <= at <= ts.len(),
    ensures
        primary(ts, at).result matches Ok(tree) ==> stands_at(tree, 0),
    decreases ts.len() - at, 0nat,
{
    if at < ts.len() && ts[at].token_type == TokenType::LeftParenthesis {
        lemma_level_stands(ts, at + 1, Level::Equality);
    }
}

/// A unary expression stands wherever an expression is asked for.
proof fn lemma_unary_stands(ts: Seq<TokenModel>, at: int)
    requires
        0 <= at <= ts.len(),
    ensures
        unary(ts, at).result matches Ok(tree) ==> stands_at(tree, 0),
    decreases ts.len() - at, 1nat,
{
    if at < ts.len() && UnaryOperator::of(ts[at].token_type) is Some {
        lemma_unary_stands(ts, at + 1);
    } else {
        lemma_primary_stands(ts, at);
    }
}

/// An expression of a level stands at that level, and its operands at the
/// next tighter one.
proof fn lemma_level_stands(ts: Seq<TokenModel>, at: int, level: Level)
    requires
        0 <= at <= ts.len(),
    ensures
        operand(ts, at, level).result matches Ok(tree) ==> stands_at(
            tree,
            (level.rank() - 1) as nat,
        ),
        binary(ts, at, level).result matches Ok(tree) ==> stands_at(tree, level.rank()),
    decreases ts.len() - at, 2 * level.rank() + 1,
{
    match level {
        Level::Equality => lemma_level_stands(ts, at, Level::Comparison),
        Level::Comparison => lemma_level_stands(ts, at, Level::Term),
        Level::Term => lemma_level_stands(ts, at, Level::Factor),
        Level::Factor => lemma_unary_stands(ts, at),
    }
    lemma_level_bounds(ts, at, level);
    let first = operand(ts, at, level);
    if let Ok(left) = first.result {
        lemma_stands_looser(left, (level.rank() - 1) as nat, level.rank());
        lemma_chain_stands(ts, first.end, level, left);
    }
}

/// The rest of a level keeps a tree at the level.
proof fn lemma_chain_stands(ts: Seq<TokenModel>, at: int, level: Level, left: ExprModel)
    requires
        0 <= at <= ts.len(),
        stands_at(left, level.rank()),
    ensures
        chain(ts, at, level, left).result matches Ok(tree) ==> stands_at(tree, level.rank()),
    decreases ts.len() - at, 0nat,
{
    if at < ts.len() && level.operator(ts[at].token_type) is Some {
        lemma_level_bounds(ts, at + 1, level);
        lemma_level_stands(ts, at + 1, level);
        let right = operand(ts, at + 1, level);
        if let Ok(tree) = right.result {
            let operator = level.operator(ts[at].token_type)->0;
            let folded = ExprModel::Binary {
                operator,
                left: Box::new(left),
                right: Box::new(tree),
            };
            assert(level.types().contains(ts[at].token_type));
            assert(level_of(operator) == level);
            lemma_chain_stands(ts, right.end, level, folded);
        }
    }
}

/// The tree without what its literals hold.
pub open spec fn shape(tree: ExprModel) -> ExprModel
    decreases tree,
{
    match tree {
        ExprModel::Literal(literal) => ExprModel::Literal(
            match literal {
                LiteralModel::String(_) => LiteralModel::String(Seq::empty()),
                LiteralModel::Number(_) => LiteralModel::Number(Seq::empty()),
                other => other,
            },
        ),
        ExprModel::Grouping(inner) => ExprModel::Grouping(Box::new(shape(*inner))),
        ExprModel::Unary { operator, right } => ExprModel::Unary {
            operator,
            right: Box::new(shape(*right)),
        },
        ExprModel::Binary { operator, left, right } => ExprModel::Binary {
            operator,
            left: Box::new(shape(*left)),
            right: Box::new(shape(*right)),
        },
    }
}

/// How tightly a token category binds as an infix operator: the rank of its
/// level, or more than every rank where it is none.
pub open spec fn binding(token_type: TokenType) -> nat {
    match token_type {
        TokenType::BangEqual | TokenType::EqualEqual => 4,
        TokenType::Greater
        | TokenType::GreaterEqual
        | TokenType::Less
        | TokenType::LessEqual => 3,
        TokenType::Minus | TokenType::Plus => 2,
        TokenType::Slash | TokenType::Asterisk => 1,
        _ => 5,
    }
}

/// Whether an expression that binds as tightly as `rank` says ends at
/// offset `at`: no token follows, or none that goes on with it.
pub open spec fn ends(ts: Seq<TokenModel>, at: int, rank: nat) -> bool {
    at < 0 || at >= ts.len() || binding(ts[at].token_type) > rank
}

/// The operators of a level are the token categories that bind as the level
/// does, and each operator is the operator of its own category and level.
proof fn lemma_operators(level: Level, token_type: TokenType)
    ensures
        level.operator(token_type) is Some <==> binding(token_type) == level.rank(),
        level.operator(token_type) matches Some(operator) ==> operator.token_type() == token_type
            && level_of(operator) == level,
{
    let types = level.types();
    if binding(token_type) == level.rank() {
        match level {
            Level::Comparison => {
                if token_type == TokenType::Greater {
                    assert(types[0] == token_type);
                } else if token_type == TokenType::GreaterEqual {
                    assert(types[1] == token_type);
                } else if token_type == TokenType::Less {
                    assert(types[2] == token_type);
                } else {
                    assert(types[3] == token_type);
                }
            },
            _ => {
                if token_type == types[0] {
                    assert(types[0] == token_type);
                } else {
                    assert(types[1] == token_type);
                }
            },
        }
    }
}

/// Every operator is the operator of its own category at its own level.
proof fn lemma_own_operator(operator: BinaryOperator)
    ensures
        level_of(operator).operator(operator.token_type()) == Some(operator),
        binding(operator.token_type()) == level_of(operator).rank(),
        1 <= level_of(operator).rank() <= 4,
{
    lemma_operators(level_of(operator), operator.token_type());
}

/// The spelling of a tree is not empty.
proof fn lemma_spelling_is_not_empty(tree: ExprModel)
    ensures
        spelling(tree).len() >= 1,
    decreases tree,
{
    match tree {
        ExprModel::Binary { operator, left, right } => {
            lemma_spelling_is_not_empty(*left);
        },
        _ => {},
    }
}

/// The tokens that spell a unary expression are parsed to it.
proof fn lemma_unary_found(ts: Seq<TokenModel>, tree: ExprModel, at: int, end: int) -> (found:
    ExprModel)
    requires
        0 <= at <= end <= ts.len(),
        literals_fit(ts),
        stands_at(tree, 0),
        spelling(tree) == kinds(ts).subrange(at, end),
    ensures
        unary(ts, at).result == Ok::<ExprModel, super::ErrorModel>(found),
        unary(ts, at).end == end,
        shape(found) == shape(tree),
    decreases tree, 0nat, 0nat,
{
    let here = kinds(ts).subrange(at, end);
    lemma_spelling_is_not_empty(tree);
    assert(here[0] == ts[at].token_type);
    match tree {
        ExprModel::Literal(literal) => {
            assert(ts[at].literal_fits());
            assert(spelling(tree).len() == 1);
            assert(end == at + 1);
            assert(spelling(tree)[0] == ts[at].token_type);
            let found = ExprModel::Literal(
                match literal {
                    LiteralModel::Number(_) | LiteralModel::String(_) => ts[at].literal,
                    _ => literal,
                },
            );
            assert(primary(ts, at).result == Ok::<ExprModel, super::ErrorModel>(found));
            assert(unary(ts, at) == primary(ts, at));
            found
        },
        ExprModel::Grouping(inner) => {
            let within = spelling(*inner);
            assert(here.len() == within.len() + 2);
            assert(here[end - at - 1] == TokenType::RightParenthesis) by {
                assert(spelling(tree)[within.len() as int + 1] == TokenType::RightParenthesis);
            }
            assert(kinds(ts)[end - 1] == ts[end - 1].token_type);
            assert(within =~= kinds(ts).subrange(at + 1, end - 1)) by {
                assert forall|i: int| 0 <= i < within.len() implies within[i] == kinds(
                    ts,
                ).subrange(at + 1, end - 1)[i] by {
                    assert(spelling(tree)[i + 1] == within[i]);
                    assert(here[i + 1] == kinds(ts)[at + 1 + i]);
                }
            }
            let inside = lemma_level_found(ts, *inner, Level::Equality, at + 1, end - 1);
            ExprModel::Grouping(Box::new(inside))
        },
        ExprModel::Unary { operator, right } => {
            let behind = spelling(*right);
            assert(here[0] == operator.token_type());
            assert(behind =~= kinds(ts).subrange(at + 1, end)) by {
                assert forall|i: int| 0 <= i < behind.len() implies behind[i] == kinds(
                    ts,
                ).subrange(at + 1, end)[i] by {
                    assert(spelling(tree)[i + 1] == behind[i]);
                    assert(here[i + 1] == kinds(ts)[at + 1 + i]);
                }
            }
            let operand = lemma_unary_found(ts, *right, at + 1, end);
            ExprModel::Unary { operator, right: Box::new(operand) }
        },
        ExprModel::Binary { operator, left, right } => {
            lemma_own_operator(operator);
            tree
        },
    }
}

/// The tokens that spell an operand of a level are parsed to it, where no
/// tighter operator follows them.
proof fn lemma_operand_found(
    ts: Seq<TokenModel>,
    tree: ExprModel,
    level: Level,
    at: int,
    end: int,
) -> (found: ExprModel)
    requires
        0 <= at <= end <= ts.len(),
        literals_fit(ts),
        stands_at(tree, (level.rank() - 1) as nat),
        spelling(tree) == kinds(ts).subrange(at, end),
        ends(ts, end, (level.rank() - 1) as nat),
    ensures
        operand(ts, at, level).result == Ok::<ExprModel, super::ErrorModel>(found),
        operand(ts, at, level).end == end,
        shape(found) == shape(tree),
    decreases tree, level.rank(), 0nat,
{
    match level {
        Level::Equality => lemma_level_found(ts, tree, Level::Comparison, at, end),
        Level::Comparison => lemma_level_found(ts, tree, Level::Term, at, end),
        Level::Term => lemma_level_found(ts, tree, Level::Factor, at, end),
        Level::Factor => lemma_unary_found(ts, tree, at, end),
    }
}

/// The tokens that spell a tree of a level lead the parse of that level to
/// the point where the tree is the left operand and the rest of the level
/// goes on behind it.
proof fn lemma_spine_found(
    ts: Seq<TokenModel>,
    tree: ExprModel,
    level: Level,
    at: int,
    end: int,
) -> (found: ExprModel)
    requires
        0 <= at <= end <= ts.len(),
        literals_fit(ts),
        stands_at(tree, level.rank()),
        spelling(tree) == kinds(ts).subrange(at, end),
        ends(ts, end, (level.rank() - 1) as nat),
    ensures
        operand(ts, at, level).result is Ok,
        at < operand(ts, at, level).end <= end,
        chain(ts, operand(ts, at, level).end, level, operand(ts, at, level).result->Ok_0) == chain(
            ts,
            end,
            level,
            found,
        ),
        shape(found) == shape(tree),
    decreases tree, level.rank(), 1nat,
{
    lemma_level_bounds(ts, at, level);
    lemma_spelling_is_not_empty(tree);
    match tree {
        ExprModel::Binary { operator, left, right } => {
            lemma_own_operator(operator);
            if level_of(operator) == level {
                let here = kinds(ts).subrange(at, end);
                let before = spelling(*left);
                let behind = spelling(*right);
                let middle = at + before.len();
                lemma_spelling_is_not_empty(*left);
                lemma_spelling_is_not_empty(*right);
                assert(here.len() == before.len() + 1 + behind.len());
                assert(kinds(ts)[middle] == operator.token_type()) by {
                    assert(spelling(tree)[before.len() as int] == operator.token_type());
                    assert(here[before.len() as int] == kinds(ts)[middle]);
                }
                assert(kinds(ts)[middle] == ts[middle].token_type);
                assert(before =~= kinds(ts).subrange(at, middle)) by {
                    assert forall|i: int| 0 <= i < before.len() implies before[i] == kinds(
                        ts,
                    ).subrange(at, middle)[i] by {
                        assert(spelling(tree)[i] == before[i]);
                        assert(here[i] == kinds(ts)[at + i]);
                    }
                }
                assert(behind =~= kinds(ts).subrange(middle + 1, end)) by {
                    assert forall|i: int| 0 <= i < behind.len() implies behind[i] == kinds(
                        ts,
                    ).subrange(middle + 1, end)[i] by {
                        assert(spelling(tree)[before.len() as int + 1 + i] == behind[i]);
                        assert(here[before.len() as int + 1 + i] == kinds(ts)[middle + 1 + i]);
                    }
                }
                let first = lemma_spine_found(ts, *left, level, at, middle);
                let second = lemma_operand_found(ts, *right, level, middle + 1, end);
                lemma_operators(level, ts[middle].token_type);
                let folded = ExprModel::Binary {
                    operator,
                    left: Box::new(first),
                    right: Box::new(second),
                };
                assert(chain(ts, middle, level, first) == chain(ts, end, level, folded));
                folded
            } else {
                lemma_operand_found(ts, tree, level, at, end)
            }
        },
        _ => lemma_operand_found(ts, tree, level, at, end),
    }
}

/// The tokens that spell a tree of a level are parsed to it, where no
/// operator of the level or of a tighter one follows them.
proof fn lemma_level_found(
    ts: Seq<TokenModel>,
    tree: ExprModel,
    level: Level,
    at: int,
    end: int,
) -> (found: ExprModel)
    requires
        0 <= at <= end <= ts.len(),
        literals_fit(ts),
        stands_at(tree, level.rank()),
        spelling(tree) == kinds(ts).subrange(at, end),
        ends(ts, end, level.rank()),
    ensures
        binary(ts, at, level).result == Ok::<ExprModel, super::ErrorModel>(found),
        binary(ts, at, level).end == end,
        shape(found) == shape(tree),
    decreases tree, level.rank(), 2nat,
{
    let found = lemma_spine_found(ts, tree, level, at, end);
    if end < ts.len() {
        lemma_operators(level, ts[end].token_type);
    }
    found
}

/// The grammar is unambiguous: the tokens that spell a tree in which the
/// operations nest by precedence are parsed to that tree, whatever its
/// literals hold. With the two laws above, a parse gives a tree exactly for
/// the token sequences that spell one, and the tree is the only one that
/// they spell.
pub proof fn lemma_spelled_tree_is_found(ts: Seq<TokenModel>, tree: ExprModel)
    requires
        literals_fit(ts),
        stands_at(tree, Level::Equality.rank()),
        spelling(tree) == kinds(ts),
    ensures
        whole(ts, 0).result matches Ok(found) && shape(found) == shape(tree),
{
    assert(kinds(ts) =~= kinds(ts).subrange(0, ts.len() as int));
    let found = lemma_level_found(ts, tree, Level::Equality, 0, ts.len() as int);
}

} // verus!
