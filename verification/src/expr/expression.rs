//! Expression trees and their prefix notation.

use vstd::prelude::*;
use vstd::string::*;

use super::binary::BinaryOperator;
use super::unary::UnaryOperator;
use crate::primitives::Literal;
use crate::primitives::LiteralModel;

verus! {

/// An expression: a tree in which every node owns its operands.
#[derive(Debug, PartialEq, Eq)]
#[allow(inconsistent_fields)]
pub enum Expr {
    Literal(Literal),
    Unary { operator: UnaryOperator, right: Box<Expr> },
    Binary { operator: BinaryOperator, left: Box<Expr>, right: Box<Expr> },
    Grouping(Box<Expr>),
}

/// What an [`Expr`] holds, as mathematical values.
#[allow(inconsistent_fields)]
pub enum ExprModel {
    Literal(LiteralModel),
    Unary { operator: UnaryOperator, right: Box<ExprModel> },
    Binary { operator: BinaryOperator, left: Box<ExprModel>, right: Box<ExprModel> },
    Grouping(Box<ExprModel>),
}

impl Expr {
    /// The tree with every literal taken by its view.
    pub open spec fn model(&self) -> ExprModel
        decreases self,
    {
        match self {
            Expr::Literal(literal) => ExprModel::Literal(literal@),
            Expr::Unary { operator, right } => ExprModel::Unary {
                operator: *operator,
                right: Box::new(right.model()),
            },
            Expr::Binary { operator, left, right } => ExprModel::Binary {
                operator: *operator,
                left: Box::new(left.model()),
                right: Box::new(right.model()),
            },
            Expr::Grouping(inner) => ExprModel::Grouping(Box::new(inner.model())),
        }
    }
}

impl View for Expr {
    type V = ExprModel;

    open spec fn view(&self) -> ExprModel {
        self.model()
    }
}

impl ExprModel {
    /// The prefix notation of an expression: a literal as its own text or
    /// `nil`, a grouping as `(group e)`, an operation as its operator and
    /// operands between parentheses.
    pub open spec fn text(self) -> Seq<char>
        decreases self,
    {
        match self {
            ExprModel::Literal(literal) => match literal {
                LiteralModel::Null => "nil"@,
                _ => literal.text(),
            },
            ExprModel::Unary { operator, right } => "("@ + operator.sign() + " "@ + right.text()
                + ")"@,
            ExprModel::Binary { operator, left, right } => "("@ + operator.sign() + " "@
                + left.text() + " "@ + right.text() + ")"@,
            ExprModel::Grouping(inner) => "(group "@ + inner.text() + ")"@,
        }
    }
}

impl Expr {
    /// Appends the prefix notation of the expression to `out`.
    pub fn write(&self, out: &mut String)
        ensures
            final(out)@ == old(out)@ + self@.text(),
        decreases self,
    {
        match self {
            Expr::Literal(literal) => match literal {
                Literal::Null => {
                    out.append("nil");
                },
                _ => {
                    let text = literal.render();
                    out.append(text.as_str());
                },
            },
            Expr::Unary { operator, right } => {
                out.append("(");
                out.append(operator.symbol());
                out.append(" ");
                right.write(out);
                out.append(")");
                assert(final(out)@ == old(out)@ + self@.text());
            },
            Expr::Binary { operator, left, right } => {
                out.append("(");
                out.append(operator.symbol());
                out.append(" ");
                left.write(out);
                out.append(" ");
                right.write(out);
                out.append(")");
                assert(final(out)@ == old(out)@ + self@.text());
            },
            Expr::Grouping(inner) => {
                out.append("(group ");
                inner.write(out);
                out.append(")");
                assert(final(out)@ == old(out)@ + self@.text());
            },
        }
    }

    /// Returns the prefix notation of the expression.
    pub fn render(&self) -> (text: String)
        ensures
            text@ == self@.text(),
    {
        let mut text = String::new();
        self.write(&mut text);
        text
    }
}

} // verus!
