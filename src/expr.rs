//! The expression tree: a closed sum type, pure data. Behaviour over it is
//! written as exhaustive matches in visitors.

use vstd::prelude::*;
use crate::token::{AnnotatedToken, TokenModel};

verus! {

/// A parsed expression. Each node owns its children.
#[derive(Debug)]
pub enum Expr {
    Binary { left: Box<Expr>, operator: AnnotatedToken, right: Box<Expr> },
    Grouping(Box<Expr>),
    Nil,
    /// A numeric literal, held as its exact decimal lexeme.
    LiteralNumber(String),
    /// A string literal, quotation marks included.
    LiteralString(String),
    LiteralBool(bool),
    Unary { operator: AnnotatedToken, right: Box<Expr> },
}

/// The mathematical content of an expression tree.
pub enum ExprModel {
    Binary { left: Box<ExprModel>, operator: TokenModel, right: Box<ExprModel> },
    Grouping(Box<ExprModel>),
    Nil,
    LiteralNumber(Seq<char>),
    LiteralString(Seq<char>),
    LiteralBool(bool),
    Unary { operator: TokenModel, right: Box<ExprModel> },
}

impl Expr {
    pub open spec fn model(&self) -> ExprModel
        decreases self,
    {
        match self {
            Expr::Binary { left, operator, right } => ExprModel::Binary {
                left: Box::new(left.model()),
                operator: operator.model(),
                right: Box::new(right.model()),
            },
            Expr::Grouping(inner) => ExprModel::Grouping(Box::new(inner.model())),
            Expr::Nil => ExprModel::Nil,
            Expr::LiteralNumber(n) => ExprModel::LiteralNumber(n@),
            Expr::LiteralString(s) => ExprModel::LiteralString(s@),
            Expr::LiteralBool(b) => ExprModel::LiteralBool(*b),
            Expr::Unary { operator, right } => ExprModel::Unary {
                operator: operator.model(),
                right: Box::new(right.model()),
            },
        }
    }
}

/// A traversal that produces one result per expression, recursing into the
/// children itself.
pub trait Visitor {
    type Result;

    fn visit_expr(&mut self, expr: &Expr) -> Self::Result;
}

} // verus!
