//! The reverse-polish printer: operands first, then the operator.
//!
//! Postfix has no way to mark a group or a prefix operator: a group keeps its
//! parentheses, and a unary expression renders its operand followed by the
//! name of the operator token.

use vstd::prelude::*;
use crate::ast_print::{
    bool_text, bool_to_string, number_text, number_to_string, token_text, token_to_string,
};
use crate::expr::{Expr, ExprModel, Visitor};
use crate::token::{Token, TokenKind};

verus! {

/// The name of a token kind, as it is written in the token type.
pub open spec fn kind_name(k: TokenKind) -> Seq<char> {
    match k {
        TokenKind::LeftParen => "LeftParen"@,
        TokenKind::RightParen => "RightParen"@,
        TokenKind::LeftBrace => "LeftBrace"@,
        TokenKind::RightBrace => "RightBrace"@,
        TokenKind::Comma => "Comma"@,
        TokenKind::Dot => "Dot"@,
        TokenKind::Minus => "Minus"@,
        TokenKind::Plus => "Plus"@,
        TokenKind::Semicolon => "Semicolon"@,
        TokenKind::Slash => "Slash"@,
        TokenKind::Star => "Star"@,
        TokenKind::Bang => "Bang"@,
        TokenKind::BangEqual => "BangEqual"@,
        TokenKind::Equal => "Equal"@,
        TokenKind::EqualEqual => "EqualEqual"@,
        TokenKind::Greater => "Greater"@,
        TokenKind::GreaterEqual => "GreaterEqual"@,
        TokenKind::Less => "Less"@,
        TokenKind::LessEqual => "LessEqual"@,
        TokenKind::And => "And"@,
        TokenKind::Class => "Class"@,
        TokenKind::Else => "Else"@,
        TokenKind::False => "False"@,
        TokenKind::Fun => "Fun"@,
        TokenKind::For => "For"@,
        TokenKind::If => "If"@,
        TokenKind::Nil => "Nil"@,
        TokenKind::Or => "Or"@,
        TokenKind::Print => "Print"@,
        TokenKind::Return => "Return"@,
        TokenKind::Super => "Super"@,
        TokenKind::This => "This"@,
        TokenKind::True => "True"@,
        TokenKind::Var => "Var"@,
        TokenKind::While => "While"@,
        TokenKind::Identifier => "Identifier"@,
        TokenKind::String => "String"@,
        TokenKind::Number => "Number"@,
        TokenKind::EOF => "EOF"@,
    }
}

/// The postfix rendering: `left right op` for a binary expression.
pub open spec fn rpn_text(e: ExprModel) -> Seq<char>
    decreases e,
{
    match e {
        ExprModel::Binary { left, operator, right } => rpn_text(*left) + " "@ + rpn_text(*right) + " "@
            + token_text(operator),
        ExprModel::Grouping(inner) => "("@ + rpn_text(*inner) + ")"@,
        ExprModel::Unary { operator, right } => rpn_text(*right) + " "@ + kind_name(operator.kind),
        ExprModel::LiteralNumber(n) => number_text(n),
        ExprModel::LiteralString(s) => s,
        ExprModel::LiteralBool(b) => bool_text(b),
        ExprModel::Nil => "nil"@,
    }
}

/// The name of the token's kind.
fn kind_name_of(t: &Token) -> (r: String)
    ensures
        r@ == kind_name(t.kind()),
{
    match t {
        Token::LeftParen => String::from_str("LeftParen"),
        Token::RightParen => String::from_str("RightParen"),
        Token::LeftBrace => String::from_str("LeftBrace"),
        Token::RightBrace => String::from_str("RightBrace"),
        Token::Comma => String::from_str("Comma"),
        Token::Dot => String::from_str("Dot"),
        Token::Minus => String::from_str("Minus"),
        Token::Plus => String::from_str("Plus"),
        Token::Semicolon => String::from_str("Semicolon"),
        Token::Slash => String::from_str("Slash"),
        Token::Star => String::from_str("Star"),
        Token::Bang => String::from_str("Bang"),
        Token::BangEqual => String::from_str("BangEqual"),
        Token::Equal => String::from_str("Equal"),
        Token::EqualEqual => String::from_str("EqualEqual"),
        Token::Greater => String::from_str("Greater"),
        Token::GreaterEqual => String::from_str("GreaterEqual"),
        Token::Less => String::from_str("Less"),
        Token::LessEqual => String::from_str("LessEqual"),
        Token::And => String::from_str("And"),
        Token::Class => String::from_str("Class"),
        Token::Else => String::from_str("Else"),
        Token::False => String::from_str("False"),
        Token::Fun => String::from_str("Fun"),
        Token::For => String::from_str("For"),
        Token::If => String::from_str("If"),
        Token::Nil => String::from_str("Nil"),
        Token::Or => String::from_str("Or"),
        Token::Print => String::from_str("Print"),
        Token::Return => String::from_str("Return"),
        Token::Super => String::from_str("Super"),
        Token::This => String::from_str("This"),
        Token::True => String::from_str("True"),
        Token::Var => String::from_str("Var"),
        Token::While => String::from_str("While"),
        Token::Identifier { .. } => String::from_str("Identifier"),
        Token::String { .. } => String::from_str("String"),
        Token::Number { .. } => String::from_str("Number"),
        Token::EOF => String::from_str("EOF"),
    }
}

/// Renders a tree in reverse-polish notation.
pub struct RPNPrinter;

impl RPNPrinter {
    /// The postfix rendering of `expr`.
    pub fn print(&self, expr: &Expr) -> (r: String)
        ensures
            r@ == rpn_text(expr.model()),
        decreases expr,
    {
        match expr {
            Expr::Binary { left, operator, right } => {
                let mut s = self.print(left);
                s.append(" ");
                s.append(self.print(right).as_str());
                s.append(" ");
                s.append(token_to_string(operator).as_str());
                s
            },
            Expr::Grouping(inner) => {
                let mut s = String::from_str("(");
                s.append(self.print(inner).as_str());
                s.append(")");
                s
            },
            Expr::Unary { operator, right } => {
                let mut s = self.print(right);
                s.append(" ");
                s.append(kind_name_of(&operator.token).as_str());
                s
            },
            Expr::LiteralNumber(n) => number_to_string(n),
            Expr::LiteralString(s) => s.clone(),
            Expr::LiteralBool(b) => bool_to_string(*b),
            Expr::Nil => String::from_str("nil"),
        }
    }
}

impl Visitor for RPNPrinter {
    type Result = String;

    fn visit_expr(&mut self, expr: &Expr) -> (r: String)
        ensures
            r@ == rpn_text(expr.model()),
    {
        self.print(expr)
    }
}

} // verus!
