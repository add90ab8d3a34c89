//! The parser: tokens to one expression tree, by recursive descent with one
//! shared loop for the left-associative binary levels.
//!
//! Grammar, from the lowest precedence to the highest:
//!
//! ```text
//! expression → equality
//! equality   → comparison ( ( "!=" | "==" ) comparison )*
//! comparison → term ( ( ">" | ">=" | "<" | "<=" ) term )*
//! term       → factor ( ( "-" | "+" ) factor )*
//! factor     → unary ( ( "/" | "*" ) unary )*
//! unary      → ( "+" | "-" ) unary | primary
//! primary    → NUMBER | STRING | "true" | "false" | "nil" | "(" expression ")"
//! ```
//!
//! The binary levels are numbered 3 (equality) down to 0 (factor).

use vstd::prelude::*;
use crate::expr::{Expr, ExprModel};
use crate::token::{AnnotatedToken, Token, TokenKind, TokenModel, models};

verus! {

/// Why a parse failed.
#[derive(Clone, Copy, PartialEq, Eq, Structural, Debug)]
pub enum ParseError {
    /// A token that cannot start an expression stood where one was expected.
    UnexpectedToken { line_number: usize },
    /// A parenthesised expression was not followed by `)`.
    MissingClosingParen { line_number: usize },
    /// A token was needed past the end of the token list.
    UnexpectedEnd,
}

/// A parsed expression and the position after it, or the first error.
pub type Parsed = Result<(ExprModel, int), ParseError>;

/// The operators of binary level `level`.
pub open spec fn level_op(level: nat, k: TokenKind) -> bool {
    if level == 3 {
        k == TokenKind::BangEqual || k == TokenKind::EqualEqual
    } else if level == 2 {
        k == TokenKind::Greater || k == TokenKind::GreaterEqual || k == TokenKind::Less
            || k == TokenKind::LessEqual
    } else if level == 1 {
        k == TokenKind::Minus || k == TokenKind::Plus
    } else {
        k == TokenKind::Slash || k == TokenKind::Star
    }
}

/// `expression` at `pos`.
pub open spec fn parse_expression(ts: Seq<TokenModel>, pos: int) -> Parsed
    decreases ts.len() - pos, 11nat,
{
    parse_level(ts, pos, 3)
}

/// The operands of level `level`: the next level up, or `unary` above level 0.
pub open spec fn parse_operand(ts: Seq<TokenModel>, pos: int, level: nat) -> Parsed
    decreases ts.len() - pos, 2 * level + 3,
{
    if level == 0 {
        parse_unary(ts, pos)
    } else {
        parse_level(ts, pos, (level - 1) as nat)
    }
}

/// Binary level `level` at `pos`: one operand, then the loop of `parse_rest`.
pub open spec fn parse_level(ts: Seq<TokenModel>, pos: int, level: nat) -> Parsed
    decreases ts.len() - pos, 2 * level + 4,
{
    if level > 3 {
        Err(ParseError::UnexpectedEnd)
    } else {
        match parse_operand(ts, pos, level) {
            Err(e) => Err(e),
            Ok((left, p)) => if p <= pos || p > ts.len() {
                Err(ParseError::UnexpectedEnd)
            } else {
                parse_rest(ts, p, level, left)
            },
        }
    }
}

/// While the token at `p` is an operator of the level, consume it and an
/// operand, and fold a binary node with what was built so far on the left.
pub open spec fn parse_rest(ts: Seq<TokenModel>, p: int, level: nat, left: ExprModel) -> Parsed
    decreases ts.len() - p, 2 * level + 3,
{
    if p < 0 || p >= ts.len() {
        Err(ParseError::UnexpectedEnd)
    } else if !level_op(level, ts[p].kind) {
        Ok((left, p))
    } else {
        match parse_operand(ts, p + 1, level) {
            Err(e) => Err(e),
            Ok((right, q)) => if q <= p || q > ts.len() {
                Err(ParseError::UnexpectedEnd)
            } else {
                parse_rest(
                    ts,
                    q,
                    level,
                    ExprModel::Binary { left: Box::new(left), operator: ts[p], right: Box::new(right) },
                )
            },
        }
    }
}

/// `unary` at `pos`: prefix `+` and `-` nest to the right.
pub open spec fn parse_unary(ts: Seq<TokenModel>, pos: int) -> Parsed
    decreases ts.len() - pos, 1nat,
{
    if pos < 0 || pos >= ts.len() {
        Err(ParseError::UnexpectedEnd)
    } else if ts[pos].kind == TokenKind::Plus || ts[pos].kind == TokenKind::Minus {
        match parse_unary(ts, pos + 1) {
            Err(e) => Err(e),
            Ok((right, q)) => Ok((ExprModel::Unary { operator: ts[pos], right: Box::new(right) }, q)),
        }
    } else {
        parse_primary(ts, pos)
    }
}

/// `primary` at `pos`.
pub open spec fn parse_primary(ts: Seq<TokenModel>, pos: int) -> Parsed
    decreases ts.len() - pos, 0nat,
{
    if pos < 0 || pos >= ts.len() {
        Err(ParseError::UnexpectedEnd)
    } else {
        let t = ts[pos];
        match t.kind {
            TokenKind::False => Ok((ExprModel::LiteralBool(false), pos + 1)),
            TokenKind::True => Ok((ExprModel::LiteralBool(true), pos + 1)),
            TokenKind::Nil => Ok((ExprModel::Nil, pos + 1)),
            TokenKind::Number => Ok((ExprModel::LiteralNumber(t.text), pos + 1)),
            TokenKind::String => Ok((ExprModel::LiteralString(t.text), pos + 1)),
            TokenKind::LeftParen => match parse_expression(ts, pos + 1) {
                Err(e) => Err(e),
                Ok((inner, q)) => if q < 0 || q >= ts.len() {
                    Err(ParseError::UnexpectedEnd)
                } else if ts[q].kind != TokenKind::RightParen {
                    Err(ParseError::MissingClosingParen { line_number: ts[q].line as usize })
                } else {
                    Ok((ExprModel::Grouping(Box::new(inner)), q + 1))
                },
            },
            _ => Err(ParseError::UnexpectedToken { line_number: t.line as usize }),
        }
    }
}

/// Whether a parse from `pos` that succeeded ended after `pos`, within the
/// tokens.
pub open spec fn advances(r: Parsed, pos: int, len: int) -> bool {
    r is Ok ==> pos < (r->Ok_0).1 <= len
}

pub proof fn lemma_expression_advances(ts: Seq<TokenModel>, pos: int)
    ensures
        advances(parse_expression(ts, pos), pos, ts.len() as int),
    decreases ts.len() - pos, 11nat,
{
    lemma_level_advances(ts, pos, 3);
}

pub proof fn lemma_operand_advances(ts: Seq<TokenModel>, pos: int, level: nat)
    ensures
        advances(parse_operand(ts, pos, level), pos, ts.len() as int),
    decreases ts.len() - pos, 2 * level + 3,
{
    if level == 0 {
        lemma_unary_advances(ts, pos);
    } else {
        lemma_level_advances(ts, pos, (level - 1) as nat);
    }
}

pub proof fn lemma_level_advances(ts: Seq<TokenModel>, pos: int, level: nat)
    ensures
        advances(parse_level(ts, pos, level), pos, ts.len() as int),
    decreases ts.len() - pos, 2 * level + 4,
{
    if level <= 3 {
        lemma_operand_advances(ts, pos, level);
        if let Ok((left, p)) = parse_operand(ts, pos, level) {
            if pos < p <= ts.len() {
                lemma_rest_advances(ts, p, level, left);
            }
        }
    }
}

pub proof fn lemma_rest_advances(ts: Seq<TokenModel>, p: int, level: nat, left: ExprModel)
    ensures
        parse_rest(ts, p, level, left) is Ok ==> p <= (parse_rest(ts, p, level, left)->Ok_0).1 <= ts.len(),
    decreases ts.len() - p, 2 * level + 3,
{
    if 0 <= p < ts.len() && level_op(level, ts[p].kind) {
        lemma_operand_advances(ts, p + 1, level);
        if let Ok((right, q)) = parse_operand(ts, p + 1, level) {
            if p < q <= ts.len() {
                lemma_rest_advances(
                    ts,
                    q,
                    level,
                    ExprModel::Binary { left: Box::new(left), operator: ts[p], right: Box::new(right) },
                );
            }
        }
    }
}

pub proof fn lemma_unary_advances(ts: Seq<TokenModel>, pos: int)
    ensures
        advances(parse_unary(ts, pos), pos, ts.len() as int),
    decreases ts.len() - pos, 1nat,
{
    if 0 <= pos < ts.len() {
        if ts[pos].kind == TokenKind::Plus || ts[pos].kind == TokenKind::Minus {
            lemma_unary_advances(ts, pos + 1);
        } else {
            lemma_primary_advances(ts, pos);
        }
    }
}

pub proof fn lemma_primary_advances(ts: Seq<TokenModel>, pos: int)
    ensures
        advances(parse_primary(ts, pos), pos, ts.len() as int),
    decreases ts.len() - pos, 0nat,
{
    if 0 <= pos < ts.len() && ts[pos].kind == TokenKind::LeftParen {
        lemma_expression_advances(ts, pos + 1);
    }
}

/// Whether `t` is an operator of binary level `level`.
fn is_level_op(level: u8, t: &Token) -> (r: bool)
    ensures
        r == level_op(level as nat, t.kind()),
{
    if level == 3 {
        matches!(t, Token::BangEqual | Token::EqualEqual)
    } else if level == 2 {
        matches!(t, Token::Greater | Token::GreaterEqual | Token::Less | Token::LessEqual)
    } else if level == 1 {
        matches!(t, Token::Minus | Token::Plus)
    } else {
        matches!(t, Token::Slash | Token::Star)
    }
}

/// The result an executable parse step returns, against the model.
pub open spec fn parsed_as(r: Result<(Box<Expr>, usize), ParseError>, m: Parsed) -> bool {
    match m {
        Ok((e, q)) => r is Ok && (r->Ok_0).0.model() == e && (r->Ok_0).1 == q,
        Err(err) => r == Err::<(Box<Expr>, usize), ParseError>(err),
    }
}

/// Parses one expression from a token list, failing on the first malformed
/// construct.
pub struct Parser<'a> {
    tokens: &'a Vec<AnnotatedToken>,
    current_index: usize,
}

impl<'a> Parser<'a> {
    /// The models of the tokens being parsed.
    pub closed spec fn token_models(&self) -> Seq<TokenModel> {
        models(self.tokens@)
    }

    /// Where the next parse starts.
    pub closed spec fn position(&self) -> int {
        self.current_index as int
    }

    pub fn new(tokens: &'a Vec<AnnotatedToken>) -> (p: Parser<'a>)
        ensures
            p.token_models() == models(tokens@),
            p.position() == 0,
    {
        Parser { tokens, current_index: 0 }
    }

    /// Parses one expression at the current position. On success the
    /// position moves past it; on failure nothing is returned but the error.
    pub fn parse(&mut self) -> (r: Result<Box<Expr>, ParseError>)
        ensures
            final(self).token_models() == old(self).token_models(),
            match parse_expression(old(self).token_models(), old(self).position()) {
                Ok((e, q)) => r is Ok && (r->Ok_0).model() == e && final(self).position() == q,
                Err(err) => r == Err::<Box<Expr>, ParseError>(err) && final(self).position()
                    == old(self).position(),
            },
    {
        match self.expression(self.current_index) {
            Ok((e, q)) => {
                self.current_index = q;
                Ok(e)
            },
            Err(err) => Err(err),
        }
    }

    fn expression(&self, pos: usize) -> (r: Result<(Box<Expr>, usize), ParseError>)
        ensures
            parsed_as(r, parse_expression(self.token_models(), pos as int)),
        decreases self.tokens@.len() - pos, 22nat,
    {
        self.equality(pos)
    }

    fn equality(&self, pos: usize) -> (r: Result<(Box<Expr>, usize), ParseError>)
        ensures
            parsed_as(r, parse_level(self.token_models(), pos as int, 3)),
        decreases self.tokens@.len() - pos, 21nat,
    {
        self.left_associative(pos, 3)
    }

    fn comparison(&self, pos: usize) -> (r: Result<(Box<Expr>, usize), ParseError>)
        ensures
            parsed_as(r, parse_level(self.token_models(), pos as int, 2)),
        decreases self.tokens@.len() - pos, 17nat,
    {
        self.left_associative(pos, 2)
    }

    fn term(&self, pos: usize) -> (r: Result<(Box<Expr>, usize), ParseError>)
        ensures
            parsed_as(r, parse_level(self.token_models(), pos as int, 1)),
        decreases self.tokens@.len() - pos, 13nat,
    {
        self.left_associative(pos, 1)
    }

    fn factor(&self, pos: usize) -> (r: Result<(Box<Expr>, usize), ParseError>)
        ensures
            parsed_as(r, parse_level(self.token_models(), pos as int, 0)),
        decreases self.tokens@.len() - pos, 9nat,
    {
        self.left_associative(pos, 0)
    }

    /// The operand of binary level `level`.
    fn operand(&self, pos: usize, level: u8) -> (r: Result<(Box<Expr>, usize), ParseError>)
        requires
            level <= 3,
        ensures
            parsed_as(r, parse_operand(self.token_models(), pos as int, level as nat)),
        decreases self.tokens@.len() - pos, 4 * level + 6,
    {
        if level == 3 {
            self.comparison(pos)
        } else if level == 2 {
            self.term(pos)
        } else if level == 1 {
            self.factor(pos)
        } else {
            self.unary(pos)
        }
    }

    /// One operand, then, while the next token is an operator of the level,
    /// that operator and another operand, folded to the left.
    fn left_associative(&self, pos: usize, level: u8) -> (r: Result<(Box<Expr>, usize), ParseError>)
        requires
            level <= 3,
        ensures
            parsed_as(r, parse_level(self.token_models(), pos as int, level as nat)),
        decreases self.tokens@.len() - pos, 4 * level + 8,
    {
        let ghost ts = self.token_models();
        let ghost goal = parse_level(ts, pos as int, level as nat);
        proof {
            lemma_operand_advances(ts, pos as int, level as nat);
        }
        let (mut left, mut p) = match self.operand(pos, level) {
            Ok(x) => x,
            Err(e) => return Err(e),
        };
        loop
            invariant
                ts == self.token_models(),
                level <= 3,
                pos < p <= ts.len(),
                goal == parse_level(ts, pos as int, level as nat),
                parse_rest(ts, p as int, level as nat, left.model()) == goal,
            decreases ts.len() - p,
        {
            if p >= self.tokens.len() {
                return Err(ParseError::UnexpectedEnd);
            }
            assert(ts[p as int] == self.tokens@[p as int].model());
            if !is_level_op(level, &self.tokens[p].token) {
                return Ok((left, p));
            }
            let operator = self.tokens[p].duplicate();
            proof {
                lemma_operand_advances(ts, p + 1, level as nat);
            }
            match self.operand(p + 1, level) {
                Ok((right, q)) => {
                    left = Box::new(Expr::Binary { left, operator, right });
                    p = q;
                },
                Err(e) => return Err(e),
            }
        }
    }

    /// Prefix `+` and `-`, nesting to the right, then a primary.
    fn unary(&self, pos: usize) -> (r: Result<(Box<Expr>, usize), ParseError>)
        ensures
            parsed_as(r, parse_unary(self.token_models(), pos as int)),
        decreases self.tokens@.len() - pos, 1nat,
    {
        if pos >= self.tokens.len() {
            return Err(ParseError::UnexpectedEnd);
        }
        assert(self.token_models()[pos as int] == self.tokens@[pos as int].model());
        match &self.tokens[pos].token {
            Token::Plus | Token::Minus => {
                let operator = self.tokens[pos].duplicate();
                match self.unary(pos + 1) {
                    Ok((right, q)) => Ok((Box::new(Expr::Unary { operator, right }), q)),
                    Err(e) => Err(e),
                }
            },
            _ => self.primary(pos),
        }
    }

    fn primary(&self, pos: usize) -> (r: Result<(Box<Expr>, usize), ParseError>)
        ensures
            parsed_as(r, parse_primary(self.token_models(), pos as int)),
        decreases self.tokens@.len() - pos, 0nat,
    {
        let ghost ts = self.token_models();
        if pos >= self.tokens.len() {
            return Err(ParseError::UnexpectedEnd);
        }
        assert(ts[pos as int] == self.tokens@[pos as int].model());
        let t = match self.peek(pos) {
            Some(t) => t,
            None => return Err(ParseError::UnexpectedEnd),
        };
        let expr = match &t.token {
            Token::False => Box::new(Expr::LiteralBool(false)),
            Token::True => Box::new(Expr::LiteralBool(true)),
            Token::Nil => Box::new(Expr::Nil),
            Token::Number { lexeme } => Box::new(Expr::LiteralNumber(lexeme.clone())),
            Token::String { quoted_str } => Box::new(Expr::LiteralString(quoted_str.clone())),
            Token::LeftParen => {
                proof {
                    lemma_expression_advances(ts, pos + 1);
                }
                let (inner, q) = match self.expression(pos + 1) {
                    Ok(x) => x,
                    Err(e) => return Err(e),
                };
                if q >= self.tokens.len() {
                    return Err(ParseError::UnexpectedEnd);
                }
                assert(ts[q as int] == self.tokens@[q as int].model());
                let closing = match self.peek(q) {
                    Some(c) => c,
                    None => return Err(ParseError::UnexpectedEnd),
                };
                if !matches!(closing.token, Token::RightParen) {
                    return Err(ParseError::MissingClosingParen { line_number: closing.line_number });
                }
                return Ok((Box::new(Expr::Grouping(inner)), q + 1));
            },
            _ => return Err(ParseError::UnexpectedToken { line_number: t.line_number }),
        };
        Ok((expr, pos + 1))
    }

    /// The token at `pos`, if there is one.
    fn peek(&self, pos: usize) -> (r: Option<&AnnotatedToken>)
        ensures
            r is Some == (pos < self.tokens@.len()),
            r is Some ==> *r->0 == self.tokens@[pos as int],
    {
        if pos < self.tokens.len() {
            Some(&self.tokens[pos])
        } else {
            None
        }
    }
}

} // verus!
