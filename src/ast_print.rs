//! The debug printer: a fully parenthesised prefix rendering of a tree.

use vstd::prelude::*;
use crate::expr::{Expr, ExprModel, Visitor};
use crate::token::{AnnotatedToken, Token, TokenKind, TokenModel};

verus! {

/// `s` without its leading zeros, keeping at least one character.
pub open spec fn strip_leading_zeros(s: Seq<char>) -> Seq<char>
    decreases s.len(),
{
    if s.len() > 1 && s[0] == '0' {
        strip_leading_zeros(s.drop_first())
    } else {
        s
    }
}

/// `s` without its trailing zeros.
pub open spec fn strip_trailing_zeros(s: Seq<char>) -> Seq<char>
    decreases s.len(),
{
    if s.len() > 0 && s.last() == '0' {
        strip_trailing_zeros(s.drop_last())
    } else {
        s
    }
}

/// The position of the first `.` in `s`, or its length.
pub open spec fn dot_index(s: Seq<char>) -> int
    decreases s.len(),
{
    if s.len() == 0 || s[0] == '.' {
        0
    } else {
        1 + dot_index(s.drop_first())
    }
}

/// The natural text of the number a decimal lexeme denotes: no leading zeros
/// in the integer part, no trailing zeros in the fraction, and no `.` when
/// the fraction is zero (`"007.50"` is `7.5`, `"42.0"` is `42`).
pub open spec fn number_text(lexeme: Seq<char>) -> Seq<char> {
    let d = dot_index(lexeme);
    let whole = strip_leading_zeros(lexeme.take(d));
    let fraction = strip_trailing_zeros(lexeme.skip(d + 1));
    if d >= lexeme.len() || fraction.len() == 0 {
        whole
    } else {
        whole + seq!['.'] + fraction
    }
}

/// The canonical text of a token: its symbol or keyword, or its payload.
pub open spec fn token_text(t: TokenModel) -> Seq<char> {
    match t.kind {
        TokenKind::LeftParen => "("@,
        TokenKind::RightParen => ")"@,
        TokenKind::LeftBrace => "{"@,
        TokenKind::RightBrace => "}"@,
        TokenKind::Comma => ","@,
        TokenKind::Dot => "."@,
        TokenKind::Minus => "-"@,
        TokenKind::Plus => "+"@,
        TokenKind::Semicolon => ";"@,
        TokenKind::Slash => "/"@,
        TokenKind::Star => "*"@,
        TokenKind::Bang => "!"@,
        TokenKind::BangEqual => "!="@,
        TokenKind::Equal => "="@,
        TokenKind::EqualEqual => "=="@,
        TokenKind::Greater => ">"@,
        TokenKind::GreaterEqual => ">="@,
        TokenKind::Less => "<"@,
        TokenKind::LessEqual => "<="@,
        TokenKind::And => "and"@,
        TokenKind::Class => "class"@,
        TokenKind::Else => "else"@,
        TokenKind::False => "false"@,
        TokenKind::Fun => "fun"@,
        TokenKind::For => "for"@,
        TokenKind::If => "if"@,
        TokenKind::Nil => "nil"@,
        TokenKind::Or => "or"@,
        TokenKind::Print => "print"@,
        TokenKind::Return => "return"@,
        TokenKind::Super => "super"@,
        TokenKind::This => "this"@,
        TokenKind::True => "true"@,
        TokenKind::Var => "var"@,
        TokenKind::While => "while"@,
        TokenKind::Identifier => t.text,
        TokenKind::String => t.text,
        TokenKind::Number => number_text(t.text),
        TokenKind::EOF => "EOF"@,
    }
}

/// How a literal renders, in either printer.
pub open spec fn bool_text(b: bool) -> Seq<char> {
    if b {
        "true"@
    } else {
        "false"@
    }
}

/// The debug rendering: `(op left right)`, `(inner)`, `(op right)`, and the
/// literals in their natural text.
pub open spec fn ast_text(e: ExprModel) -> Seq<char>
    decreases e,
{
    match e {
        ExprModel::Binary { left, operator, right } => "("@ + token_text(operator) + " "@ + ast_text(*left)
            + " "@ + ast_text(*right) + ")"@,
        ExprModel::Grouping(inner) => "("@ + ast_text(*inner) + ")"@,
        ExprModel::Unary { operator, right } => "("@ + token_text(operator) + " "@ + ast_text(*right) + ")"@,
        ExprModel::LiteralNumber(n) => number_text(n),
        ExprModel::LiteralString(s) => s,
        ExprModel::LiteralBool(b) => bool_text(b),
        ExprModel::Nil => "nil"@,
    }
}

/// The characters of a string.
fn chars_of(s: &String) -> (r: Vec<char>)
    ensures
        r@ == s@,
{
    let t = s.as_str();
    let n = t.unicode_len();
    let mut r: Vec<char> = Vec::new();
    let mut i: usize = 0;
    while i < n
        invariant
            n == t@.len(),
            t@ == s@,
            i <= n,
            r@ == t@.take(i as int),
        decreases n - i,
    {
        r.push(t.get_char(i));
        i = i + 1;
        assert(r@ =~= t@.take(i as int));
    }
    assert(t@.take(n as int) =~= t@);
    r
}

/// The natural text of the number that a decimal lexeme denotes.
pub fn number_to_string(lexeme: &String) -> (r: String)
    ensures
        r@ == number_text(lexeme@),
{
    let cs = chars_of(lexeme);
    let ghost s = cs@;
    let n = cs.len();
    let mut d: usize = 0;
    assert(s.skip(0) =~= s);
    while d < n && cs[d] != '.'
        invariant
            s == cs@,
            d <= n == s.len(),
            dot_index(s) == d + dot_index(s.skip(d as int)),
        decreases n - d,
    {
        assert(s.skip(d as int).drop_first() =~= s.skip(d + 1));
        d = d + 1;
    }
    assert(dot_index(s.skip(d as int)) == 0);
    assert(dot_index(s) == d);
    let mut start: usize = 0;
    assert(s.take(d as int) =~= s.subrange(0, d as int));
    while start + 1 < d && cs[start] == '0'
        invariant
            s == cs@,
            start <= d <= n == s.len(),
            d > 0 ==> start < d,
            strip_leading_zeros(s.take(d as int)) == strip_leading_zeros(s.subrange(start as int, d as int)),
        decreases d - start,
    {
        assert(s.subrange(start as int, d as int).drop_first() =~= s.subrange(start + 1, d as int));
        start = start + 1;
    }
    let mut r: Vec<char> = Vec::new();
    let mut i: usize = start;
    while i < d
        invariant
            s == cs@,
            start <= i <= d <= n == s.len(),
            r@ == s.subrange(start as int, i as int),
        decreases d - i,
    {
        r.push(cs[i]);
        i = i + 1;
        assert(r@ =~= s.subrange(start as int, i as int));
    }
    assert(strip_leading_zeros(s.subrange(start as int, d as int)) == s.subrange(start as int, d as int));
    if d < n {
        let mut end: usize = n;
        assert(s.skip(d + 1) =~= s.subrange(d + 1, n as int));
        while end > d + 1 && cs[end - 1] == '0'
            invariant
                s == cs@,
                d < n == s.len(),
                d + 1 <= end <= n,
                strip_trailing_zeros(s.skip(d + 1)) == strip_trailing_zeros(s.subrange(d + 1, end as int)),
            decreases end,
        {
            assert(s.subrange(d + 1, end as int).drop_last() =~= s.subrange(d + 1, end - 1));
            end = end - 1;
        }
        assert(strip_trailing_zeros(s.subrange(d + 1, end as int)) == s.subrange(d + 1, end as int));
        if end > d + 1 {
            let ghost whole = r@;
            let mut j: usize = d;
            while j < end
                invariant
                    s == cs@,
                    d <= j <= end <= n == s.len(),
                    r@ == whole + s.subrange(d as int, j as int),
                decreases end - j,
            {
                r.push(cs[j]);
                j = j + 1;
                assert(r@ =~= whole + s.subrange(d as int, j as int));
            }
            assert(s.subrange(d as int, end as int) =~= seq!['.'] + s.subrange(d + 1, end as int));
            assert(r@ =~= whole + seq!['.'] + s.subrange(d + 1, end as int));
        }
    }
    crate::text::string_of(&r)
}

/// The canonical text of a token: its symbol or keyword, or its payload.
pub fn token_to_string(annotated: &AnnotatedToken) -> (r: String)
    ensures
        r@ == token_text(annotated.model()),
{
    match &annotated.token {
        Token::LeftParen => String::from_str("("),
        Token::RightParen => String::from_str(")"),
        Token::LeftBrace => String::from_str("{"),
        Token::RightBrace => String::from_str("}"),
        Token::Comma => String::from_str(","),
        Token::Dot => String::from_str("."),
        Token::Minus => String::from_str("-"),
        Token::Plus => String::from_str("+"),
        Token::Semicolon => String::from_str(";"),
        Token::Slash => String::from_str("/"),
        Token::Star => String::from_str("*"),
        Token::Bang => String::from_str("!"),
        Token::BangEqual => String::from_str("!="),
        Token::Equal => String::from_str("="),
        Token::EqualEqual => String::from_str("=="),
        Token::Greater => String::from_str(">"),
        Token::GreaterEqual => String::from_str(">="),
        Token::Less => String::from_str("<"),
        Token::LessEqual => String::from_str("<="),
        Token::And => String::from_str("and"),
        Token::Class => String::from_str("class"),
        Token::Else => String::from_str("else"),
        Token::False => String::from_str("false"),
        Token::Fun => String::from_str("fun"),
        Token::For => String::from_str("for"),
        Token::If => String::from_str("if"),
        Token::Nil => String::from_str("nil"),
        Token::Or => String::from_str("or"),
        Token::Print => String::from_str("print"),
        Token::Return => String::from_str("return"),
        Token::Super => String::from_str("super"),
        Token::This => String::from_str("this"),
        Token::True => String::from_str("true"),
        Token::Var => String::from_str("var"),
        Token::While => String::from_str("while"),
        Token::Identifier { identifier } => identifier.clone(),
        Token::String { quoted_str } => quoted_str.clone(),
        Token::Number { lexeme } => number_to_string(lexeme),
        Token::EOF => String::from_str("EOF"),
    }
}

/// Renders a tree in the debug form.
pub struct AstPrinter;

impl AstPrinter {
    /// The debug rendering of `expr`.
    pub fn print(&self, expr: &Expr) -> (r: String)
        ensures
            r@ == ast_text(expr.model()),
        decreases expr,
    {
        match expr {
            Expr::Binary { left, operator, right } => {
                let mut s = String::from_str("(");
                s.append(token_to_string(operator).as_str());
                s.append(" ");
                s.append(self.print(left).as_str());
                s.append(" ");
                s.append(self.print(right).as_str());
                s.append(")");
                s
            },
            Expr::Grouping(inner) => {
                let mut s = String::from_str("(");
                s.append(self.print(inner).as_str());
                s.append(")");
                s
            },
            Expr::Unary { operator, right } => {
                let mut s = String::from_str("(");
                s.append(token_to_string(operator).as_str());
                s.append(" ");
                s.append(self.print(right).as_str());
                s.append(")");
                s
            },
            Expr::LiteralNumber(n) => number_to_string(n),
            Expr::LiteralString(s) => s.clone(),
            Expr::LiteralBool(b) => bool_to_string(*b),
            Expr::Nil => String::from_str("nil"),
        }
    }
}

/// `"true"` or `"false"`.
pub fn bool_to_string(b: bool) -> (r: String)
    ensures
        r@ == bool_text(b),
{
    if b {
        String::from_str("true")
    } else {
        String::from_str("false")
    }
}

impl Visitor for AstPrinter {
    type Result = String;

    fn visit_expr(&mut self, expr: &Expr) -> (r: String)
        ensures
            r@ == ast_text(expr.model()),
    {
        self.print(expr)
    }
}

} // verus!
