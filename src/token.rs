//! Tokens: what the scanner produces and the parser consumes.

use vstd::prelude::*;

verus! {

/// The kind of a token, without its payload.
#[derive(Clone, Copy, PartialEq, Eq, Structural, Debug)]
pub enum TokenKind {
    // Single-character tokens.
    LeftParen,
    RightParen,
    LeftBrace,
    RightBrace,
    Comma,
    Dot,
    Minus,
    Plus,
    Semicolon,
    Slash,
    Star,

    // One or two character tokens.
    Bang,
    BangEqual,
    Equal,
    EqualEqual,
    Greater,
    GreaterEqual,
    Less,
    LessEqual,

    // Keywords.
    And,
    Class,
    Else,
    False,
    Fun,
    For,
    If,
    Nil,
    Or,
    Print,
    Return,
    Super,
    This,
    True,
    Var,
    While,

    // Literals.
    Identifier,
    String,
    Number,

    EOF,
}

/// A lexical token.
#[derive(Clone, Debug, PartialEq)]
pub enum Token {
    // Single-character tokens.
    LeftParen,
    RightParen,
    LeftBrace,
    RightBrace,
    Comma,
    Dot,
    Minus,
    Plus,
    Semicolon,
    Slash,
    Star,

    // One or two character tokens.
    Bang,
    BangEqual,
    Equal,
    EqualEqual,
    Greater,
    GreaterEqual,
    Less,
    LessEqual,

    // Keywords.
    And,
    Class,
    Else,
    False,
    Fun,
    For,
    If,
    Nil,
    Or,
    Print,
    Return,
    Super,
    This,
    True,
    Var,
    While,

    // Literals.
    Identifier { identifier: String },
    String { quoted_str: String },
    /// A numeric literal, kept as its exact decimal lexeme (digits, optionally
    /// followed by `.` and digits).
    Number { lexeme: String },

    EOF,
}

/// A token together with the line it was found on.
#[derive(Clone, Debug, PartialEq)]
pub struct AnnotatedToken {
    pub token: Token,
    pub line_number: usize,
}

/// The mathematical content of an annotated token.
pub struct TokenModel {
    pub kind: TokenKind,
    /// The payload text: the identifier, the quoted string or the numeric
    /// lexeme; empty for the other kinds.
    pub text: Seq<char>,
    pub line: int,
}

impl Token {
    pub open spec fn kind(&self) -> TokenKind {
        match self {
            Token::LeftParen => TokenKind::LeftParen,
            Token::RightParen => TokenKind::RightParen,
            Token::LeftBrace => TokenKind::LeftBrace,
            Token::RightBrace => TokenKind::RightBrace,
            Token::Comma => TokenKind::Comma,
            Token::Dot => TokenKind::Dot,
            Token::Minus => TokenKind::Minus,
            Token::Plus => TokenKind::Plus,
            Token::Semicolon => TokenKind::Semicolon,
            Token::Slash => TokenKind::Slash,
            Token::Star => TokenKind::Star,
            Token::Bang => TokenKind::Bang,
            Token::BangEqual => TokenKind::BangEqual,
            Token::Equal => TokenKind::Equal,
            Token::EqualEqual => TokenKind::EqualEqual,
            Token::Greater => TokenKind::Greater,
            Token::GreaterEqual => TokenKind::GreaterEqual,
            Token::Less => TokenKind::Less,
            Token::LessEqual => TokenKind::LessEqual,
            Token::And => TokenKind::And,
            Token::Class => TokenKind::Class,
            Token::Else => TokenKind::Else,
            Token::False => TokenKind::False,
            Token::Fun => TokenKind::Fun,
            Token::For => TokenKind::For,
            Token::If => TokenKind::If,
            Token::Nil => TokenKind::Nil,
            Token::Or => TokenKind::Or,
            Token::Print => TokenKind::Print,
            Token::Return => TokenKind::Return,
            Token::Super => TokenKind::Super,
            Token::This => TokenKind::This,
            Token::True => TokenKind::True,
            Token::Var => TokenKind::Var,
            Token::While => TokenKind::While,
            Token::Identifier { .. } => TokenKind::Identifier,
            Token::String { .. } => TokenKind::String,
            Token::Number { .. } => TokenKind::Number,
            Token::EOF => TokenKind::EOF,
        }
    }

    pub open spec fn text(&self) -> Seq<char> {
        match self {
            Token::Identifier { identifier } => identifier@,
            Token::String { quoted_str } => quoted_str@,
            Token::Number { lexeme } => lexeme@,
            _ => Seq::empty(),
        }
    }

    /// A copy of the token.
    pub fn duplicate(&self) -> (r: Token)
        ensures
            r.kind() == self.kind(),
            r.text() == self.text(),
    {
        match self {
            Token::LeftParen => Token::LeftParen,
            Token::RightParen => Token::RightParen,
            Token::LeftBrace => Token::LeftBrace,
            Token::RightBrace => Token::RightBrace,
            Token::Comma => Token::Comma,
            Token::Dot => Token::Dot,
            Token::Minus => Token::Minus,
            Token::Plus => Token::Plus,
            Token::Semicolon => Token::Semicolon,
            Token::Slash => Token::Slash,
            Token::Star => Token::Star,
            Token::Bang => Token::Bang,
            Token::BangEqual => Token::BangEqual,
            Token::Equal => Token::Equal,
            Token::EqualEqual => Token::EqualEqual,
            Token::Greater => Token::Greater,
            Token::GreaterEqual => Token::GreaterEqual,
            Token::Less => Token::Less,
            Token::LessEqual => Token::LessEqual,
            Token::And => Token::And,
            Token::Class => Token::Class,
            Token::Else => Token::Else,
            Token::False => Token::False,
            Token::Fun => Token::Fun,
            Token::For => Token::For,
            Token::If => Token::If,
            Token::Nil => Token::Nil,
            Token::Or => Token::Or,
            Token::Print => Token::Print,
            Token::Return => Token::Return,
            Token::Super => Token::Super,
            Token::This => Token::This,
            Token::True => Token::True,
            Token::Var => Token::Var,
            Token::While => Token::While,
            Token::Identifier { identifier } => Token::Identifier { identifier: identifier.clone() },
            Token::String { quoted_str } => Token::String { quoted_str: quoted_str.clone() },
            Token::Number { lexeme } => Token::Number { lexeme: lexeme.clone() },
            Token::EOF => Token::EOF,
        }
    }
}

impl AnnotatedToken {
    pub open spec fn model(&self) -> TokenModel {
        TokenModel { kind: self.token.kind(), text: self.token.text(), line: self.line_number as int }
    }

    /// A copy of the annotated token.
    pub fn duplicate(&self) -> (r: AnnotatedToken)
        ensures
            r.model() == self.model(),
    {
        AnnotatedToken { token: self.token.duplicate(), line_number: self.line_number }
    }
}

/// The models of a sequence of tokens.
pub open spec fn models(ts: Seq<AnnotatedToken>) -> Seq<TokenModel> {
    ts.map_values(|t: AnnotatedToken| t.model())
}

} // verus!
