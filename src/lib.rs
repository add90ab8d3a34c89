//! Front end of a small tree-walk interpreter: a grapheme-aware scanner, a
//! recursive-descent expression parser, the expression tree and two printers.

pub mod text;
pub mod token;
pub mod scanner;
pub mod expr;
pub mod parser;
pub mod ast_print;
pub mod rpn_print;
pub mod scan_laws;
pub mod lox;
