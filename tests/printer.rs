use first_interpreter::ast_print::{number_to_string, token_to_string, AstPrinter};
use first_interpreter::expr::{Expr, Visitor};
use first_interpreter::rpn_print::RPNPrinter;
use first_interpreter::token::{AnnotatedToken, Token};

fn op(token: Token) -> AnnotatedToken {
    AnnotatedToken { token, line_number: 1 }
}

fn num(lexeme: &str) -> Box<Expr> {
    Box::new(Expr::LiteralNumber(lexeme.to_string()))
}

fn negated_product() -> Expr {
    Expr::Binary {
        left: Box::new(Expr::Unary { operator: op(Token::Minus), right: num("123") }),
        operator: op(Token::Star),
        right: Box::new(Expr::Grouping(num("45.67"))),
    }
}

#[test]
fn debug_printer_renders_prefix() {
    assert_eq!(AstPrinter.visit_expr(&negated_product()), "(* (- 123) (45.67))");
}

#[test]
fn rpn_printer_renders_postfix() {
    let sum_times_difference = Expr::Binary {
        left: Box::new(Expr::Binary { left: num("1"), operator: op(Token::Plus), right: num("2") }),
        operator: op(Token::Star),
        right: Box::new(Expr::Binary { left: num("4"), operator: op(Token::Minus), right: num("3") }),
    };
    assert_eq!(RPNPrinter.visit_expr(&sum_times_difference), "1 2 + 4 3 - *");
    assert_eq!(RPNPrinter.visit_expr(&negated_product()), "123 Minus (45.67) *");
}

#[test]
fn literals_render_the_same_in_both_printers() {
    let literals = vec![
        (Expr::Nil, "nil"),
        (Expr::LiteralBool(true), "true"),
        (Expr::LiteralBool(false), "false"),
        (Expr::LiteralString("\"hi\"".to_string()), "\"hi\""),
        (Expr::LiteralNumber("0.250".to_string()), "0.25"),
    ];
    for (e, text) in literals {
        assert_eq!(AstPrinter.visit_expr(&e), text);
        assert_eq!(RPNPrinter.visit_expr(&e), text);
    }
}

#[test]
fn number_text_drops_redundant_zeros() {
    assert_eq!(number_to_string(&"42".to_string()), "42");
    assert_eq!(number_to_string(&"42.0".to_string()), "42");
    assert_eq!(number_to_string(&"007".to_string()), "7");
    assert_eq!(number_to_string(&"0".to_string()), "0");
    assert_eq!(number_to_string(&"000.000".to_string()), "0");
    assert_eq!(number_to_string(&"10.01".to_string()), "10.01");
}

#[test]
fn token_text_is_symbol_keyword_or_payload() {
    assert_eq!(token_to_string(&op(Token::BangEqual)), "!=");
    assert_eq!(token_to_string(&op(Token::While)), "while");
    assert_eq!(token_to_string(&op(Token::EOF)), "EOF");
    assert_eq!(token_to_string(&op(Token::Identifier { identifier: "x".to_string() })), "x");
    assert_eq!(token_to_string(&op(Token::Number { lexeme: "1.50".to_string() })), "1.5");
}
