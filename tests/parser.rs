use first_interpreter::ast_print::AstPrinter;
use first_interpreter::expr::Visitor;
use first_interpreter::parser::{ParseError, Parser};
use first_interpreter::scanner::Scanner;
use first_interpreter::token::AnnotatedToken;

fn test_with_ast(source: &'static str, expected_ast: &'static str) {
    let mut scanner = Scanner::new(source);
    let tokens = scanner.scan_tokens();
    let mut parser = Parser::new(tokens);
    let expr = parser.parse().unwrap();
    assert_eq!(AstPrinter.visit_expr(&expr), expected_ast);
}

fn parse_error(source: &'static str) -> ParseError {
    let mut scanner = Scanner::new(source);
    let tokens = scanner.scan_tokens();
    let mut parser = Parser::new(tokens);
    match parser.parse() {
        Ok(_) => panic!("expected a parse error for {:?}", source),
        Err(e) => e,
    }
}

#[test]
fn basic_equality() {
    test_with_ast("1 == 2;", "(== 1 2)");
}

#[test]
fn multiple_equality() {
    test_with_ast("1 == 2 != 3;", "(!= (== 1 2) 3)");
}

#[test]
fn unary_equality() {
    test_with_ast("+1 == -1;", "(== (+ 1) (- 1))");
}

#[test]
fn unary_factor_equality() {
    test_with_ast("+1 * -2 == -1 / 4;", "(== (* (+ 1) (- 2)) (/ (- 1) 4))");
}

#[test]
fn nested_unary() {
    test_with_ast("-+-+1", "(- (+ (- (+ 1))))");
}

#[test]
fn bedmas_priority_left_associativity() {
    test_with_ast("+1 * -2 + +3 - 4;", "(- (+ (* (+ 1) (- 2)) (+ 3)) 4)");
}

#[test]
fn bracket_primary() {
    test_with_ast("(12 + 23) * (3 - 4)", "(* ((+ 12 23)) ((- 3 4)))")
}

#[test]
fn strings() {
    test_with_ast("\"str\" + \"otherstr\"", "(+ \"str\" \"otherstr\")")
}

#[test]
fn subtraction_is_left_associative() {
    test_with_ast("1 - 2 - 3", "(- (- 1 2) 3)");
}

#[test]
fn product_binds_tighter_than_sum() {
    test_with_ast("1 + 2 * 3", "(+ 1 (* 2 3))");
}

#[test]
fn unary_minus_nests_to_the_right() {
    test_with_ast("- - 1", "(- (- 1))");
}

#[test]
fn groupings_render_with_their_parentheses() {
    test_with_ast("(1 + 2) * (3 - 4)", "(* ((+ 1 2)) ((- 3 4)))");
}

#[test]
fn comparison_and_equality_levels() {
    test_with_ast("1 < 2 == 3 >= 4", "(== (< 1 2) (>= 3 4))");
    test_with_ast("1 <= 2 > 3", "(> (<= 1 2) 3)");
}

#[test]
fn literal_keywords() {
    test_with_ast("true == false != nil", "(!= (== true false) nil)");
}

#[test]
fn numbers_render_in_natural_form() {
    test_with_ast("007.50 + 1.0", "(+ 7.5 1)");
    test_with_ast("3.14", "3.14");
}

#[test]
fn trailing_semicolon_is_not_consumed() {
    let mut scanner = Scanner::new("1 + 2;");
    let tokens = scanner.scan_tokens();
    let mut parser = Parser::new(tokens);
    let expr = parser.parse().unwrap();
    assert_eq!(AstPrinter.visit_expr(&expr), "(+ 1 2)");
    assert!(matches!(parser.parse(), Err(ParseError::UnexpectedToken { line_number: 1 })));
}

#[test]
fn missing_closing_paren_fails() {
    assert_eq!(parse_error("(1 + 2"), ParseError::MissingClosingParen { line_number: 1 });
}

#[test]
fn unexpected_token_fails() {
    assert_eq!(parse_error(")"), ParseError::UnexpectedToken { line_number: 1 });
    assert_eq!(parse_error("1 +\n*"), ParseError::UnexpectedToken { line_number: 2 });
    assert_eq!(parse_error(""), ParseError::UnexpectedToken { line_number: 1 });
}

#[test]
fn running_out_of_tokens_fails() {
    let tokens: Vec<AnnotatedToken> = Vec::new();
    let mut parser = Parser::new(&tokens);
    assert_eq!(parser.parse().unwrap_err(), ParseError::UnexpectedEnd);
}
