use first_interpreter::lox::Lox;
use first_interpreter::scanner::{
    is_digit, is_identifier_head, is_identifier_tail, is_newline, is_whitespace, ScanError,
    ScanErrorKind, Scanner,
};
use first_interpreter::token::{AnnotatedToken, Token};

fn scan(source: &str) -> (Vec<AnnotatedToken>, bool) {
    let mut scanner = Scanner::new(source);
    let tokens = scanner.scan_tokens().clone();
    (tokens, scanner.has_error())
}

fn kinds(source: &str) -> Vec<Token> {
    scan(source).0.into_iter().map(|t| t.token).collect()
}

fn chars(s: &str) -> Vec<char> {
    s.chars().collect()
}

#[test]
fn every_scan_ends_with_one_end_marker() {
    for source in ["", "1 + 2", "\"open", "// only a comment", "#@$", "a\nb\n", "(((", "1.2.3"] {
        let (tokens, _) = scan(source);
        assert_eq!(tokens.last().unwrap().token, Token::EOF);
        let ends = tokens.iter().filter(|t| t.token == Token::EOF).count();
        assert_eq!(ends, 1, "{:?}", source);
    }
}

#[test]
fn digits_make_one_number() {
    let (tokens, error) = scan("42");
    assert!(!error);
    assert_eq!(tokens.len(), 2);
    match &tokens[0].token {
        Token::Number { lexeme } => assert_eq!(lexeme.parse::<f64>().unwrap(), 42.0),
        other => panic!("expected a number, got {:?}", other),
    }
    assert_eq!(tokens[1].token, Token::EOF);
}

#[test]
fn fraction_needs_a_digit_after_the_dot() {
    assert_eq!(
        kinds("1.5 2. .3"),
        vec![
            Token::Number { lexeme: "1.5".to_string() },
            Token::Number { lexeme: "2".to_string() },
            Token::Dot,
            Token::Dot,
            Token::Number { lexeme: "3".to_string() },
            Token::EOF,
        ]
    );
}

#[test]
fn string_keeps_its_quotes() {
    let (tokens, error) = scan("\"abc\"");
    assert!(!error);
    assert_eq!(tokens.len(), 2);
    assert_eq!(tokens[0].token, Token::String { quoted_str: "\"abc\"".to_string() });
}

#[test]
fn invalid_character_is_skipped_and_flagged() {
    let (tokens, error) = scan("1 # 2");
    assert!(error);
    let kinds: Vec<Token> = tokens.into_iter().map(|t| t.token).collect();
    assert_eq!(
        kinds,
        vec![
            Token::Number { lexeme: "1".to_string() },
            Token::Number { lexeme: "2".to_string() },
            Token::EOF,
        ]
    );
    let (tokens, error) = scan("a@b");
    assert!(error);
    assert_eq!(tokens.len(), 3);
}

#[test]
fn unterminated_string_gives_no_token() {
    let (tokens, error) = scan("\"abc");
    assert!(error);
    assert_eq!(tokens.len(), 1);
    assert_eq!(tokens[0].token, Token::EOF);
    let (tokens, error) = scan("1 \"a\nb");
    assert!(error);
    assert_eq!(tokens.len(), 2);
    assert_eq!(tokens[1].line_number, 2);
}

#[test]
fn operators_of_one_or_two_characters() {
    assert_eq!(
        kinds("! != = == < <= > >= / ( ) { } , . - + ; *"),
        vec![
            Token::Bang,
            Token::BangEqual,
            Token::Equal,
            Token::EqualEqual,
            Token::Less,
            Token::LessEqual,
            Token::Greater,
            Token::GreaterEqual,
            Token::Slash,
            Token::LeftParen,
            Token::RightParen,
            Token::LeftBrace,
            Token::RightBrace,
            Token::Comma,
            Token::Dot,
            Token::Minus,
            Token::Plus,
            Token::Semicolon,
            Token::Star,
            Token::EOF,
        ]
    );
}

#[test]
fn keywords_and_identifiers() {
    assert_eq!(
        kinds("and class else false for fun if nil or print return super this true var while"),
        vec![
            Token::And,
            Token::Class,
            Token::Else,
            Token::False,
            Token::For,
            Token::Fun,
            Token::If,
            Token::Nil,
            Token::Or,
            Token::Print,
            Token::Return,
            Token::Super,
            Token::This,
            Token::True,
            Token::Var,
            Token::While,
            Token::EOF,
        ]
    );
    assert_eq!(
        kinds("_x1 café andy"),
        vec![
            Token::Identifier { identifier: "_x1".to_string() },
            Token::Identifier { identifier: "café".to_string() },
            Token::Identifier { identifier: "andy".to_string() },
            Token::EOF,
        ]
    );
}

#[test]
fn comments_and_lines() {
    let (tokens, error) = scan("1 // two\n3\n\"a\nb\" 4");
    assert!(!error);
    let lines: Vec<usize> = tokens.iter().map(|t| t.line_number).collect();
    assert_eq!(lines, vec![1, 2, 4, 4, 4]);
    assert_eq!(tokens[2].token, Token::String { quoted_str: "\"a\nb\"".to_string() });
}

#[test]
fn clusters_are_scanned_as_graphemes() {
    // "\r\n" is one cluster: whitespace, but not the newline grapheme.
    let (tokens, error) = scan("a\r\nb");
    assert!(!error);
    let lines: Vec<usize> = tokens.iter().map(|t| t.line_number).collect();
    assert_eq!(lines, vec![1, 1, 1]);
    // A combining mark joins the quotation mark before it, so the string
    // is never closed.
    let (tokens, error) = scan("\"a\"\u{301}");
    assert!(error);
    assert_eq!(tokens.len(), 1);
}

#[test]
fn grapheme_classes() {
    assert!(is_newline(&chars("\n")));
    assert!(!is_newline(&chars("\r\n")));
    assert!(is_whitespace(&chars("\u{3000}")));
    assert!(is_whitespace(&chars("\r\n")));
    assert!(!is_whitespace(&chars("a")));
    assert!(is_digit(&chars("7")));
    assert!(!is_digit(&chars("\u{663}")));
    assert!(is_identifier_head(&chars("é")));
    assert!(!is_identifier_head(&chars("1")));
    assert!(is_identifier_tail(&chars("\u{663}")));
    assert!(!is_identifier_tail(&chars("-")));
}

#[test]
fn scanner_over_given_graphemes() {
    let mut scanner = Scanner::from_graphemes(vec![chars("x"), chars("="), chars("=")]);
    let tokens: Vec<Token> = scanner.scan_tokens().iter().map(|t| t.token.clone()).collect();
    assert_eq!(
        tokens,
        vec![Token::Identifier { identifier: "x".to_string() }, Token::EqualEqual, Token::EOF]
    );
}

#[test]
fn session_remembers_errors() {
    let mut lox = Lox::new();
    assert!(!lox.has_error());
    let (tokens, errors) = lox.run("1 + 2");
    assert_eq!(tokens.len(), 4);
    assert!(errors.is_empty());
    assert!(!lox.has_error());
    let (_, errors) = lox.run("1 ~ 2");
    assert_eq!(errors, vec![ScanError { line_number: 1, kind: ScanErrorKind::UnexpectedCharacter }]);
    assert!(lox.has_error());
    let (_, errors) = lox.run("3");
    assert!(errors.is_empty());
    assert!(lox.has_error());
}

#[test]
fn errors_are_reported_with_their_lines() {
    let mut scanner = Scanner::new("#\n\"a\nb");
    scanner.scan_tokens();
    assert!(scanner.has_error());
    assert_eq!(
        scanner.errors(),
        &vec![
            ScanError { line_number: 1, kind: ScanErrorKind::UnexpectedCharacter },
            ScanError { line_number: 3, kind: ScanErrorKind::UnterminatedString },
        ]
    );
}
