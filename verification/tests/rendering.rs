use lox::error::{ErrorType, LoxError};
use lox::scanner::Scanner;
use lox::text::push_decimal;
use lox::token::{Token, TokenType};

fn decimal(n: usize) -> String {
    let mut s = String::new();
    push_decimal(&mut s, n);
    s
}

#[test]
fn decimal_numerals() {
    assert_eq!(decimal(0), "0");
    assert_eq!(decimal(7), "7");
    assert_eq!(decimal(9), "9");
    assert_eq!(decimal(10), "10");
    assert_eq!(decimal(109), "109");
    assert_eq!(decimal(12345), "12345");
    assert_eq!(decimal(usize::MAX), usize::MAX.to_string());
}

#[test]
fn decimal_is_appended() {
    let mut s = String::from("line ");
    push_decimal(&mut s, 42);
    assert_eq!(s, "line 42");
}

#[test]
fn syntax_error_holds_what_it_was_given() {
    let error = LoxError::syntax(3, String::from("something is wrong"));
    assert_eq!(error.error_type(), ErrorType::Syntax);
    assert_eq!(error.line(), 3);
    assert_eq!(error.message(), "something is wrong");
}

#[test]
fn error_is_shown_with_line_and_category() {
    let error = LoxError::syntax(3, String::from("something is wrong"));
    assert_eq!(error.to_string(), "[line 3] SyntaxError: something is wrong");
    let error = LoxError::syntax(120, String::new());
    assert_eq!(error.to_string(), "[line 120] SyntaxError: ");
}

#[test]
fn scan_error_is_shown_with_its_message() {
    let mut scanner = Scanner::new(String::from("\n\"open"));
    let error = scanner.scan_tokens().expect_err("the string is left open");
    assert_eq!(error.to_string(), "[line 2] SyntaxError: Unterminated string at line 2");
    let mut scanner = Scanner::new(String::from("#"));
    let error = scanner.scan_tokens().expect_err("no lexeme begins with #");
    assert_eq!(error.to_string(), "[line 1] SyntaxError: Unexpected character `#` at line 1.");
}

#[test]
fn error_category_name() {
    assert_eq!(ErrorType::Syntax.name(), "Syntax");
}

#[test]
fn token_holds_what_it_was_given() {
    let token = Token::new(TokenType::Number, String::from("12.5"), 8);
    assert_eq!(token.kind(), TokenType::Number);
    assert_eq!(token.lexeme(), "12.5");
    assert_eq!(token.line(), 8);
}

#[test]
fn token_is_shown_with_kind_and_quoted_lexeme() {
    let token = Token::new(TokenType::Plus, String::from("+"), 1);
    assert_eq!(token.to_string(), "Token(Plus): '+' ");
    let token = Token::new(TokenType::Eof, String::new(), 4);
    assert_eq!(token.to_string(), "Token(Eof): '' ");
}

#[test]
fn scanned_token_is_shown_with_its_lexeme() {
    let mut scanner = Scanner::new(String::from("\"hi\" >="));
    let tokens = scanner.scan_tokens().unwrap();
    let shown: Vec<String> = tokens.iter().map(|t| t.to_string()).collect();
    assert_eq!(
        shown,
        vec![
            String::from("Token(String): '\"hi\"' "),
            String::from("Token(GreaterEqual): '>=' "),
            String::from("Token(Eof): '' "),
        ]
    );
}

#[test]
fn token_category_names() {
    let kinds = [
        (TokenType::LeftParen, "LeftParen"),
        (TokenType::RightParen, "RightParen"),
        (TokenType::LeftBrace, "LeftBrace"),
        (TokenType::RightBrace, "RightBrace"),
        (TokenType::Comma, "Comma"),
        (TokenType::Dot, "Dot"),
        (TokenType::Minus, "Minus"),
        (TokenType::Plus, "Plus"),
        (TokenType::Semicolon, "Semicolon"),
        (TokenType::Slash, "Slash"),
        (TokenType::Star, "Star"),
        (TokenType::Bang, "Bang"),
        (TokenType::BangEqual, "BangEqual"),
        (TokenType::Equal, "Equal"),
        (TokenType::EqualEqual, "EqualEqual"),
        (TokenType::Greater, "Greater"),
        (TokenType::GreaterEqual, "GreaterEqual"),
        (TokenType::Less, "Less"),
        (TokenType::LessEqual, "LessEqual"),
        (TokenType::Identifier, "Identifier"),
        (TokenType::String, "String"),
        (TokenType::Number, "Number"),
        (TokenType::And, "And"),
        (TokenType::Class, "Class"),
        (TokenType::Else, "Else"),
        (TokenType::False, "False"),
        (TokenType::Fun, "Fun"),
        (TokenType::For, "For"),
        (TokenType::If, "If"),
        (TokenType::Nil, "Nil"),
        (TokenType::Or, "Or"),
        (TokenType::Print, "Print"),
        (TokenType::Return, "Return"),
        (TokenType::Super, "Super"),
        (TokenType::This, "This"),
        (TokenType::True, "True"),
        (TokenType::Var, "Var"),
        (TokenType::While, "While"),
        (TokenType::Eof, "Eof"),
    ];
    for (kind, name) in kinds {
        assert_eq!(kind.name(), name);
        assert_eq!(format!("{:?}", kind), name);
    }
}
