use lox::error::{ErrorType, LoxError};
use lox::scanner::Scanner;
use lox::token::{Token, TokenType};

/// Scans `source` and hands back each token as kind, lexeme and line.
fn scan(source: &str) -> Result<Vec<(TokenType, String, usize)>, LoxError> {
    let mut scanner = Scanner::new(String::from(source));
    let tokens: &Vec<Token> = scanner.scan_tokens()?;
    Ok(tokens.iter().map(|t| (t.kind(), String::from(t.lexeme()), t.line())).collect())
}

fn token(kind: TokenType, lexeme: &str, line: usize) -> (TokenType, String, usize) {
    (kind, String::from(lexeme), line)
}

fn failure(source: &str) -> (ErrorType, usize, String) {
    let error = scan(source).expect_err("the scan should fail");
    (error.error_type(), error.line(), String::from(error.message()))
}

#[test]
fn empty_source_gives_only_end_of_input() {
    assert_eq!(scan("").unwrap(), vec![token(TokenType::Eof, "", 1)]);
}

#[test]
fn single_character_tokens() {
    assert_eq!(
        scan("(){},.-+;*").unwrap(),
        vec![
            token(TokenType::LeftParen, "(", 1),
            token(TokenType::RightParen, ")", 1),
            token(TokenType::LeftBrace, "{", 1),
            token(TokenType::RightBrace, "}", 1),
            token(TokenType::Comma, ",", 1),
            token(TokenType::Dot, ".", 1),
            token(TokenType::Minus, "-", 1),
            token(TokenType::Plus, "+", 1),
            token(TokenType::Semicolon, ";", 1),
            token(TokenType::Star, "*", 1),
            token(TokenType::Eof, "", 1),
        ]
    );
}

#[test]
fn spaced_symbols_give_one_token_each() {
    let symbols = "(){},.-+;*/!=<>";
    let spaced: Vec<String> = symbols.chars().map(|c| c.to_string()).collect();
    let tokens = scan(&spaced.join(" ")).unwrap();
    assert_eq!(tokens.len(), symbols.chars().count() + 1);
    let lexemes: Vec<String> = tokens.iter().map(|t| t.1.clone()).collect();
    let mut expected = spaced.clone();
    expected.push(String::new());
    assert_eq!(lexemes, expected);
    assert!(tokens.iter().all(|t| t.2 == 1));
    assert_eq!(tokens[10].0, TokenType::Slash);
    assert_eq!(tokens[11].0, TokenType::Bang);
    assert_eq!(tokens[12].0, TokenType::Equal);
    assert_eq!(tokens[13].0, TokenType::Less);
    assert_eq!(tokens[14].0, TokenType::Greater);
    assert_eq!(tokens[15].0, TokenType::Eof);
}

#[test]
fn bang_equal_is_one_token() {
    assert_eq!(
        scan("!=").unwrap(),
        vec![token(TokenType::BangEqual, "!=", 1), token(TokenType::Eof, "", 1)]
    );
}

#[test]
fn bang_alone_leaves_the_next_character_to_be_scanned() {
    assert_eq!(
        scan("!(").unwrap(),
        vec![
            token(TokenType::Bang, "!", 1),
            token(TokenType::LeftParen, "(", 1),
            token(TokenType::Eof, "", 1),
        ]
    );
    // The scan goes on at `a`, with which no lexeme begins.
    assert_eq!(
        failure("!a"),
        (ErrorType::Syntax, 1, String::from("Unexpected character `a` at line 1."))
    );
}

#[test]
fn operators_with_and_without_equal() {
    assert_eq!(
        scan("! != = == < <= > >=").unwrap(),
        vec![
            token(TokenType::Bang, "!", 1),
            token(TokenType::BangEqual, "!=", 1),
            token(TokenType::Equal, "=", 1),
            token(TokenType::EqualEqual, "==", 1),
            token(TokenType::Less, "<", 1),
            token(TokenType::LessEqual, "<=", 1),
            token(TokenType::Greater, ">", 1),
            token(TokenType::GreaterEqual, ">=", 1),
            token(TokenType::Eof, "", 1),
        ]
    );
}

#[test]
fn longest_match_takes_the_equal_sign_first() {
    assert_eq!(
        scan("===").unwrap(),
        vec![
            token(TokenType::EqualEqual, "==", 1),
            token(TokenType::Equal, "=", 1),
            token(TokenType::Eof, "", 1),
        ]
    );
    assert_eq!(
        scan("<==").unwrap(),
        vec![
            token(TokenType::LessEqual, "<=", 1),
            token(TokenType::Equal, "=", 1),
            token(TokenType::Eof, "", 1),
        ]
    );
}

#[test]
fn comment_gives_no_token() {
    assert_eq!(
        scan("// comment\n+").unwrap(),
        vec![token(TokenType::Plus, "+", 2), token(TokenType::Eof, "", 2)]
    );
}

#[test]
fn comment_runs_to_the_end_of_the_text() {
    assert_eq!(scan("// nothing else").unwrap(), vec![token(TokenType::Eof, "", 1)]);
    assert_eq!(scan("//").unwrap(), vec![token(TokenType::Eof, "", 1)]);
    assert_eq!(
        scan("+ // \"open ! #\n-").unwrap(),
        vec![
            token(TokenType::Plus, "+", 1),
            token(TokenType::Minus, "-", 2),
            token(TokenType::Eof, "", 2),
        ]
    );
}

#[test]
fn slash_alone_is_a_token() {
    assert_eq!(
        scan("/").unwrap(),
        vec![token(TokenType::Slash, "/", 1), token(TokenType::Eof, "", 1)]
    );
    assert_eq!(
        scan("/ /").unwrap(),
        vec![
            token(TokenType::Slash, "/", 1),
            token(TokenType::Slash, "/", 1),
            token(TokenType::Eof, "", 1),
        ]
    );
    assert_eq!(
        scan("/*").unwrap(),
        vec![
            token(TokenType::Slash, "/", 1),
            token(TokenType::Star, "*", 1),
            token(TokenType::Eof, "", 1),
        ]
    );
}

#[test]
fn line_breaks_are_counted() {
    assert_eq!(
        scan("\n\n+").unwrap(),
        vec![token(TokenType::Plus, "+", 3), token(TokenType::Eof, "", 3)]
    );
}

#[test]
fn whitespace_gives_no_token() {
    assert_eq!(scan(" \r\t").unwrap(), vec![token(TokenType::Eof, "", 1)]);
    assert_eq!(scan(" \r\n\t\n").unwrap(), vec![token(TokenType::Eof, "", 3)]);
    assert_eq!(
        scan("\t( \r\n )").unwrap(),
        vec![
            token(TokenType::LeftParen, "(", 1),
            token(TokenType::RightParen, ")", 2),
            token(TokenType::Eof, "", 2),
        ]
    );
}

#[test]
fn string_literal_keeps_its_quotes() {
    assert_eq!(
        scan("\"hi\"").unwrap(),
        vec![token(TokenType::String, "\"hi\"", 1), token(TokenType::Eof, "", 1)]
    );
    assert_eq!(
        scan("\"\"").unwrap(),
        vec![token(TokenType::String, "\"\"", 1), token(TokenType::Eof, "", 1)]
    );
}

#[test]
fn string_literal_holds_any_character() {
    assert_eq!(
        scan("\"a // b # \u{e9}\u{1F600}\"+").unwrap(),
        vec![
            token(TokenType::String, "\"a // b # \u{e9}\u{1F600}\"", 1),
            token(TokenType::Plus, "+", 1),
            token(TokenType::Eof, "", 1),
        ]
    );
}

#[test]
fn string_literal_across_lines_is_tagged_with_its_first_line() {
    assert_eq!(
        scan("\n\"a\nb\n\" +").unwrap(),
        vec![
            token(TokenType::String, "\"a\nb\n\"", 2),
            token(TokenType::Plus, "+", 4),
            token(TokenType::Eof, "", 4),
        ]
    );
}

#[test]
fn unterminated_string_is_a_syntax_error() {
    assert!(scan("\"unterminated").is_err());
    assert_eq!(
        failure("\"unterminated"),
        (ErrorType::Syntax, 1, String::from("Unterminated string at line 1"))
    );
    assert_eq!(
        failure("\""),
        (ErrorType::Syntax, 1, String::from("Unterminated string at line 1"))
    );
}

#[test]
fn unterminated_string_is_reported_where_the_text_ends() {
    assert_eq!(
        failure("+\n\"a\nb\n"),
        (ErrorType::Syntax, 4, String::from("Unterminated string at line 4"))
    );
}

#[test]
fn unexpected_character_is_a_syntax_error() {
    assert_eq!(
        failure("#"),
        (ErrorType::Syntax, 1, String::from("Unexpected character `#` at line 1."))
    );
    assert_eq!(
        failure("+ - #"),
        (ErrorType::Syntax, 1, String::from("Unexpected character `#` at line 1."))
    );
}

#[test]
fn unexpected_character_is_reported_at_its_own_line() {
    assert_eq!(
        failure("\n\n#"),
        (ErrorType::Syntax, 3, String::from("Unexpected character `#` at line 3."))
    );
    assert_eq!(
        failure("(\n// note\n\"two\nlines\" @\n)"),
        (ErrorType::Syntax, 4, String::from("Unexpected character `@` at line 4."))
    );
    let eleven_lines = "\n".repeat(11) + "\u{e9}";
    assert_eq!(
        failure(&eleven_lines),
        (ErrorType::Syntax, 12, String::from("Unexpected character `\u{e9}` at line 12."))
    );
}

#[test]
fn letters_and_digits_begin_no_lexeme() {
    assert_eq!(
        failure("var"),
        (ErrorType::Syntax, 1, String::from("Unexpected character `v` at line 1."))
    );
    assert_eq!(
        failure("1"),
        (ErrorType::Syntax, 1, String::from("Unexpected character `1` at line 1."))
    );
    assert_eq!(
        failure("\0"),
        (ErrorType::Syntax, 1, String::from("Unexpected character `\0` at line 1."))
    );
}

#[test]
fn first_error_ends_the_scan() {
    assert_eq!(
        failure("+ # \"open"),
        (ErrorType::Syntax, 1, String::from("Unexpected character `#` at line 1."))
    );
    assert_eq!(
        failure("\"open # +"),
        (ErrorType::Syntax, 1, String::from("Unterminated string at line 1"))
    );
}

#[test]
fn same_text_scans_to_the_same_tokens() {
    let source = "( ) != // c\n\"s\ns\" <= /\n";
    assert_eq!(scan(source).unwrap(), scan(source).unwrap());
    assert_eq!(
        scan(source).unwrap(),
        vec![
            token(TokenType::LeftParen, "(", 1),
            token(TokenType::RightParen, ")", 1),
            token(TokenType::BangEqual, "!=", 1),
            token(TokenType::String, "\"s\ns\"", 2),
            token(TokenType::LessEqual, "<=", 3),
            token(TokenType::Slash, "/", 3),
            token(TokenType::Eof, "", 4),
        ]
    );
    assert_eq!(failure("+\n#"), failure("+\n#"));
}

#[test]
fn lexemes_and_what_is_skipped_make_up_the_text() {
    let source = "{ != }";
    let tokens = scan(source).unwrap();
    let lexemes: Vec<&str> = tokens.iter().map(|t| t.1.as_str()).collect();
    assert_eq!(lexemes.join(" "), "{ != } ");
    assert!(tokens[..tokens.len() - 1].iter().all(|t| !t.1.is_empty()));
}

#[test]
fn tokens_stand_in_the_text_in_order() {
    let source = "{\n  // one\n  \"two\nlines\" <= ( ! )\n} /";
    let chars: Vec<char> = source.chars().collect();
    let tokens = scan(source).unwrap();
    assert_eq!(tokens.len(), 9);
    let mut from = 0;
    for (_, lexeme, line) in &tokens {
        let lexeme: Vec<char> = lexeme.chars().collect();
        let at = (from..=chars.len() - lexeme.len())
            .find(|&at| chars[at..at + lexeme.len()] == lexeme[..])
            .expect("the lexeme stands in the text");
        let breaks = chars[..at].iter().filter(|&&c| c == '\n').count();
        assert_eq!(*line, 1 + breaks);
        from = at + lexeme.len();
    }
    let last = tokens.last().unwrap();
    assert_eq!(*last, token(TokenType::Eof, "", 5));
    assert!(tokens[..8].iter().all(|t| t.0 != TokenType::Eof && !t.1.is_empty()));
}
