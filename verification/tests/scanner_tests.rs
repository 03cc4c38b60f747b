use rox::scanner::Scanner;
use rox::scanner::ScannerError;
use rox::token::Token;
use rox::token::TokenType;

fn tok(typ: TokenType, lexeme: &str, line: u16) -> Token {
    Token { typ, lexeme: lexeme.to_string(), line }
}

#[test]
fn empty_program() {
    let scanner = Scanner::new(String::from(""));
    let result = scanner.scan_tokens().unwrap();
    let expected = vec![tok(TokenType::Eof, "", 1)];
    assert_eq!(result, expected);
}

#[test]
fn simple_parens() {
    let scanner = Scanner::new(String::from("()"));
    let result = scanner.scan_tokens().unwrap();
    let expected = vec![
        tok(TokenType::LeftParen, "(", 1),
        tok(TokenType::RightParen, ")", 1),
        tok(TokenType::Eof, "", 1),
    ];
    assert_eq!(result, expected);
}

#[test]
fn multi_line_parens() {
    let scanner = Scanner::new(String::from("()\n()"));
    let result = scanner.scan_tokens().unwrap();
    let expected = vec![
        tok(TokenType::LeftParen, "(", 1),
        tok(TokenType::RightParen, ")", 1),
        tok(TokenType::LeftParen, "(", 2),
        tok(TokenType::RightParen, ")", 2),
        tok(TokenType::Eof, "", 2),
    ];
    assert_eq!(result, expected);
}

#[test]
fn simple_comment() {
    let scanner = Scanner::new(String::from("// this is a comment\n()"));
    let result = scanner.scan_tokens().unwrap();
    let expected = vec![
        tok(TokenType::LeftParen, "(", 2),
        tok(TokenType::RightParen, ")", 2),
        tok(TokenType::Eof, "", 2),
    ];
    assert_eq!(result, expected);
}

#[test]
fn bang_vs_bang_equal() {
    let scanner = Scanner::new(String::from("!()!="));
    let result = scanner.scan_tokens().unwrap();
    let expected = vec![
        tok(TokenType::Bang, "!", 1),
        tok(TokenType::LeftParen, "(", 1),
        tok(TokenType::RightParen, ")", 1),
        tok(TokenType::BangEqual, "!=", 1),
        tok(TokenType::Eof, "", 1),
    ];
    assert_eq!(result, expected);
}

#[test]
fn ignore_whitespace() {
    let scanner = Scanner::new(String::from("( \t\r)"));
    let result = scanner.scan_tokens().unwrap();
    let expected = vec![
        tok(TokenType::LeftParen, "(", 1),
        tok(TokenType::RightParen, ")", 1),
        tok(TokenType::Eof, "", 1),
    ];
    assert_eq!(result, expected);
}

#[test]
fn empty_string() {
    let scanner = Scanner::new(String::from("\"\""));
    let result = scanner.scan_tokens().unwrap();
    let expected = vec![
        tok(TokenType::Str(String::from("")), "\"\"", 1),
        tok(TokenType::Eof, "", 1),
    ];
    assert_eq!(result, expected);
}

#[test]
fn string() {
    let scanner = Scanner::new(String::from("\"hello world\""));
    let result = scanner.scan_tokens().unwrap();
    let expected = vec![
        tok(TokenType::Str(String::from("hello world")), "\"hello world\"", 1),
        tok(TokenType::Eof, "", 1),
    ];
    assert_eq!(result, expected);
}

#[test]
fn unterminated_string_should_fail() {
    let scanner = Scanner::new(String::from("\"hello world"));
    let result = scanner.scan_tokens();
    let expected = Err(vec![ScannerError {
        message: String::from("Unterminated string."),
        line: 1,
    }]);
    assert_eq!(result, expected);
}

#[test]
fn string_with_parens() {
    let scanner = Scanner::new(String::from("(\"hello world\")"));
    let result = scanner.scan_tokens().unwrap();
    let expected = vec![
        tok(TokenType::LeftParen, "(", 1),
        tok(TokenType::Str(String::from("hello world")), "\"hello world\"", 1),
        tok(TokenType::RightParen, ")", 1),
        tok(TokenType::Eof, "", 1),
    ];
    assert_eq!(result, expected);
}

#[test]
fn multi_line_string() {
    let scanner = Scanner::new(String::from("(\"hello \nworld\")"));
    let result = scanner.scan_tokens().unwrap();
    let expected = vec![
        tok(TokenType::LeftParen, "(", 1),
        tok(TokenType::Str(String::from("hello \nworld")), "\"hello \nworld\"", 1),
        tok(TokenType::RightParen, ")", 2),
        tok(TokenType::Eof, "", 2),
    ];
    assert_eq!(result, expected);
}

#[test]
fn integer() {
    let scanner = Scanner::new(String::from("12"));
    let result = scanner.scan_tokens().unwrap();
    let expected = vec![
        tok(TokenType::Number(String::from("12")), "12", 1),
        tok(TokenType::Eof, "", 1),
    ];
    assert_eq!(result, expected);
}

#[test]
fn float() {
    let scanner = Scanner::new(String::from("7.8"));
    let result = scanner.scan_tokens().unwrap();
    let expected = vec![
        tok(TokenType::Number(String::from("7.8")), "7.8", 1),
        tok(TokenType::Eof, "", 1),
    ];
    assert_eq!(result, expected);
}

#[test]
fn float_then_dot() {
    let scanner = Scanner::new(String::from("7.8.()"));
    let result = scanner.scan_tokens().unwrap();
    let expected = vec![
        tok(TokenType::Number(String::from("7.8")), "7.8", 1),
        tok(TokenType::Dot, ".", 1),
        tok(TokenType::LeftParen, "(", 1),
        tok(TokenType::RightParen, ")", 1),
        tok(TokenType::Eof, "", 1),
    ];
    assert_eq!(result, expected);
}

#[test]
fn int_then_dot() {
    let scanner = Scanner::new(String::from("14."));
    let result = scanner.scan_tokens().unwrap();
    let expected = vec![
        tok(TokenType::Number(String::from("14")), "14", 1),
        tok(TokenType::Dot, ".", 1),
        tok(TokenType::Eof, "", 1),
    ];
    assert_eq!(result, expected);
}

#[test]
fn identifier() {
    let scanner = Scanner::new(String::from("orchid"));
    let result = scanner.scan_tokens().unwrap();
    let expected = vec![
        tok(TokenType::Identifier(String::from("orchid")), "orchid", 1),
        tok(TokenType::Eof, "", 1),
    ];
    assert_eq!(result, expected);
}

#[test]
fn alphanum_identifier() {
    let scanner = Scanner::new(String::from("orchid7"));
    let result = scanner.scan_tokens().unwrap();
    let expected = vec![
        tok(TokenType::Identifier(String::from("orchid7")), "orchid7", 1),
        tok(TokenType::Eof, "", 1),
    ];
    assert_eq!(result, expected);
}

#[test]
fn keywords() {
    let scanner = Scanner::new(String::from("or null"));
    let result = scanner.scan_tokens().unwrap();
    let expected = vec![
        tok(TokenType::Or, "or", 1),
        tok(TokenType::Null, "null", 1),
        tok(TokenType::Eof, "", 1),
    ];
    assert_eq!(result, expected);
}

#[test]
fn lone_quote_is_unterminated() {
    let scanner = Scanner::new(String::from("\""));
    let result = scanner.scan_tokens();
    assert!(result.is_err());
}
