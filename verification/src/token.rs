//! Tokens, as the scanner produces them and the parser consumes them.

use vstd::prelude::*;

verus! {

/// The closed set of token kinds.  A number literal carries its source
/// text; the embedder turns that text into the number's bit pattern when it
/// builds the compiler's number table (see [`crate::compiler::CompileEnv`]).
#[derive(Debug, PartialEq, Clone)]
pub enum TokenType {
    LeftParen,
    RightParen,
    LeftBrace,
    RightBrace,
    Comma,
    Dot,
    Minus,
    Plus,
    Semicolon,
    Slash,
    Star,
    Bang,
    BangEqual,
    Equal,
    EqualEqual,
    Greater,
    GreaterEqual,
    Less,
    LessEqual,
    // literals
    Identifier(String),
    Number(String),
    Str(String),
    // keywords
    And,
    Not,
    Struct,
    Else,
    False,
    Fun,
    For,
    If,
    Null,
    Or,
    Print,
    Return,
    Super,
    Slf,  // `self` is a reserved keyword
    True,
    Let,
    While,
    // EOF
    Eof,
}

/// One token: its kind, the exact source text it covers, and the line it
/// begins on.
#[derive(Debug, PartialEq, Clone)]
pub struct Token {
    pub typ: TokenType,
    pub lexeme: String,
    pub line: u16,
}

} // verus!
