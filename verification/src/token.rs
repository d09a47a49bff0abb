//! The token vocabulary shared by the scanner and the compiler.

use vstd::prelude::*;

verus! {

/// Every kind of token the scanner can produce, including the layout tokens
/// (`Indent`, `Dedent`, `NewLine`) synthesised from whitespace and the
/// `Error` / `Eof` sentinels.
#[derive(Clone, Copy, PartialEq, Eq, Structural, Debug)]
pub enum TokenType {
    LeftParen,
    RightParen,
    Indent,
    Dedent,
    NewLine,
    Comma,
    Minus,
    Plus,
    Colon,
    Slash,
    Star,
    Bang,
    BangEqual,
    Equal,
    EqualEqual,
    Greater,
    GreaterEqual,
    Less,
    LessEqual,
    Identifier,
    String,
    Number,
    And,
    Else,
    False,
    For,
    Fn,
    If,
    Null,
    Or,
    Return,
    True,
    Var,
    While,
    Error,
    Eof,
}

/// A token: its kind plus the span of its lexeme in the source buffer.
/// `start` and `length` are byte offsets; `line` is 1-based.
#[derive(Clone, Copy, PartialEq, Eq, Structural, Debug)]
pub struct Token {
    pub token_type: TokenType,
    /// Index of the first byte of the lexeme in the source.
    pub start: usize,
    /// Length of the lexeme in bytes.
    pub length: usize,
    pub line: usize,
}

impl Token {
    pub fn new(token_type: TokenType, start: usize, length: usize, line: usize) -> (t: Token)
        ensures
            t == (Token { token_type, start, length, line }),
    {
        Token { token_type, start, length, line }
    }
}

} // verus!
