//! Token kinds and tokens produced by the lexer.
use vstd::prelude::*;

verus! {

/// The kind of a lexical token.
#[derive(Debug, Clone, Copy, PartialEq, Eq, Structural)]
pub enum TokenType {
    LParen,
    RParen,
    Comma,
    Semicolon,
    Plus,
    Minus,
    Star,
    Slash,
    Colon,
    Gt,
    Lt,
    Eq,
    ColonAssign,
    GtEq,
    LtEq,
    NotEq,
    Identifier,
    Number,
    String,
    If,
    Then,
    Else,
    And,
    Or,
    Not,
    Illegal,
    Eof,
}

/// A token: its kind, the source text it was read from, and the line and
/// column at which it starts.
#[derive(Debug, Clone)]
pub struct Token {
    pub token_type: TokenType,
    pub lexeme: String,
    pub line: usize,
    pub column: usize,
}

/// The mathematical value of a token.
pub struct SpecToken {
    pub kind: TokenType,
    pub lexeme: Seq<char>,
    pub line: int,
    pub column: int,
}

impl View for Token {
    type V = SpecToken;

    open spec fn view(&self) -> SpecToken {
        SpecToken {
            kind: self.token_type,
            lexeme: self.lexeme@,
            line: self.line as int,
            column: self.column as int,
        }
    }
}

/// The value of an optional token.
pub open spec fn opt_token_view(o: Option<&Token>) -> Option<SpecToken> {
    match o {
        Some(t) => Some(t@),
        None => None,
    }
}

impl Token {
    pub fn new(token_type: TokenType, lexeme: String, line: usize, column: usize) -> (t: Self)
        ensures
            t.token_type == token_type,
            t.lexeme == lexeme,
            t.line == line,
            t.column == column,
    {
        Token { token_type, lexeme, line, column }
    }
}

} // verus!
