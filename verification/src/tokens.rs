//! Tokens: kind, lexeme, literal payload and source line.

use vstd::prelude::*;

verus! {

/// The kind of a token.
#[derive(Debug, Clone, Copy, PartialEq, Eq, Structural)]
pub enum TokenType {
    // Single-character tokens.
    LeftParen,
    RightParen,
    LeftBrace,
    RightBrace,
    Comma,
    Dot,
    Minus,
    Plus,
    Semicolon,
    Slash,
    Star,
    // One or two character tokens.
    Bang,
    BangEqual,
    Equal,
    EqualEqual,
    Greater,
    GreaterEqual,
    Less,
    LessEqual,
    // Literals.
    Identifier,
    String,
    Number,
    // Keywords.
    And,
    Class,
    Else,
    False,
    Fun,
    For,
    If,
    Nil,
    Or,
    Print,
    Return,
    Super,
    This,
    True,
    Var,
    While,
    Eof,
}

/// The literal payload of a token. A number is held as its decimal text,
/// exactly as written in the source.
#[derive(Debug, PartialEq)]
pub enum LiteralTypes {
    String(String),
    Number(String),
    Bool(bool),
    Nil,
}

/// The mathematical value of a literal payload.
pub enum LiteralView {
    String(Seq<char>),
    Number(Seq<char>),
    Bool(bool),
    Nil,
}

impl View for LiteralTypes {
    type V = LiteralView;

    open spec fn view(&self) -> LiteralView {
        match self {
            LiteralTypes::String(s) => LiteralView::String(s@),
            LiteralTypes::Number(s) => LiteralView::Number(s@),
            LiteralTypes::Bool(b) => LiteralView::Bool(*b),
            LiteralTypes::Nil => LiteralView::Nil,
        }
    }
}

impl Clone for LiteralTypes {
    fn clone(&self) -> (r: Self)
        ensures
            r == *self,
    {
        match self {
            LiteralTypes::String(s) => LiteralTypes::String(s.clone()),
            LiteralTypes::Number(s) => LiteralTypes::Number(s.clone()),
            LiteralTypes::Bool(b) => LiteralTypes::Bool(*b),
            LiteralTypes::Nil => LiteralTypes::Nil,
        }
    }
}

/// A token of the source text.
#[derive(Debug, PartialEq)]
pub struct Token {
    pub token_type: TokenType,
    pub lexeme: String,
    pub literal: LiteralTypes,
    pub line: i32,
}

/// The mathematical value of a token.
pub struct TokenView {
    pub token_type: TokenType,
    pub lexeme: Seq<char>,
    pub literal: LiteralView,
    pub line: int,
}

impl View for Token {
    type V = TokenView;

    open spec fn view(&self) -> TokenView {
        TokenView {
            token_type: self.token_type,
            lexeme: self.lexeme@,
            literal: self.literal@,
            line: self.line as int,
        }
    }
}

impl Clone for Token {
    fn clone(&self) -> (r: Self)
        ensures
            r == *self,
    {
        Token {
            token_type: self.token_type,
            lexeme: self.lexeme.clone(),
            literal: self.literal.clone(),
            line: self.line,
        }
    }
}

/// The views of a sequence of tokens, in order.
pub open spec fn tokens_view(tokens: Seq<Token>) -> Seq<TokenView> {
    Seq::new(tokens.len(), |i: int| tokens[i]@)
}

impl Token {
    pub fn new(token_type: TokenType, lexeme: String, literal: LiteralTypes, line: i32) -> (r:
        Self)
        ensures
            r.token_type == token_type,
            r.lexeme == lexeme,
            r.literal == literal,
            r.line == line,
    {
        Self { token_type, lexeme, literal, line }
    }

    /// An identifier token: its literal payload is its own name.
    pub fn new_identifier(lexeme: String, line: i32) -> (r: Self)
        ensures
            r@ == (TokenView {
                token_type: TokenType::Identifier,
                lexeme: lexeme@,
                literal: LiteralView::String(lexeme@),
                line: line as int,
            }),
    {
        Self {
            token_type: TokenType::Identifier,
            lexeme: lexeme.clone(),
            literal: LiteralTypes::String(lexeme),
            line,
        }
    }

    /// A string token from a lexeme that includes the two quotes: its
    /// literal payload is the text between them.
    pub fn new_string(lexeme: String, line: i32) -> (r: Self)
        requires
            lexeme@.len() >= 2,
        ensures
            r@ == (TokenView {
                token_type: TokenType::String,
                lexeme: lexeme@,
                literal: LiteralView::String(lexeme@.subrange(1, lexeme@.len() - 1)),
                line: line as int,
            }),
    {
        let n = lexeme.as_str().unicode_len();
        let inner = lexeme.as_str().substring_char(1, n - 1).to_owned();
        Self { token_type: TokenType::String, lexeme, literal: LiteralTypes::String(inner), line }
    }

    /// A number token: its literal payload is the decimal text of the lexeme.
    pub fn new_number(lexeme: String, line: i32) -> (r: Self)
        ensures
            r@ == (TokenView {
                token_type: TokenType::Number,
                lexeme: lexeme@,
                literal: LiteralView::Number(lexeme@),
                line: line as int,
            }),
    {
        Self {
            token_type: TokenType::Number,
            lexeme: lexeme.clone(),
            literal: LiteralTypes::Number(lexeme),
            line,
        }
    }
}

} // verus!
