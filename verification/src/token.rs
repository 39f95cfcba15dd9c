//! Token model: the closed set of lexical categories, the literal-value
//! variant attached to string and number tokens, and the immutable token
//! record carrying category, lexeme text, optional literal, source line and
//! character span.

use vstd::prelude::*;

verus! {

/// The closed enumeration of lexical categories.
#[derive(Debug, Clone, Copy, PartialEq, Eq, Structural)]
pub enum TokenType {
    // Single-character tokens.
    LeftParen,
    RightParen,
    LeftBrace,
    RightBrace,
    Comma,
    Dot,
    Minus,
    Plus,
    Semicolon,
    Slash,
    Star,
    // One or two character tokens.
    Bang,
    BangEqual,
    /// A single `=`.
    Assign,
    /// A double `==`.
    Equals,
    Greater,
    GreaterEqual,
    Less,
    LessEqual,
    // Literals.
    Identifier,
    String,
    Number,
    // Keywords.
    And,
    Class,
    Else,
    False,
    Fun,
    For,
    If,
    Nil,
    Or,
    Print,
    Return,
    Super,
    This,
    True,
    Var,
    While,
    /// The end-of-input sentinel.
    EOF,
}

/// A literal value attached to a token. A number literal carries the exact
/// digit run it was scanned from (an ASCII decimal, optionally with one
/// fractional part); decoding that text into a machine float is left to
/// unverified callers.
#[derive(Debug, PartialEq)]
pub enum Object {
    Num(String),
    Str(String),
    Nil,
    True,
    False,
}

/// Mathematical model of a literal value: the same variants over `Seq<char>`.
pub ghost enum ObjectModel {
    Num(Seq<char>),
    Str(Seq<char>),
    Nil,
    True,
    False,
}

impl View for Object {
    type V = ObjectModel;

    open spec fn view(&self) -> ObjectModel {
        match self {
            Object::Num(s) => ObjectModel::Num(s@),
            Object::Str(s) => ObjectModel::Str(s@),
            Object::Nil => ObjectModel::Nil,
            Object::True => ObjectModel::True,
            Object::False => ObjectModel::False,
        }
    }
}

/// A classified, positioned unit of lexical output.
#[derive(Debug, PartialEq)]
pub struct Token {
    pub ttype: TokenType,
    pub lexeme: String,
    pub literal: Option<Object>,
    pub line: usize,
    /// Half-open `[start, current)` character range over the source buffer.
    pub span: (usize, usize),
}

/// Mathematical model of a token: the same fields over `Seq<char>` and `int`.
pub ghost struct TokenModel {
    pub ttype: TokenType,
    pub lexeme: Seq<char>,
    pub literal: Option<ObjectModel>,
    pub line: int,
    pub span: (int, int),
}

impl View for Token {
    type V = TokenModel;

    open spec fn view(&self) -> TokenModel {
        TokenModel {
            ttype: self.ttype,
            lexeme: self.lexeme@,
            literal: match self.literal {
                Some(o) => Some(o@),
                None => None,
            },
            line: self.line as int,
            span: (self.span.0 as int, self.span.1 as int),
        }
    }
}

/// The model of the end-of-input sentinel: empty lexeme, no literal, and an
/// empty span at the given position.
pub open spec fn eof_model(line: int, at: int) -> TokenModel {
    TokenModel {
        ttype: TokenType::EOF,
        lexeme: Seq::empty(),
        literal: None,
        line,
        span: (at, at),
    }
}

impl Token {
    /// Builds a token record from its parts.
    pub fn new(
        ttype: TokenType,
        lexeme: String,
        literal: Option<Object>,
        line: usize,
        span: (usize, usize),
    ) -> (t: Token)
        ensures
            t.ttype == ttype,
            t.lexeme == lexeme,
            t.literal == literal,
            t.line == line,
            t.span == span,
    {
        Token { ttype, lexeme, literal, line, span }
    }

    /// Builds the end-of-input sentinel for the given line, with an empty
    /// span at position `at`.
    pub fn eof(line: usize, at: usize) -> (t: Token)
        ensures
            t@ == eof_model(line as int, at as int),
    {
        Token {
            ttype: TokenType::EOF,
            lexeme: String::new(),
            literal: None,
            line,
            span: (at, at),
        }
    }
}

} // verus!
