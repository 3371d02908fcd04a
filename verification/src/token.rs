//! Lexical tokens: the parser's input.  Tokens are produced by an external
//! lexer and only consumed here; a token exposes its kind, source lexeme,
//! optional literal value, and source line.

use vstd::prelude::*;

verus! {

/// The closed set of lexical token kinds the parser dispatches on.
#[derive(Clone, Copy, Debug, PartialEq, Eq, Structural)]
pub enum TokenType {
    LeftParen,
    RightParen,
    LeftBrace,
    RightBrace,
    Comma,
    Dot,
    Minus,
    Plus,
    SemiColon,
    Slash,
    Star,
    Bang,
    BangEqual,
    Assign,
    Equals,
    Greater,
    GreaterEqual,
    Less,
    LessEqual,
    Identifier,
    String,
    Number,
    And,
    Break,
    Class,
    Else,
    False,
    Fn,
    For,
    If,
    Nil,
    Or,
    Print,
    Return,
    Super,
    This,
    True,
    Let,
    While,
    Annotation,
    NumberType,
    StringType,
    BoolType,
    Eof,
}

/// A literal value attached to a token or IR node.  Numbers keep their
/// source spelling; evaluation is out of scope for this front end.
#[derive(Debug, PartialEq, Eq)]
pub enum Object {
    Str(String),
    Num(String),
    Bool(bool),
    Nil,
}

impl Object {
    /// The literal's rendering as text.
    pub open spec fn spec_text(self) -> Seq<char> {
        match self {
            Object::Str(s) => s@,
            Object::Num(s) => s@,
            Object::Bool(b) => if b {
                "true"@
            } else {
                "false"@
            },
            Object::Nil => "nil"@,
        }
    }

    /// Renders the literal as text.
    pub fn to_string(&self) -> (r: String)
        ensures
            r@ == self.spec_text(),
    {
        match self {
            Object::Str(s) => s.clone(),
            Object::Num(s) => s.clone(),
            Object::Bool(b) => if *b {
                String::from_str("true")
            } else {
                String::from_str("false")
            },
            Object::Nil => String::from_str("nil"),
        }
    }

    /// A structurally equal copy.
    pub fn dup(&self) -> (r: Object)
        ensures
            r == *self,
    {
        match self {
            Object::Str(s) => Object::Str(s.clone()),
            Object::Num(s) => Object::Num(s.clone()),
            Object::Bool(b) => Object::Bool(*b),
            Object::Nil => Object::Nil,
        }
    }
}

/// One lexical token: kind, source lexeme, optional literal, source line.
#[derive(Debug, PartialEq, Eq)]
pub struct Token {
    pub token_type: TokenType,
    pub lexeme: String,
    pub literal: Option<Object>,
    pub line: usize,
}

impl Token {
    /// Builds a token from its parts.
    pub fn new(token_type: TokenType, lexeme: String, literal: Option<Object>, line: usize) -> (r:
        Token)
        ensures
            r.token_type == token_type,
            r.lexeme == lexeme,
            r.literal == literal,
            r.line == line,
    {
        Token { token_type, lexeme, literal, line }
    }

    /// The token's kind.
    pub fn token_type(&self) -> (r: TokenType)
        ensures
            r == self.token_type,
    {
        self.token_type
    }

    /// Whether the token has the given kind.
    pub fn is(&self, ttype: TokenType) -> (r: bool)
        ensures
            r == (self.token_type == ttype),
    {
        self.token_type == ttype
    }

    /// The token's lexeme as an owned string.
    pub fn as_string(&self) -> (r: String)
        ensures
            r@ == self.lexeme@,
    {
        self.lexeme.clone()
    }

    /// A structurally equal copy.
    pub fn dup(&self) -> (r: Token)
        ensures
            r == *self,
    {
        Token {
            token_type: self.token_type,
            lexeme: self.lexeme.clone(),
            literal: match &self.literal {
                Some(o) => Some(o.dup()),
                None => None,
            },
            line: self.line,
        }
    }
}

} // verus!
