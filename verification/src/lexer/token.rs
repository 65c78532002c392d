//! Tokens of the Mux language.

use crate::lexer::span::Span;
use vstd::prelude::*;

verus! {

/// A floating-point literal in decimal notation, without digit separators.
#[derive(Debug, Clone, PartialEq, Eq)]
pub struct FloatLiteral {
    pub text: String,
}

/// A token with its type and source location.
#[derive(Debug, Clone, PartialEq, Eq)]
pub struct Token {
    pub token_type: TokenType,
    pub span: Span,
}

/// All possible token types in the Mux language.
#[derive(Debug, Clone, PartialEq, Eq)]
pub enum TokenType {
    // Keywords
    Auto,
    Func,
    Returns,
    Return,
    If,
    Else,
    For,
    While,
    Match,
    Const,
    Class,
    Interface,
    Enum,
    Import,
    Is,
    As,
    In,
    Break,
    Continue,
    NoneKeyword,
    Common,
    Where,

    // Delimiters
    OpenParen,
    CloseParen,
    OpenBrace,
    CloseBrace,
    OpenBracket,
    CloseBracket,
    Dot,
    DotDot,
    Comma,
    Colon,

    // Operators
    Eq,
    Plus,
    Minus,
    Star,
    StarStar,
    Slash,
    Percent,
    Lt,
    Gt,
    Le,
    Ge,
    EqEq,
    NotEq,
    Bang,
    Incr,
    Decr,
    PlusEq,
    MinusEq,
    StarEq,
    SlashEq,
    PercentEq,
    And,
    Or,
    Ref,

    // Literals
    Int(i64),
    Float(FloatLiteral),
    Bool(bool),
    Char(char),
    Str(String),
    Underscore,

    // Identifiers
    Id(String),

    // Special
    Eof,
    NewLine,

    // Comments
    LineComment(String),
    MultilineComment(String),
}

/// A token type as a mathematical value: the five types that carry text by
/// their characters, and every other type as it is.
pub enum Lexeme {
    Float(Seq<char>),
    Str(Seq<char>),
    Id(Seq<char>),
    LineComment(Seq<char>),
    MultilineComment(Seq<char>),
    Plain(TokenType),
}

/// A token as a mathematical value.
pub struct TokenModel {
    pub kind: Lexeme,
    pub span: Span,
}

impl View for TokenType {
    type V = Lexeme;

    open spec fn view(&self) -> Lexeme {
        match *self {
            TokenType::Float(f) => Lexeme::Float(f.text@),
            TokenType::Str(s) => Lexeme::Str(s@),
            TokenType::Id(s) => Lexeme::Id(s@),
            TokenType::LineComment(s) => Lexeme::LineComment(s@),
            TokenType::MultilineComment(s) => Lexeme::MultilineComment(s@),
            _ => Lexeme::Plain(*self),
        }
    }
}

impl View for Token {
    type V = TokenModel;

    open spec fn view(&self) -> TokenModel {
        TokenModel { kind: self.token_type@, span: self.span }
    }
}

impl Token {
    #[must_use]
    pub fn new(token: TokenType, span: Span) -> (r: Token)
        ensures
            r == (Token { token_type: token, span }),
    {
        Token { token_type: token, span }
    }
}

} // verus!
