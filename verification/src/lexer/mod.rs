//! Lexical analysis: from source text to tokens.

pub mod error;
pub mod grammar;
pub mod literal_laws;
pub mod literals;
pub mod number_laws;
pub mod refusal_laws;
pub mod scanner;
pub mod slash;
pub mod span;
pub mod token;
pub mod token_laws;

pub use self::error::LexerError;
pub use self::scanner::Lexer;
pub use self::span::Span;
pub use self::token::{FloatLiteral, Token, TokenType};
