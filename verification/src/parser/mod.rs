//! The parser: from tokens to the syntax tree.

pub mod class_laws;
pub mod cursor;
pub mod describe;
pub mod description_laws;
pub mod error;
pub mod expressions;
pub mod grammar;
pub mod precedence_laws;
pub mod recovery_laws;
pub mod rule_laws;
pub mod shape_laws;
pub mod state;
pub mod statements;
pub mod type_grammar;
pub mod type_laws;
pub mod types;

pub use self::cursor::Parser;
pub use self::error::{ParserError, ParserResult};
