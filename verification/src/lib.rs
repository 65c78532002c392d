//! The Mux compiler's language front end and diagnostics.

pub mod ast;
pub mod codegen;
pub mod diagnostic;
pub mod driver;
pub mod lexer;
pub mod lines;
pub mod module_laws;
pub mod module_resolver;
pub mod parser;
pub mod paths;
pub mod semantics;
pub mod source;
pub mod syntax;
pub mod table;
pub mod table_laws;
pub mod text;
