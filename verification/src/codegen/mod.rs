//! The parts of code generation that decide, without emitting code.

pub mod arm_laws;
pub mod constraint_laws;
pub mod debug_text;
pub mod declare;
pub mod enum_laws;
pub mod enum_matching;
pub mod generator;
pub mod instances;
pub mod layout;
pub mod lookup_laws;
pub mod loop_laws;
pub mod loops;
pub mod match_laws;
pub mod matching;
pub mod meaning;
pub mod naming;
pub mod naming_law;
pub mod nested;
pub mod ownership_laws;
pub mod patterns;
pub mod resolution;
pub mod returning;
pub mod scopes;
pub mod statement_laws;
pub mod statements;
pub mod steps;
pub mod substitution;
pub mod type_laws;
pub mod type_nodes;
pub mod value_laws;
pub mod where_clause;
