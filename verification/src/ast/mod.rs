//! The syntax tree.

pub mod nodes;
pub mod operator_laws;
pub mod operators;
pub mod tree;

pub use self::nodes::{
    AstNode, EnumVariant, EnumVariantField, ExpressionKind, ExpressionNode, Field, FunctionNode,
    ImportSpec, LiteralNode, MatchArm, Param, PatternNode, StatementKind, StatementNode, TraitBound,
    TraitRef, TypeKind, TypeNode, TypeParam, WhereClause,
};
pub use self::operators::{combine, BinaryOp, ParseError, Precedence, PrimitiveType, UnaryOp};
