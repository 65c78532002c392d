//! The nodes of the syntax tree.

use crate::ast::operators::{BinaryOp, PrimitiveType, UnaryOp};
use crate::lexer::{FloatLiteral, Span};
use vstd::prelude::*;

verus! {

/// A type with its place.
#[derive(Debug, PartialEq)]
pub struct TypeNode {
    pub kind: TypeKind,
    pub span: Span,
}

/// An expression with its place.
#[derive(Debug, PartialEq)]
pub struct ExpressionNode {
    pub kind: ExpressionKind,
    pub span: Span,
}

/// A statement with its place.
#[derive(Debug, PartialEq)]
pub struct StatementNode {
    pub kind: StatementKind,
    pub span: Span,
}

/// A trait that a type parameter must have.
#[derive(Debug, PartialEq)]
pub struct TraitBound {
    pub name: String,
    pub type_params: Vec<TypeNode>,
    pub span: Span,
}

/// A trait that a class has.
#[derive(Debug, PartialEq)]
pub struct TraitRef {
    pub name: String,
    pub type_args: Vec<TypeNode>,
    pub span: Span,
}

/// A type parameter with its bounds.
#[derive(Debug, PartialEq)]
pub struct TypeParam {
    pub name: String,
    pub bounds: Vec<TraitBound>,
}

/// The predicates of a `where` block.
#[derive(Debug, PartialEq)]
pub struct WhereClause {
    pub predicates: Vec<ExpressionNode>,
    pub span: Span,
}

/// A parameter of a function or lambda.
#[derive(Debug, PartialEq)]
pub struct Param {
    pub name: String,
    pub type_: TypeNode,
    pub default_value: Option<ExpressionNode>,
}

/// A field of a class or interface.
#[derive(Debug, PartialEq)]
pub struct Field {
    pub name: String,
    pub type_: TypeNode,
    pub is_generic_param: bool,
    pub is_const: bool,
    pub default_value: Option<ExpressionNode>,
    pub where_clause: Option<WhereClause>,
}

/// A payload field of an enum variant, with its name where it has one.
#[derive(Debug, PartialEq)]
pub struct EnumVariantField {
    pub name: Option<String>,
    pub type_: TypeNode,
}

/// A variant of an enum.
#[derive(Debug, PartialEq)]
pub struct EnumVariant {
    pub name: String,
    pub data: Option<Vec<EnumVariantField>>,
    pub where_clause: Option<WhereClause>,
}

/// One arm of a match.
#[derive(Debug, PartialEq)]
pub struct MatchArm {
    pub pattern: PatternNode,
    pub guard: Option<ExpressionNode>,
    pub body: Vec<StatementNode>,
}

/// A key and its value in a map literal.
#[derive(Debug, PartialEq)]
pub struct MapEntry {
    pub key: ExpressionNode,
    pub value: ExpressionNode,
}

/// An imported item and its new name.
#[derive(Debug, PartialEq)]
pub struct ImportItem {
    pub name: String,
    pub alias: Option<String>,
}

/// A function.
#[derive(Debug, PartialEq)]
pub struct FunctionNode {
    pub name: String,
    pub type_params: Vec<TypeParam>,
    pub params: Vec<Param>,
    pub return_type: TypeNode,
    pub body: Vec<StatementNode>,
    pub span: Span,
    pub is_common: bool,
    pub where_clause: Option<WhereClause>,
}

/// The kinds of types.
#[derive(Debug, PartialEq)]
pub enum TypeKind {
    Primitive(PrimitiveType),
    Auto,
    Reference(Box<TypeNode>),
    List(Box<TypeNode>),
    MapOf(Box<TypeNode>, Box<TypeNode>),
    SetOf(Box<TypeNode>),
    Tuple(Box<TypeNode>, Box<TypeNode>),
    Function { params: Vec<TypeNode>, ret: Box<TypeNode> },
    TraitObject(Box<TypeNode>),
    Named(String, Vec<TypeNode>),
}

/// A literal value.
#[derive(Debug, PartialEq)]
pub enum LiteralNode {
    Integer(i64),
    Float(FloatLiteral),
    Boolean(bool),
    Char(char),
    String(String),
}

/// A match pattern.
#[derive(Debug, PartialEq)]
pub enum PatternNode {
    EnumVariant { name: String, args: Vec<PatternNode> },
    Identifier(String),
    Wildcard,
    List { elements: Vec<PatternNode>, rest: Option<Box<PatternNode>> },
    Literal(LiteralNode),
}

/// The kinds of expressions.
#[derive(Debug, PartialEq)]
pub enum ExpressionKind {
    Literal(LiteralNode),
    Identifier(String),
    NoneValue,
    Binary { left: Box<ExpressionNode>, op: BinaryOp, op_span: Span, right: Box<ExpressionNode> },
    Unary { op: UnaryOp, op_span: Span, expr: Box<ExpressionNode>, postfix: bool },
    Call { func: Box<ExpressionNode>, args: Vec<ExpressionNode> },
    FieldAccess { expr: Box<ExpressionNode>, field: String },
    ListAccess { expr: Box<ExpressionNode>, index: Box<ExpressionNode> },
    Slice { expr: Box<ExpressionNode>, start: Option<Box<ExpressionNode>>, end: Option<Box<ExpressionNode>> },
    ListLiteral(Vec<ExpressionNode>),
    SetLiteral(Vec<ExpressionNode>),
    MapLiteral { key_type: Box<TypeNode>, value_type: Box<TypeNode>, entries: Vec<MapEntry> },
    TupleLiteral(Vec<ExpressionNode>),
    If { cond: Box<ExpressionNode>, then_expr: Box<ExpressionNode>, else_expr: Box<ExpressionNode> },
    Lambda { params: Vec<Param>, return_type: TypeNode, body: Vec<StatementNode>, where_clause: Option<WhereClause> },
    GenericType(String, Vec<TypeNode>),
}

/// The kinds of statements.
#[derive(Debug, PartialEq)]
pub enum StatementKind {
    AutoDecl(String, TypeNode, ExpressionNode),
    TypedDecl(String, TypeNode, ExpressionNode),
    ConstDecl(String, TypeNode, ExpressionNode),
    UninitDecl(String, TypeNode),
    If { cond: ExpressionNode, then_block: Vec<StatementNode>, else_block: Option<Vec<StatementNode>> },
    While { cond: ExpressionNode, body: Vec<StatementNode> },
    For { var: String, var_type: TypeNode, iter: ExpressionNode, body: Vec<StatementNode> },
    Match { expr: ExpressionNode, arms: Vec<MatchArm> },
    Return(Option<ExpressionNode>),
    Break,
    Continue,
    Block(Vec<StatementNode>),
    Expression(ExpressionNode),
    Import { path: String, spec: ImportSpec },
    Function(Box<FunctionNode>),
}

/// What an import brings in.
#[derive(Debug, PartialEq)]
pub enum ImportSpec {
    Wildcard,
    Items { items: Vec<ImportItem> },
    Item { item: String, alias: Option<String> },
    Module { alias: Option<String> },
}

/// A top-level node.
#[derive(Debug, PartialEq)]
pub enum AstNode {
    Function(FunctionNode),
    Class { name: String, type_params: Vec<TypeParam>, traits: Vec<TraitRef>, fields: Vec<Field>, methods: Vec<FunctionNode>, where_clause: Option<WhereClause>, span: Span },
    Interface { name: String, type_params: Vec<TypeParam>, fields: Vec<Field>, methods: Vec<FunctionNode>, span: Span },
    Enum { name: String, type_params: Vec<TypeParam>, variants: Vec<EnumVariant>, span: Span },
    Statement(StatementNode),
}

} // verus!
