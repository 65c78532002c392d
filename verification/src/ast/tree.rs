//! The syntax tree as mathematical values.

use crate::ast::nodes::{
    AstNode, EnumVariant, EnumVariantField, ExpressionKind, ExpressionNode, Field, FunctionNode, ImportItem, ImportSpec, LiteralNode, MapEntry, MatchArm, Param, PatternNode, StatementKind, StatementNode, TraitBound, TraitRef, TypeKind, TypeNode, TypeParam, WhereClause,
};
use crate::ast::operators::{BinaryOp, PrimitiveType, UnaryOp};
use crate::lexer::Span;
use vstd::prelude::*;

verus! {

/// A type with its place.
pub struct TypeTree {
    pub kind: TypeShape,
    pub span: Span,
}

impl TypeNode {
    #[verifier::opaque]
    pub open spec fn tree(self) -> TypeTree
        decreases self,
    {
        TypeTree {
            kind: self.kind.tree(),
            span: self.span,
        }
    }
}

/// An expression with its place.
pub struct ExprTree {
    pub kind: ExprShape,
    pub span: Span,
}

impl ExpressionNode {
    #[verifier::opaque]
    pub open spec fn tree(self) -> ExprTree
        decreases self,
    {
        ExprTree {
            kind: self.kind.tree(),
            span: self.span,
        }
    }
}

/// A statement with its place.
pub struct StmtTree {
    pub kind: StmtShape,
    pub span: Span,
}

impl StatementNode {
    #[verifier::opaque]
    pub open spec fn tree(self) -> StmtTree
        decreases self,
    {
        StmtTree {
            kind: self.kind.tree(),
            span: self.span,
        }
    }
}

/// A trait that a type parameter must have.
pub struct TraitBoundTree {
    pub name: Seq<char>,
    pub type_params: Seq<TypeTree>,
    pub span: Span,
}

impl TraitBound {
    #[verifier::opaque]
    pub open spec fn tree(self) -> TraitBoundTree
        decreases self,
    {
        TraitBoundTree {
            name: self.name@,
            type_params: types_of(self.type_params@),
            span: self.span,
        }
    }
}

/// A trait that a class has.
pub struct TraitRefTree {
    pub name: Seq<char>,
    pub type_args: Seq<TypeTree>,
    pub span: Span,
}

impl TraitRef {
    #[verifier::opaque]
    pub open spec fn tree(self) -> TraitRefTree
        decreases self,
    {
        TraitRefTree {
            name: self.name@,
            type_args: types_of(self.type_args@),
            span: self.span,
        }
    }
}

/// A type parameter with its bounds.
pub struct TypeParamTree {
    pub name: Seq<char>,
    pub bounds: Seq<TraitBoundTree>,
}

impl TypeParam {
    #[verifier::opaque]
    pub open spec fn tree(self) -> TypeParamTree
        decreases self,
    {
        TypeParamTree {
            name: self.name@,
            bounds: trait_bounds_of(self.bounds@),
        }
    }
}

/// The predicates of a `where` block.
pub struct WhereClauseTree {
    pub predicates: Seq<ExprTree>,
    pub span: Span,
}

impl WhereClause {
    #[verifier::opaque]
    pub open spec fn tree(self) -> WhereClauseTree
        decreases self,
    {
        WhereClauseTree {
            predicates: exprs_of(self.predicates@),
            span: self.span,
        }
    }
}

/// A parameter of a function or lambda.
pub struct ParamTree {
    pub name: Seq<char>,
    pub type_: TypeTree,
    pub default_value: Option<ExprTree>,
}

impl Param {
    #[verifier::opaque]
    pub open spec fn tree(self) -> ParamTree
        decreases self,
    {
        ParamTree {
            name: self.name@,
            type_: self.type_.tree(),
            default_value: match self.default_value { Some(x) => Some(x.tree()), None => None },
        }
    }
}

/// A field of a class or interface.
pub struct FieldTree {
    pub name: Seq<char>,
    pub type_: TypeTree,
    pub is_generic_param: bool,
    pub is_const: bool,
    pub default_value: Option<ExprTree>,
    pub where_clause: Option<WhereClauseTree>,
}

impl Field {
    #[verifier::opaque]
    pub open spec fn tree(self) -> FieldTree
        decreases self,
    {
        FieldTree {
            name: self.name@,
            type_: self.type_.tree(),
            is_generic_param: self.is_generic_param,
            is_const: self.is_const,
            default_value: match self.default_value { Some(x) => Some(x.tree()), None => None },
            where_clause: match self.where_clause { Some(x) => Some(x.tree()), None => None },
        }
    }
}

/// A payload field of an enum variant, with its name where it has one.
pub struct EnumVariantFieldTree {
    pub name: Option<Seq<char>>,
    pub type_: TypeTree,
}

impl EnumVariantField {
    #[verifier::opaque]
    pub open spec fn tree(self) -> EnumVariantFieldTree
        decreases self,
    {
        EnumVariantFieldTree {
            name: match self.name { Some(x) => Some(x@), None => None },
            type_: self.type_.tree(),
        }
    }
}

/// A variant of an enum.
pub struct EnumVariantTree {
    pub name: Seq<char>,
    pub data: Option<Seq<EnumVariantFieldTree>>,
    pub where_clause: Option<WhereClauseTree>,
}

impl EnumVariant {
    #[verifier::opaque]
    pub open spec fn tree(self) -> EnumVariantTree
        decreases self,
    {
        EnumVariantTree {
            name: self.name@,
            data: match self.data { Some(x) => Some(enum_variant_fields_of(x@)), None => None },
            where_clause: match self.where_clause { Some(x) => Some(x.tree()), None => None },
        }
    }
}

/// One arm of a match.
pub struct MatchArmTree {
    pub pattern: PatternTree,
    pub guard: Option<ExprTree>,
    pub body: Seq<StmtTree>,
}

impl MatchArm {
    #[verifier::opaque]
    pub open spec fn tree(self) -> MatchArmTree
        decreases self,
    {
        MatchArmTree {
            pattern: self.pattern.tree(),
            guard: match self.guard { Some(x) => Some(x.tree()), None => None },
            body: stmts_of(self.body@),
        }
    }
}

/// A key and its value in a map literal.
pub struct MapEntryTree {
    pub key: ExprTree,
    pub value: ExprTree,
}

impl MapEntry {
    #[verifier::opaque]
    pub open spec fn tree(self) -> MapEntryTree
        decreases self,
    {
        MapEntryTree {
            key: self.key.tree(),
            value: self.value.tree(),
        }
    }
}

/// An imported item and its new name.
pub struct ImportItemTree {
    pub name: Seq<char>,
    pub alias: Option<Seq<char>>,
}

impl ImportItem {
    #[verifier::opaque]
    pub open spec fn tree(self) -> ImportItemTree
        decreases self,
    {
        ImportItemTree {
            name: self.name@,
            alias: match self.alias { Some(x) => Some(x@), None => None },
        }
    }
}

/// A function.
pub struct FunctionTree {
    pub name: Seq<char>,
    pub type_params: Seq<TypeParamTree>,
    pub params: Seq<ParamTree>,
    pub return_type: TypeTree,
    pub body: Seq<StmtTree>,
    pub span: Span,
    pub is_common: bool,
    pub where_clause: Option<WhereClauseTree>,
}

impl FunctionNode {
    #[verifier::opaque]
    pub open spec fn tree(self) -> FunctionTree
        decreases self,
    {
        FunctionTree {
            name: self.name@,
            type_params: type_params_of(self.type_params@),
            params: params_of(self.params@),
            return_type: self.return_type.tree(),
            body: stmts_of(self.body@),
            span: self.span,
            is_common: self.is_common,
            where_clause: match self.where_clause { Some(x) => Some(x.tree()), None => None },
        }
    }
}

/// The kinds of types.
pub enum TypeShape {
    Primitive(PrimitiveType),
    Auto,
    Reference(Box<TypeTree>),
    List(Box<TypeTree>),
    MapOf(Box<TypeTree>, Box<TypeTree>),
    SetOf(Box<TypeTree>),
    Tuple(Box<TypeTree>, Box<TypeTree>),
    Function { params: Seq<TypeTree>, ret: Box<TypeTree> },
    TraitObject(Box<TypeTree>),
    Named(Seq<char>, Seq<TypeTree>),
}

impl TypeKind {
    #[verifier::opaque]
    pub open spec fn tree(self) -> TypeShape
        decreases self,
    {
        match self {
            TypeKind::Primitive(a) => TypeShape::Primitive(a),
            TypeKind::Auto => TypeShape::Auto,
            TypeKind::Reference(a) => TypeShape::Reference(Box::new((*a).tree())),
            TypeKind::List(a) => TypeShape::List(Box::new((*a).tree())),
            TypeKind::MapOf(a, b) => TypeShape::MapOf(Box::new((*a).tree()), Box::new((*b).tree())),
            TypeKind::SetOf(a) => TypeShape::SetOf(Box::new((*a).tree())),
            TypeKind::Tuple(a, b) => TypeShape::Tuple(Box::new((*a).tree()), Box::new((*b).tree())),
            TypeKind::Function { params, ret } => TypeShape::Function {
                params: types_of(params@),
                ret: Box::new((*ret).tree()),
            },
            TypeKind::TraitObject(a) => TypeShape::TraitObject(Box::new((*a).tree())),
            TypeKind::Named(a, b) => TypeShape::Named(a@, types_of(b@)),
        }
    }
}

/// A literal value.
pub enum LiteralTree {
    Integer(i64),
    Float(Seq<char>),
    Boolean(bool),
    Char(char),
    String(Seq<char>),
}

impl LiteralNode {
    pub open spec fn tree(self) -> LiteralTree
        decreases self,
    {
        match self {
            LiteralNode::Integer(a) => LiteralTree::Integer(a),
            LiteralNode::Float(a) => LiteralTree::Float(a.text@),
            LiteralNode::Boolean(a) => LiteralTree::Boolean(a),
            LiteralNode::Char(a) => LiteralTree::Char(a),
            LiteralNode::String(a) => LiteralTree::String(a@),
        }
    }
}

/// A match pattern.
pub enum PatternTree {
    EnumVariant { name: Seq<char>, args: Seq<PatternTree> },
    Identifier(Seq<char>),
    Wildcard,
    List { elements: Seq<PatternTree>, rest: Option<Box<PatternTree>> },
    Literal(LiteralTree),
}

impl PatternNode {
    #[verifier::opaque]
    pub open spec fn tree(self) -> PatternTree
        decreases self,
    {
        match self {
            PatternNode::EnumVariant { name, args } => PatternTree::EnumVariant {
                name: name@,
                args: patterns_of(args@),
            },
            PatternNode::Identifier(a) => PatternTree::Identifier(a@),
            PatternNode::Wildcard => PatternTree::Wildcard,
            PatternNode::List { elements, rest } => PatternTree::List {
                elements: patterns_of(elements@),
                rest: match rest { Some(x) => Some(Box::new((*x).tree())), None => None },
            },
            PatternNode::Literal(a) => PatternTree::Literal(a.tree()),
        }
    }
}

/// The kinds of expressions.
pub enum ExprShape {
    Literal(LiteralTree),
    Identifier(Seq<char>),
    NoneValue,
    Binary { left: Box<ExprTree>, op: BinaryOp, op_span: Span, right: Box<ExprTree> },
    Unary { op: UnaryOp, op_span: Span, expr: Box<ExprTree>, postfix: bool },
    Call { func: Box<ExprTree>, args: Seq<ExprTree> },
    FieldAccess { expr: Box<ExprTree>, field: Seq<char> },
    ListAccess { expr: Box<ExprTree>, index: Box<ExprTree> },
    Slice { expr: Box<ExprTree>, start: Option<Box<ExprTree>>, end: Option<Box<ExprTree>> },
    ListLiteral(Seq<ExprTree>),
    SetLiteral(Seq<ExprTree>),
    MapLiteral { key_type: Box<TypeTree>, value_type: Box<TypeTree>, entries: Seq<MapEntryTree> },
    TupleLiteral(Seq<ExprTree>),
    If { cond: Box<ExprTree>, then_expr: Box<ExprTree>, else_expr: Box<ExprTree> },
    Lambda { params: Seq<ParamTree>, return_type: TypeTree, body: Seq<StmtTree>, where_clause: Option<WhereClauseTree> },
    GenericType(Seq<char>, Seq<TypeTree>),
}

impl ExpressionKind {
    #[verifier::opaque]
    pub open spec fn tree(self) -> ExprShape
        decreases self,
    {
        match self {
            ExpressionKind::Literal(a) => ExprShape::Literal(a.tree()),
            ExpressionKind::Identifier(a) => ExprShape::Identifier(a@),
            ExpressionKind::NoneValue => ExprShape::NoneValue,
            ExpressionKind::Binary { left, op, op_span, right } => ExprShape::Binary {
                left: Box::new((*left).tree()),
                op: op,
                op_span: op_span,
                right: Box::new((*right).tree()),
            },
            ExpressionKind::Unary { op, op_span, expr, postfix } => ExprShape::Unary {
                op: op,
                op_span: op_span,
                expr: Box::new((*expr).tree()),
                postfix: postfix,
            },
            ExpressionKind::Call { func, args } => ExprShape::Call {
                func: Box::new((*func).tree()),
                args: exprs_of(args@),
            },
            ExpressionKind::FieldAccess { expr, field } => ExprShape::FieldAccess {
                expr: Box::new((*expr).tree()),
                field: field@,
            },
            ExpressionKind::ListAccess { expr, index } => ExprShape::ListAccess {
                expr: Box::new((*expr).tree()),
                index: Box::new((*index).tree()),
            },
            ExpressionKind::Slice { expr, start, end } => ExprShape::Slice {
                expr: Box::new((*expr).tree()),
                start: match start { Some(x) => Some(Box::new((*x).tree())), None => None },
                end: match end { Some(x) => Some(Box::new((*x).tree())), None => None },
            },
            ExpressionKind::ListLiteral(a) => ExprShape::ListLiteral(exprs_of(a@)),
            ExpressionKind::SetLiteral(a) => ExprShape::SetLiteral(exprs_of(a@)),
            ExpressionKind::MapLiteral { key_type, value_type, entries } => ExprShape::MapLiteral {
                key_type: Box::new((*key_type).tree()),
                value_type: Box::new((*value_type).tree()),
                entries: map_entrys_of(entries@),
            },
            ExpressionKind::TupleLiteral(a) => ExprShape::TupleLiteral(exprs_of(a@)),
            ExpressionKind::If { cond, then_expr, else_expr } => ExprShape::If {
                cond: Box::new((*cond).tree()),
                then_expr: Box::new((*then_expr).tree()),
                else_expr: Box::new((*else_expr).tree()),
            },
            ExpressionKind::Lambda { params, return_type, body, where_clause } => ExprShape::Lambda {
                params: params_of(params@),
                return_type: return_type.tree(),
                body: stmts_of(body@),
                where_clause: match where_clause { Some(x) => Some(x.tree()), None => None },
            },
            ExpressionKind::GenericType(a, b) => ExprShape::GenericType(a@, types_of(b@)),
        }
    }
}

/// The kinds of statements.
pub enum StmtShape {
    AutoDecl(Seq<char>, TypeTree, ExprTree),
    TypedDecl(Seq<char>, TypeTree, ExprTree),
    ConstDecl(Seq<char>, TypeTree, ExprTree),
    UninitDecl(Seq<char>, TypeTree),
    If { cond: ExprTree, then_block: Seq<StmtTree>, else_block: Option<Seq<StmtTree>> },
    While { cond: ExprTree, body: Seq<StmtTree> },
    For { var: Seq<char>, var_type: TypeTree, iter: ExprTree, body: Seq<StmtTree> },
    Match { expr: ExprTree, arms: Seq<MatchArmTree> },
    Return(Option<ExprTree>),
    Break,
    Continue,
    Block(Seq<StmtTree>),
    Expression(ExprTree),
    Import { path: Seq<char>, spec: ImportSpecTree },
    Function(Box<FunctionTree>),
}

impl StatementKind {
    #[verifier::opaque]
    pub open spec fn tree(self) -> StmtShape
        decreases self,
    {
        match self {
            StatementKind::AutoDecl(a, b, c) => StmtShape::AutoDecl(a@, b.tree(), c.tree()),
            StatementKind::TypedDecl(a, b, c) => StmtShape::TypedDecl(a@, b.tree(), c.tree()),
            StatementKind::ConstDecl(a, b, c) => StmtShape::ConstDecl(a@, b.tree(), c.tree()),
            StatementKind::UninitDecl(a, b) => StmtShape::UninitDecl(a@, b.tree()),
            StatementKind::If { cond, then_block, else_block } => StmtShape::If {
                cond: cond.tree(),
                then_block: stmts_of(then_block@),
                else_block: match else_block { Some(x) => Some(stmts_of(x@)), None => None },
            },
            StatementKind::While { cond, body } => StmtShape::While {
                cond: cond.tree(),
                body: stmts_of(body@),
            },
            StatementKind::For { var, var_type, iter, body } => StmtShape::For {
                var: var@,
                var_type: var_type.tree(),
                iter: iter.tree(),
                body: stmts_of(body@),
            },
            StatementKind::Match { expr, arms } => StmtShape::Match {
                expr: expr.tree(),
                arms: match_arms_of(arms@),
            },
            StatementKind::Return(a) => StmtShape::Return(match a { Some(x) => Some(x.tree()), None => None }),
            StatementKind::Break => StmtShape::Break,
            StatementKind::Continue => StmtShape::Continue,
            StatementKind::Block(a) => StmtShape::Block(stmts_of(a@)),
            StatementKind::Expression(a) => StmtShape::Expression(a.tree()),
            StatementKind::Import { path, spec } => StmtShape::Import {
                path: path@,
                spec: spec.tree(),
            },
            StatementKind::Function(a) => StmtShape::Function(Box::new((*a).tree())),
        }
    }
}

/// What an import brings in.
pub enum ImportSpecTree {
    Wildcard,
    Items { items: Seq<ImportItemTree> },
    Item { item: Seq<char>, alias: Option<Seq<char>> },
    Module { alias: Option<Seq<char>> },
}

impl ImportSpec {
    pub open spec fn tree(self) -> ImportSpecTree
        decreases self,
    {
        match self {
            ImportSpec::Wildcard => ImportSpecTree::Wildcard,
            ImportSpec::Items { items } => ImportSpecTree::Items {
                items: import_items_of(items@),
            },
            ImportSpec::Item { item, alias } => ImportSpecTree::Item {
                item: item@,
                alias: match alias { Some(x) => Some(x@), None => None },
            },
            ImportSpec::Module { alias } => ImportSpecTree::Module {
                alias: match alias { Some(x) => Some(x@), None => None },
            },
        }
    }
}

/// A top-level node.
pub enum NodeTree {
    Function(FunctionTree),
    Class { name: Seq<char>, type_params: Seq<TypeParamTree>, traits: Seq<TraitRefTree>, fields: Seq<FieldTree>, methods: Seq<FunctionTree>, where_clause: Option<WhereClauseTree>, span: Span },
    Interface { name: Seq<char>, type_params: Seq<TypeParamTree>, fields: Seq<FieldTree>, methods: Seq<FunctionTree>, span: Span },
    Enum { name: Seq<char>, type_params: Seq<TypeParamTree>, variants: Seq<EnumVariantTree>, span: Span },
    Statement(StmtTree),
}

impl AstNode {
    #[verifier::opaque]
    pub open spec fn tree(self) -> NodeTree
        decreases self,
    {
        match self {
            AstNode::Function(a) => NodeTree::Function(a.tree()),
            AstNode::Class { name, type_params, traits, fields, methods, where_clause, span } => NodeTree::Class {
                name: name@,
                type_params: type_params_of(type_params@),
                traits: trait_refs_of(traits@),
                fields: fields_of(fields@),
                methods: functions_of(methods@),
                where_clause: match where_clause { Some(x) => Some(x.tree()), None => None },
                span: span,
            },
            AstNode::Interface { name, type_params, fields, methods, span } => NodeTree::Interface {
                name: name@,
                type_params: type_params_of(type_params@),
                fields: fields_of(fields@),
                methods: functions_of(methods@),
                span: span,
            },
            AstNode::Enum { name, type_params, variants, span } => NodeTree::Enum {
                name: name@,
                type_params: type_params_of(type_params@),
                variants: enum_variants_of(variants@),
                span: span,
            },
            AstNode::Statement(a) => NodeTree::Statement(a.tree()),
        }
    }
}

#[verifier::opaque]
pub open spec fn enum_variants_of(s: Seq<EnumVariant>) -> Seq<EnumVariantTree>
    decreases s,
{
    Seq::new(s.len(), |i: int| if 0 <= i < s.len() { s[i].tree() } else { arbitrary() })
}

#[verifier::opaque]
pub open spec fn enum_variant_fields_of(s: Seq<EnumVariantField>) -> Seq<EnumVariantFieldTree>
    decreases s,
{
    Seq::new(s.len(), |i: int| if 0 <= i < s.len() { s[i].tree() } else { arbitrary() })
}

#[verifier::opaque]
pub open spec fn exprs_of(s: Seq<ExpressionNode>) -> Seq<ExprTree>
    decreases s,
{
    Seq::new(s.len(), |i: int| if 0 <= i < s.len() { s[i].tree() } else { arbitrary() })
}

#[verifier::opaque]
pub open spec fn fields_of(s: Seq<Field>) -> Seq<FieldTree>
    decreases s,
{
    Seq::new(s.len(), |i: int| if 0 <= i < s.len() { s[i].tree() } else { arbitrary() })
}

#[verifier::opaque]
pub open spec fn functions_of(s: Seq<FunctionNode>) -> Seq<FunctionTree>
    decreases s,
{
    Seq::new(s.len(), |i: int| if 0 <= i < s.len() { s[i].tree() } else { arbitrary() })
}

#[verifier::opaque]
pub open spec fn import_items_of(s: Seq<ImportItem>) -> Seq<ImportItemTree>
    decreases s,
{
    Seq::new(s.len(), |i: int| if 0 <= i < s.len() { s[i].tree() } else { arbitrary() })
}

#[verifier::opaque]
pub open spec fn map_entrys_of(s: Seq<MapEntry>) -> Seq<MapEntryTree>
    decreases s,
{
    Seq::new(s.len(), |i: int| if 0 <= i < s.len() { s[i].tree() } else { arbitrary() })
}

#[verifier::opaque]
pub open spec fn match_arms_of(s: Seq<MatchArm>) -> Seq<MatchArmTree>
    decreases s,
{
    Seq::new(s.len(), |i: int| if 0 <= i < s.len() { s[i].tree() } else { arbitrary() })
}

#[verifier::opaque]
pub open spec fn params_of(s: Seq<Param>) -> Seq<ParamTree>
    decreases s,
{
    Seq::new(s.len(), |i: int| if 0 <= i < s.len() { s[i].tree() } else { arbitrary() })
}

#[verifier::opaque]
pub open spec fn patterns_of(s: Seq<PatternNode>) -> Seq<PatternTree>
    decreases s,
{
    Seq::new(s.len(), |i: int| if 0 <= i < s.len() { s[i].tree() } else { arbitrary() })
}

#[verifier::opaque]
pub open spec fn stmts_of(s: Seq<StatementNode>) -> Seq<StmtTree>
    decreases s,
{
    Seq::new(s.len(), |i: int| if 0 <= i < s.len() { s[i].tree() } else { arbitrary() })
}

#[verifier::opaque]
pub open spec fn trait_bounds_of(s: Seq<TraitBound>) -> Seq<TraitBoundTree>
    decreases s,
{
    Seq::new(s.len(), |i: int| if 0 <= i < s.len() { s[i].tree() } else { arbitrary() })
}

#[verifier::opaque]
pub open spec fn trait_refs_of(s: Seq<TraitRef>) -> Seq<TraitRefTree>
    decreases s,
{
    Seq::new(s.len(), |i: int| if 0 <= i < s.len() { s[i].tree() } else { arbitrary() })
}

#[verifier::opaque]
pub open spec fn types_of(s: Seq<TypeNode>) -> Seq<TypeTree>
    decreases s,
{
    Seq::new(s.len(), |i: int| if 0 <= i < s.len() { s[i].tree() } else { arbitrary() })
}

#[verifier::opaque]
pub open spec fn type_params_of(s: Seq<TypeParam>) -> Seq<TypeParamTree>
    decreases s,
{
    Seq::new(s.len(), |i: int| if 0 <= i < s.len() { s[i].tree() } else { arbitrary() })
}

pub broadcast proof fn type_node_tree(x: TypeNode)
    ensures
        #[trigger] x.tree() == (TypeTree {
        kind: x.kind.tree(),
        span: x.span,
    }),
{
    reveal(TypeNode::tree);
    reveal(TypeKind::tree);
}

pub broadcast proof fn expression_node_tree(x: ExpressionNode)
    ensures
        #[trigger] x.tree() == (ExprTree {
        kind: x.kind.tree(),
        span: x.span,
    }),
{
    reveal(ExpressionNode::tree);
    reveal(ExpressionKind::tree);
}

pub broadcast proof fn statement_node_tree(x: StatementNode)
    ensures
        #[trigger] x.tree() == (StmtTree {
        kind: x.kind.tree(),
        span: x.span,
    }),
{
    reveal(StatementNode::tree);
    reveal(StatementKind::tree);
}

pub broadcast proof fn trait_bound_tree(x: TraitBound)
    ensures
        #[trigger] x.tree() == (TraitBoundTree {
        name: x.name@,
        type_params: types_of(x.type_params@),
        span: x.span,
    }),
{
    reveal(TraitBound::tree);
    reveal(TypeNode::tree);
    reveal(types_of);
}

pub broadcast proof fn trait_ref_tree(x: TraitRef)
    ensures
        #[trigger] x.tree() == (TraitRefTree {
        name: x.name@,
        type_args: types_of(x.type_args@),
        span: x.span,
    }),
{
    reveal(TraitRef::tree);
    reveal(TypeNode::tree);
    reveal(types_of);
}

pub broadcast proof fn type_param_tree(x: TypeParam)
    ensures
        #[trigger] x.tree() == (TypeParamTree {
        name: x.name@,
        bounds: trait_bounds_of(x.bounds@),
    }),
{
    reveal(TypeParam::tree);
    reveal(TraitBound::tree);
    reveal(trait_bounds_of);
}

pub broadcast proof fn where_clause_tree(x: WhereClause)
    ensures
        #[trigger] x.tree() == (WhereClauseTree {
        predicates: exprs_of(x.predicates@),
        span: x.span,
    }),
{
    reveal(WhereClause::tree);
    reveal(ExpressionNode::tree);
    reveal(exprs_of);
}

pub broadcast proof fn param_tree(x: Param)
    ensures
        #[trigger] x.tree() == (ParamTree {
        name: x.name@,
        type_: x.type_.tree(),
        default_value: match x.default_value { Some(y) => Some(y.tree()), None => None },
    }),
{
    reveal(Param::tree);
    reveal(TypeNode::tree);
    reveal(ExpressionNode::tree);
}

pub broadcast proof fn field_tree(x: Field)
    ensures
        #[trigger] x.tree() == (FieldTree {
        name: x.name@,
        type_: x.type_.tree(),
        is_generic_param: x.is_generic_param,
        is_const: x.is_const,
        default_value: match x.default_value { Some(y) => Some(y.tree()), None => None },
        where_clause: match x.where_clause { Some(y) => Some(y.tree()), None => None },
    }),
{
    reveal(Field::tree);
    reveal(TypeNode::tree);
    reveal(ExpressionNode::tree);
    reveal(WhereClause::tree);
}

pub broadcast proof fn enum_variant_field_tree(x: EnumVariantField)
    ensures
        #[trigger] x.tree() == (EnumVariantFieldTree {
        name: match x.name { Some(y) => Some(y@), None => None },
        type_: x.type_.tree(),
    }),
{
    reveal(EnumVariantField::tree);
    reveal(TypeNode::tree);
}

pub broadcast proof fn enum_variant_tree(x: EnumVariant)
    ensures
        #[trigger] x.tree() == (EnumVariantTree {
        name: x.name@,
        data: match x.data { Some(y) => Some(enum_variant_fields_of(y@)), None => None },
        where_clause: match x.where_clause { Some(y) => Some(y.tree()), None => None },
    }),
{
    reveal(EnumVariant::tree);
    reveal(EnumVariantField::tree);
    reveal(WhereClause::tree);
    reveal(enum_variant_fields_of);
    reveal(fields_of);
}

pub broadcast proof fn match_arm_tree(x: MatchArm)
    ensures
        #[trigger] x.tree() == (MatchArmTree {
        pattern: x.pattern.tree(),
        guard: match x.guard { Some(y) => Some(y.tree()), None => None },
        body: stmts_of(x.body@),
    }),
{
    reveal(MatchArm::tree);
    reveal(PatternNode::tree);
    reveal(ExpressionNode::tree);
    reveal(StatementNode::tree);
    reveal(stmts_of);
}

pub broadcast proof fn map_entry_tree(x: MapEntry)
    ensures
        #[trigger] x.tree() == (MapEntryTree {
        key: x.key.tree(),
        value: x.value.tree(),
    }),
{
    reveal(MapEntry::tree);
    reveal(ExpressionNode::tree);
}

pub broadcast proof fn import_item_tree(x: ImportItem)
    ensures
        #[trigger] x.tree() == (ImportItemTree {
        name: x.name@,
        alias: match x.alias { Some(y) => Some(y@), None => None },
    }),
{
    reveal(ImportItem::tree);
}

pub broadcast proof fn function_node_tree(x: FunctionNode)
    ensures
        #[trigger] x.tree() == (FunctionTree {
        name: x.name@,
        type_params: type_params_of(x.type_params@),
        params: params_of(x.params@),
        return_type: x.return_type.tree(),
        body: stmts_of(x.body@),
        span: x.span,
        is_common: x.is_common,
        where_clause: match x.where_clause { Some(y) => Some(y.tree()), None => None },
    }),
{
    reveal(FunctionNode::tree);
    reveal(TypeParam::tree);
    reveal(Param::tree);
    reveal(TypeNode::tree);
    reveal(StatementNode::tree);
    reveal(WhereClause::tree);
    reveal(params_of);
    reveal(stmts_of);
    reveal(type_params_of);
}

pub broadcast proof fn type_primitive_shape(a: PrimitiveType)
    ensures
        #[trigger] (TypeKind::Primitive(a)).tree() == (TypeShape::Primitive(a)),
{
    reveal(TypeKind::tree);
}

pub broadcast proof fn type_auto_shape()
    ensures
        #[trigger] (TypeKind::Auto).tree() == (TypeShape::Auto),
{
    reveal(TypeKind::tree);
}

pub broadcast proof fn type_reference_shape(a: Box<TypeNode>)
    ensures
        #[trigger] (TypeKind::Reference(a)).tree() == (TypeShape::Reference(Box::new((*a).tree()))),
{
    reveal(TypeKind::tree);
    reveal(TypeNode::tree);
}

pub broadcast proof fn type_list_shape(a: Box<TypeNode>)
    ensures
        #[trigger] (TypeKind::List(a)).tree() == (TypeShape::List(Box::new((*a).tree()))),
{
    reveal(TypeKind::tree);
    reveal(TypeNode::tree);
}

pub broadcast proof fn type_map_of_shape(a: Box<TypeNode>, b: Box<TypeNode>)
    ensures
        #[trigger] (TypeKind::MapOf(a, b)).tree() == (TypeShape::MapOf(Box::new((*a).tree()), Box::new((*b).tree()))),
{
    reveal(TypeKind::tree);
    reveal(TypeNode::tree);
}

pub broadcast proof fn type_set_of_shape(a: Box<TypeNode>)
    ensures
        #[trigger] (TypeKind::SetOf(a)).tree() == (TypeShape::SetOf(Box::new((*a).tree()))),
{
    reveal(TypeKind::tree);
    reveal(TypeNode::tree);
}

pub broadcast proof fn type_tuple_shape(a: Box<TypeNode>, b: Box<TypeNode>)
    ensures
        #[trigger] (TypeKind::Tuple(a, b)).tree() == (TypeShape::Tuple(Box::new((*a).tree()), Box::new((*b).tree()))),
{
    reveal(TypeKind::tree);
    reveal(TypeNode::tree);
}

pub broadcast proof fn type_function_shape(params: Vec<TypeNode>, ret: Box<TypeNode>)
    ensures
        #[trigger] (TypeKind::Function { params, ret }).tree() == (TypeShape::Function {
        params: types_of(params@),
        ret: Box::new((*ret).tree()),
    }),
{
    reveal(TypeKind::tree);
    reveal(TypeNode::tree);
    reveal(types_of);
}

pub broadcast proof fn type_trait_object_shape(a: Box<TypeNode>)
    ensures
        #[trigger] (TypeKind::TraitObject(a)).tree() == (TypeShape::TraitObject(Box::new((*a).tree()))),
{
    reveal(TypeKind::tree);
    reveal(TypeNode::tree);
}

pub broadcast proof fn type_named_shape(a: String, b: Vec<TypeNode>)
    ensures
        #[trigger] (TypeKind::Named(a, b)).tree() == (TypeShape::Named(a@, types_of(b@))),
{
    reveal(TypeKind::tree);
    reveal(TypeNode::tree);
    reveal(types_of);
}

pub broadcast proof fn expression_literal_shape(a: LiteralNode)
    ensures
        #[trigger] (ExpressionKind::Literal(a)).tree() == (ExprShape::Literal(a.tree())),
{
    reveal(ExpressionKind::tree);
}

pub broadcast proof fn expression_identifier_shape(a: String)
    ensures
        #[trigger] (ExpressionKind::Identifier(a)).tree() == (ExprShape::Identifier(a@)),
{
    reveal(ExpressionKind::tree);
}

pub broadcast proof fn expression_none_value_shape()
    ensures
        #[trigger] (ExpressionKind::NoneValue).tree() == (ExprShape::NoneValue),
{
    reveal(ExpressionKind::tree);
}

pub broadcast proof fn expression_binary_shape(left: Box<ExpressionNode>, op: BinaryOp, op_span: Span, right: Box<ExpressionNode>)
    ensures
        #[trigger] (ExpressionKind::Binary { left, op, op_span, right }).tree() == (ExprShape::Binary {
        left: Box::new((*left).tree()),
        op: op,
        op_span: op_span,
        right: Box::new((*right).tree()),
    }),
{
    reveal(ExpressionKind::tree);
    reveal(ExpressionNode::tree);
}

pub broadcast proof fn expression_unary_shape(op: UnaryOp, op_span: Span, expr: Box<ExpressionNode>, postfix: bool)
    ensures
        #[trigger] (ExpressionKind::Unary { op, op_span, expr, postfix }).tree() == (ExprShape::Unary {
        op: op,
        op_span: op_span,
        expr: Box::new((*expr).tree()),
        postfix: postfix,
    }),
{
    reveal(ExpressionKind::tree);
    reveal(ExpressionNode::tree);
}

pub broadcast proof fn expression_call_shape(func: Box<ExpressionNode>, args: Vec<ExpressionNode>)
    ensures
        #[trigger] (ExpressionKind::Call { func, args }).tree() == (ExprShape::Call {
        func: Box::new((*func).tree()),
        args: exprs_of(args@),
    }),
{
    reveal(ExpressionKind::tree);
    reveal(ExpressionNode::tree);
    reveal(exprs_of);
}

pub broadcast proof fn expression_field_access_shape(expr: Box<ExpressionNode>, field: String)
    ensures
        #[trigger] (ExpressionKind::FieldAccess { expr, field }).tree() == (ExprShape::FieldAccess {
        expr: Box::new((*expr).tree()),
        field: field@,
    }),
{
    reveal(ExpressionKind::tree);
    reveal(ExpressionNode::tree);
}

pub broadcast proof fn expression_list_access_shape(expr: Box<ExpressionNode>, index: Box<ExpressionNode>)
    ensures
        #[trigger] (ExpressionKind::ListAccess { expr, index }).tree() == (ExprShape::ListAccess {
        expr: Box::new((*expr).tree()),
        index: Box::new((*index).tree()),
    }),
{
    reveal(ExpressionKind::tree);
    reveal(ExpressionNode::tree);
}

pub broadcast proof fn expression_slice_shape(expr: Box<ExpressionNode>, start: Option<Box<ExpressionNode>>, end: Option<Box<ExpressionNode>>)
    ensures
        #[trigger] (ExpressionKind::Slice { expr, start, end }).tree() == (ExprShape::Slice {
        expr: Box::new((*expr).tree()),
        start: match start { Some(x) => Some(Box::new((*x).tree())), None => None },
        end: match end { Some(x) => Some(Box::new((*x).tree())), None => None },
    }),
{
    reveal(ExpressionKind::tree);
    reveal(ExpressionNode::tree);
}

pub broadcast proof fn expression_list_literal_shape(a: Vec<ExpressionNode>)
    ensures
        #[trigger] (ExpressionKind::ListLiteral(a)).tree() == (ExprShape::ListLiteral(exprs_of(a@))),
{
    reveal(ExpressionKind::tree);
    reveal(ExpressionNode::tree);
    reveal(exprs_of);
}

pub broadcast proof fn expression_set_literal_shape(a: Vec<ExpressionNode>)
    ensures
        #[trigger] (ExpressionKind::SetLiteral(a)).tree() == (ExprShape::SetLiteral(exprs_of(a@))),
{
    reveal(ExpressionKind::tree);
    reveal(ExpressionNode::tree);
    reveal(exprs_of);
}

pub broadcast proof fn expression_map_literal_shape(key_type: Box<TypeNode>, value_type: Box<TypeNode>, entries: Vec<MapEntry>)
    ensures
        #[trigger] (ExpressionKind::MapLiteral { key_type, value_type, entries }).tree() == (ExprShape::MapLiteral {
        key_type: Box::new((*key_type).tree()),
        value_type: Box::new((*value_type).tree()),
        entries: map_entrys_of(entries@),
    }),
{
    reveal(ExpressionKind::tree);
    reveal(TypeNode::tree);
    reveal(MapEntry::tree);
    reveal(map_entrys_of);
}

pub broadcast proof fn expression_tuple_literal_shape(a: Vec<ExpressionNode>)
    ensures
        #[trigger] (ExpressionKind::TupleLiteral(a)).tree() == (ExprShape::TupleLiteral(exprs_of(a@))),
{
    reveal(ExpressionKind::tree);
    reveal(ExpressionNode::tree);
    reveal(exprs_of);
}

pub broadcast proof fn expression_if_shape(cond: Box<ExpressionNode>, then_expr: Box<ExpressionNode>, else_expr: Box<ExpressionNode>)
    ensures
        #[trigger] (ExpressionKind::If { cond, then_expr, else_expr }).tree() == (ExprShape::If {
        cond: Box::new((*cond).tree()),
        then_expr: Box::new((*then_expr).tree()),
        else_expr: Box::new((*else_expr).tree()),
    }),
{
    reveal(ExpressionKind::tree);
    reveal(ExpressionNode::tree);
}

pub broadcast proof fn expression_lambda_shape(params: Vec<Param>, return_type: TypeNode, body: Vec<StatementNode>, where_clause: Option<WhereClause>)
    ensures
        #[trigger] (ExpressionKind::Lambda { params, return_type, body, where_clause }).tree() == (ExprShape::Lambda {
        params: params_of(params@),
        return_type: return_type.tree(),
        body: stmts_of(body@),
        where_clause: match where_clause { Some(x) => Some(x.tree()), None => None },
    }),
{
    reveal(ExpressionKind::tree);
    reveal(Param::tree);
    reveal(TypeNode::tree);
    reveal(StatementNode::tree);
    reveal(WhereClause::tree);
    reveal(params_of);
    reveal(stmts_of);
}

pub broadcast proof fn expression_generic_type_shape(a: String, b: Vec<TypeNode>)
    ensures
        #[trigger] (ExpressionKind::GenericType(a, b)).tree() == (ExprShape::GenericType(a@, types_of(b@))),
{
    reveal(ExpressionKind::tree);
    reveal(TypeNode::tree);
    reveal(types_of);
}

pub broadcast proof fn statement_auto_decl_shape(a: String, b: TypeNode, c: ExpressionNode)
    ensures
        #[trigger] (StatementKind::AutoDecl(a, b, c)).tree() == (StmtShape::AutoDecl(a@, b.tree(), c.tree())),
{
    reveal(StatementKind::tree);
    reveal(TypeNode::tree);
    reveal(ExpressionNode::tree);
}

pub broadcast proof fn statement_typed_decl_shape(a: String, b: TypeNode, c: ExpressionNode)
    ensures
        #[trigger] (StatementKind::TypedDecl(a, b, c)).tree() == (StmtShape::TypedDecl(a@, b.tree(), c.tree())),
{
    reveal(StatementKind::tree);
    reveal(TypeNode::tree);
    reveal(ExpressionNode::tree);
}

pub broadcast proof fn statement_const_decl_shape(a: String, b: TypeNode, c: ExpressionNode)
    ensures
        #[trigger] (StatementKind::ConstDecl(a, b, c)).tree() == (StmtShape::ConstDecl(a@, b.tree(), c.tree())),
{
    reveal(StatementKind::tree);
    reveal(TypeNode::tree);
    reveal(ExpressionNode::tree);
}

pub broadcast proof fn statement_uninit_decl_shape(a: String, b: TypeNode)
    ensures
        #[trigger] (StatementKind::UninitDecl(a, b)).tree() == (StmtShape::UninitDecl(a@, b.tree())),
{
    reveal(StatementKind::tree);
    reveal(TypeNode::tree);
}

pub broadcast proof fn statement_if_shape(cond: ExpressionNode, then_block: Vec<StatementNode>, else_block: Option<Vec<StatementNode>>)
    ensures
        #[trigger] (StatementKind::If { cond, then_block, else_block }).tree() == (StmtShape::If {
        cond: cond.tree(),
        then_block: stmts_of(then_block@),
        else_block: match else_block { Some(x) => Some(stmts_of(x@)), None => None },
    }),
{
    reveal(StatementKind::tree);
    reveal(ExpressionNode::tree);
    reveal(StatementNode::tree);
    reveal(stmts_of);
}

pub broadcast proof fn statement_while_shape(cond: ExpressionNode, body: Vec<StatementNode>)
    ensures
        #[trigger] (StatementKind::While { cond, body }).tree() == (StmtShape::While {
        cond: cond.tree(),
        body: stmts_of(body@),
    }),
{
    reveal(StatementKind::tree);
    reveal(ExpressionNode::tree);
    reveal(StatementNode::tree);
    reveal(stmts_of);
}

pub broadcast proof fn statement_for_shape(var: String, var_type: TypeNode, iter: ExpressionNode, body: Vec<StatementNode>)
    ensures
        #[trigger] (StatementKind::For { var, var_type, iter, body }).tree() == (StmtShape::For {
        var: var@,
        var_type: var_type.tree(),
        iter: iter.tree(),
        body: stmts_of(body@),
    }),
{
    reveal(StatementKind::tree);
    reveal(TypeNode::tree);
    reveal(ExpressionNode::tree);
    reveal(StatementNode::tree);
    reveal(stmts_of);
}

pub broadcast proof fn statement_match_shape(expr: ExpressionNode, arms: Vec<MatchArm>)
    ensures
        #[trigger] (StatementKind::Match { expr, arms }).tree() == (StmtShape::Match {
        expr: expr.tree(),
        arms: match_arms_of(arms@),
    }),
{
    reveal(StatementKind::tree);
    reveal(ExpressionNode::tree);
    reveal(MatchArm::tree);
    reveal(match_arms_of);
}

pub broadcast proof fn statement_return_shape(a: Option<ExpressionNode>)
    ensures
        #[trigger] (StatementKind::Return(a)).tree() == (StmtShape::Return(match a { Some(x) => Some(x.tree()), None => None })),
{
    reveal(StatementKind::tree);
    reveal(ExpressionNode::tree);
}

pub broadcast proof fn statement_break_shape()
    ensures
        #[trigger] (StatementKind::Break).tree() == (StmtShape::Break),
{
    reveal(StatementKind::tree);
}

pub broadcast proof fn statement_continue_shape()
    ensures
        #[trigger] (StatementKind::Continue).tree() == (StmtShape::Continue),
{
    reveal(StatementKind::tree);
}

pub broadcast proof fn statement_block_shape(a: Vec<StatementNode>)
    ensures
        #[trigger] (StatementKind::Block(a)).tree() == (StmtShape::Block(stmts_of(a@))),
{
    reveal(StatementKind::tree);
    reveal(StatementNode::tree);
    reveal(stmts_of);
}

pub broadcast proof fn statement_expression_shape(a: ExpressionNode)
    ensures
        #[trigger] (StatementKind::Expression(a)).tree() == (StmtShape::Expression(a.tree())),
{
    reveal(StatementKind::tree);
    reveal(ExpressionNode::tree);
}

pub broadcast proof fn statement_import_shape(path: String, spec: ImportSpec)
    ensures
        #[trigger] (StatementKind::Import { path, spec }).tree() == (StmtShape::Import {
        path: path@,
        spec: spec.tree(),
    }),
{
    reveal(StatementKind::tree);
}

pub broadcast proof fn statement_function_shape(a: Box<FunctionNode>)
    ensures
        #[trigger] (StatementKind::Function(a)).tree() == (StmtShape::Function(Box::new((*a).tree()))),
{
    reveal(StatementKind::tree);
    reveal(FunctionNode::tree);
}

pub broadcast proof fn node_function_shape(a: FunctionNode)
    ensures
        #[trigger] (AstNode::Function(a)).tree() == (NodeTree::Function(a.tree())),
{
    reveal(AstNode::tree);
    reveal(FunctionNode::tree);
}

pub broadcast proof fn node_class_shape(name: String, type_params: Vec<TypeParam>, traits: Vec<TraitRef>, fields: Vec<Field>, methods: Vec<FunctionNode>, where_clause: Option<WhereClause>, span: Span)
    ensures
        #[trigger] (AstNode::Class { name, type_params, traits, fields, methods, where_clause, span }).tree() == (NodeTree::Class {
        name: name@,
        type_params: type_params_of(type_params@),
        traits: trait_refs_of(traits@),
        fields: fields_of(fields@),
        methods: functions_of(methods@),
        where_clause: match where_clause { Some(x) => Some(x.tree()), None => None },
        span: span,
    }),
{
    reveal(AstNode::tree);
    reveal(TypeParam::tree);
    reveal(TraitRef::tree);
    reveal(Field::tree);
    reveal(FunctionNode::tree);
    reveal(WhereClause::tree);
    reveal(fields_of);
    reveal(functions_of);
    reveal(params_of);
    reveal(trait_refs_of);
    reveal(type_params_of);
}

pub broadcast proof fn node_interface_shape(name: String, type_params: Vec<TypeParam>, fields: Vec<Field>, methods: Vec<FunctionNode>, span: Span)
    ensures
        #[trigger] (AstNode::Interface { name, type_params, fields, methods, span }).tree() == (NodeTree::Interface {
        name: name@,
        type_params: type_params_of(type_params@),
        fields: fields_of(fields@),
        methods: functions_of(methods@),
        span: span,
    }),
{
    reveal(AstNode::tree);
    reveal(TypeParam::tree);
    reveal(Field::tree);
    reveal(FunctionNode::tree);
    reveal(fields_of);
    reveal(functions_of);
    reveal(params_of);
    reveal(type_params_of);
}

pub broadcast proof fn node_enum_shape(name: String, type_params: Vec<TypeParam>, variants: Vec<EnumVariant>, span: Span)
    ensures
        #[trigger] (AstNode::Enum { name, type_params, variants, span }).tree() == (NodeTree::Enum {
        name: name@,
        type_params: type_params_of(type_params@),
        variants: enum_variants_of(variants@),
        span: span,
    }),
{
    reveal(AstNode::tree);
    reveal(TypeParam::tree);
    reveal(EnumVariant::tree);
    reveal(enum_variants_of);
    reveal(params_of);
    reveal(type_params_of);
}

pub broadcast proof fn node_statement_shape(a: StatementNode)
    ensures
        #[trigger] (AstNode::Statement(a)).tree() == (NodeTree::Statement(a.tree())),
{
    reveal(AstNode::tree);
    reveal(StatementNode::tree);
}

pub broadcast proof fn pattern_enum_variant_shape(name: String, args: Vec<PatternNode>)
    ensures
        #[trigger] (PatternNode::EnumVariant { name, args }).tree() == (PatternTree::EnumVariant {
        name: name@,
        args: patterns_of(args@),
    }),
{
    reveal(PatternNode::tree);
    reveal(patterns_of);
}

pub broadcast proof fn pattern_identifier_shape(a: String)
    ensures
        #[trigger] (PatternNode::Identifier(a)).tree() == (PatternTree::Identifier(a@)),
{
    reveal(PatternNode::tree);
}

pub broadcast proof fn pattern_wildcard_shape()
    ensures
        #[trigger] (PatternNode::Wildcard).tree() == (PatternTree::Wildcard),
{
    reveal(PatternNode::tree);
}

pub broadcast proof fn pattern_list_shape(elements: Vec<PatternNode>, rest: Option<Box<PatternNode>>)
    ensures
        #[trigger] (PatternNode::List { elements, rest }).tree() == (PatternTree::List {
        elements: patterns_of(elements@),
        rest: match rest { Some(x) => Some(Box::new((*x).tree())), None => None },
    }),
{
    reveal(PatternNode::tree);
    reveal(patterns_of);
}

pub broadcast proof fn pattern_literal_shape(a: LiteralNode)
    ensures
        #[trigger] (PatternNode::Literal(a)).tree() == (PatternTree::Literal(a.tree())),
{
    reveal(PatternNode::tree);
}

pub broadcast proof fn enum_variants_of_empty()
    ensures
        #[trigger] enum_variants_of(Seq::empty()) == Seq::<EnumVariantTree>::empty(),
{
    reveal(enum_variants_of);
    assert(enum_variants_of(Seq::empty()) =~= Seq::empty());
}

pub broadcast proof fn enum_variants_of_push(s: Seq<EnumVariant>, x: EnumVariant)
    ensures
        #[trigger] enum_variants_of(s.push(x)) == enum_variants_of(s).push(x.tree()),
{
    reveal(enum_variants_of);
    reveal(EnumVariant::tree);
    assert(enum_variants_of(s.push(x)) =~= enum_variants_of(s).push(x.tree()));
}

pub broadcast proof fn enum_variants_of_len(s: Seq<EnumVariant>)
    ensures
        #[trigger] enum_variants_of(s).len() == s.len(),
{
    reveal(enum_variants_of);
}

pub broadcast proof fn enum_variants_of_index(s: Seq<EnumVariant>, i: int)
    requires
        0 <= i < s.len(),
    ensures
        #[trigger] enum_variants_of(s)[i] == s[i].tree(),
{
    reveal(enum_variants_of);
    reveal(EnumVariant::tree);
}

pub broadcast proof fn enum_variant_fields_of_empty()
    ensures
        #[trigger] enum_variant_fields_of(Seq::empty()) == Seq::<EnumVariantFieldTree>::empty(),
{
    reveal(enum_variant_fields_of);
    assert(enum_variant_fields_of(Seq::empty()) =~= Seq::empty());
}

pub broadcast proof fn enum_variant_fields_of_push(s: Seq<EnumVariantField>, x: EnumVariantField)
    ensures
        #[trigger] enum_variant_fields_of(s.push(x)) == enum_variant_fields_of(s).push(x.tree()),
{
    reveal(enum_variant_fields_of);
    reveal(EnumVariantField::tree);
    assert(enum_variant_fields_of(s.push(x)) =~= enum_variant_fields_of(s).push(x.tree()));
}

pub broadcast proof fn enum_variant_fields_of_len(s: Seq<EnumVariantField>)
    ensures
        #[trigger] enum_variant_fields_of(s).len() == s.len(),
{
    reveal(enum_variant_fields_of);
}

pub broadcast proof fn enum_variant_fields_of_index(s: Seq<EnumVariantField>, i: int)
    requires
        0 <= i < s.len(),
    ensures
        #[trigger] enum_variant_fields_of(s)[i] == s[i].tree(),
{
    reveal(enum_variant_fields_of);
    reveal(EnumVariantField::tree);
}

pub broadcast proof fn exprs_of_empty()
    ensures
        #[trigger] exprs_of(Seq::empty()) == Seq::<ExprTree>::empty(),
{
    reveal(exprs_of);
    assert(exprs_of(Seq::empty()) =~= Seq::empty());
}

pub broadcast proof fn exprs_of_push(s: Seq<ExpressionNode>, x: ExpressionNode)
    ensures
        #[trigger] exprs_of(s.push(x)) == exprs_of(s).push(x.tree()),
{
    reveal(exprs_of);
    reveal(ExpressionNode::tree);
    assert(exprs_of(s.push(x)) =~= exprs_of(s).push(x.tree()));
}

pub broadcast proof fn exprs_of_len(s: Seq<ExpressionNode>)
    ensures
        #[trigger] exprs_of(s).len() == s.len(),
{
    reveal(exprs_of);
}

pub broadcast proof fn exprs_of_index(s: Seq<ExpressionNode>, i: int)
    requires
        0 <= i < s.len(),
    ensures
        #[trigger] exprs_of(s)[i] == s[i].tree(),
{
    reveal(exprs_of);
    reveal(ExpressionNode::tree);
}

pub broadcast proof fn fields_of_empty()
    ensures
        #[trigger] fields_of(Seq::empty()) == Seq::<FieldTree>::empty(),
{
    reveal(fields_of);
    assert(fields_of(Seq::empty()) =~= Seq::empty());
}

pub broadcast proof fn fields_of_push(s: Seq<Field>, x: Field)
    ensures
        #[trigger] fields_of(s.push(x)) == fields_of(s).push(x.tree()),
{
    reveal(fields_of);
    reveal(Field::tree);
    assert(fields_of(s.push(x)) =~= fields_of(s).push(x.tree()));
}

pub broadcast proof fn fields_of_len(s: Seq<Field>)
    ensures
        #[trigger] fields_of(s).len() == s.len(),
{
    reveal(fields_of);
}

pub broadcast proof fn fields_of_index(s: Seq<Field>, i: int)
    requires
        0 <= i < s.len(),
    ensures
        #[trigger] fields_of(s)[i] == s[i].tree(),
{
    reveal(fields_of);
    reveal(Field::tree);
}

pub broadcast proof fn functions_of_empty()
    ensures
        #[trigger] functions_of(Seq::empty()) == Seq::<FunctionTree>::empty(),
{
    reveal(functions_of);
    assert(functions_of(Seq::empty()) =~= Seq::empty());
}

pub broadcast proof fn functions_of_push(s: Seq<FunctionNode>, x: FunctionNode)
    ensures
        #[trigger] functions_of(s.push(x)) == functions_of(s).push(x.tree()),
{
    reveal(functions_of);
    reveal(FunctionNode::tree);
    assert(functions_of(s.push(x)) =~= functions_of(s).push(x.tree()));
}

pub broadcast proof fn functions_of_len(s: Seq<FunctionNode>)
    ensures
        #[trigger] functions_of(s).len() == s.len(),
{
    reveal(functions_of);
}

pub broadcast proof fn functions_of_index(s: Seq<FunctionNode>, i: int)
    requires
        0 <= i < s.len(),
    ensures
        #[trigger] functions_of(s)[i] == s[i].tree(),
{
    reveal(functions_of);
    reveal(FunctionNode::tree);
}

pub broadcast proof fn import_items_of_empty()
    ensures
        #[trigger] import_items_of(Seq::empty()) == Seq::<ImportItemTree>::empty(),
{
    reveal(import_items_of);
    assert(import_items_of(Seq::empty()) =~= Seq::empty());
}

pub broadcast proof fn import_items_of_push(s: Seq<ImportItem>, x: ImportItem)
    ensures
        #[trigger] import_items_of(s.push(x)) == import_items_of(s).push(x.tree()),
{
    reveal(import_items_of);
    reveal(ImportItem::tree);
    assert(import_items_of(s.push(x)) =~= import_items_of(s).push(x.tree()));
}

pub broadcast proof fn import_items_of_len(s: Seq<ImportItem>)
    ensures
        #[trigger] import_items_of(s).len() == s.len(),
{
    reveal(import_items_of);
}

pub broadcast proof fn import_items_of_index(s: Seq<ImportItem>, i: int)
    requires
        0 <= i < s.len(),
    ensures
        #[trigger] import_items_of(s)[i] == s[i].tree(),
{
    reveal(import_items_of);
    reveal(ImportItem::tree);
}

pub broadcast proof fn map_entrys_of_empty()
    ensures
        #[trigger] map_entrys_of(Seq::empty()) == Seq::<MapEntryTree>::empty(),
{
    reveal(map_entrys_of);
    assert(map_entrys_of(Seq::empty()) =~= Seq::empty());
}

pub broadcast proof fn map_entrys_of_push(s: Seq<MapEntry>, x: MapEntry)
    ensures
        #[trigger] map_entrys_of(s.push(x)) == map_entrys_of(s).push(x.tree()),
{
    reveal(map_entrys_of);
    reveal(MapEntry::tree);
    assert(map_entrys_of(s.push(x)) =~= map_entrys_of(s).push(x.tree()));
}

pub broadcast proof fn map_entrys_of_len(s: Seq<MapEntry>)
    ensures
        #[trigger] map_entrys_of(s).len() == s.len(),
{
    reveal(map_entrys_of);
}

pub broadcast proof fn map_entrys_of_index(s: Seq<MapEntry>, i: int)
    requires
        0 <= i < s.len(),
    ensures
        #[trigger] map_entrys_of(s)[i] == s[i].tree(),
{
    reveal(map_entrys_of);
    reveal(MapEntry::tree);
}

pub broadcast proof fn match_arms_of_empty()
    ensures
        #[trigger] match_arms_of(Seq::empty()) == Seq::<MatchArmTree>::empty(),
{
    reveal(match_arms_of);
    assert(match_arms_of(Seq::empty()) =~= Seq::empty());
}

pub broadcast proof fn match_arms_of_push(s: Seq<MatchArm>, x: MatchArm)
    ensures
        #[trigger] match_arms_of(s.push(x)) == match_arms_of(s).push(x.tree()),
{
    reveal(match_arms_of);
    reveal(MatchArm::tree);
    assert(match_arms_of(s.push(x)) =~= match_arms_of(s).push(x.tree()));
}

pub broadcast proof fn match_arms_of_len(s: Seq<MatchArm>)
    ensures
        #[trigger] match_arms_of(s).len() == s.len(),
{
    reveal(match_arms_of);
}

pub broadcast proof fn match_arms_of_index(s: Seq<MatchArm>, i: int)
    requires
        0 <= i < s.len(),
    ensures
        #[trigger] match_arms_of(s)[i] == s[i].tree(),
{
    reveal(match_arms_of);
    reveal(MatchArm::tree);
}

pub broadcast proof fn params_of_empty()
    ensures
        #[trigger] params_of(Seq::empty()) == Seq::<ParamTree>::empty(),
{
    reveal(params_of);
    assert(params_of(Seq::empty()) =~= Seq::empty());
}

pub broadcast proof fn params_of_push(s: Seq<Param>, x: Param)
    ensures
        #[trigger] params_of(s.push(x)) == params_of(s).push(x.tree()),
{
    reveal(params_of);
    reveal(Param::tree);
    assert(params_of(s.push(x)) =~= params_of(s).push(x.tree()));
}

pub broadcast proof fn params_of_len(s: Seq<Param>)
    ensures
        #[trigger] params_of(s).len() == s.len(),
{
    reveal(params_of);
}

pub broadcast proof fn params_of_index(s: Seq<Param>, i: int)
    requires
        0 <= i < s.len(),
    ensures
        #[trigger] params_of(s)[i] == s[i].tree(),
{
    reveal(params_of);
    reveal(Param::tree);
}

pub broadcast proof fn patterns_of_empty()
    ensures
        #[trigger] patterns_of(Seq::empty()) == Seq::<PatternTree>::empty(),
{
    reveal(patterns_of);
    assert(patterns_of(Seq::empty()) =~= Seq::empty());
}

pub broadcast proof fn patterns_of_push(s: Seq<PatternNode>, x: PatternNode)
    ensures
        #[trigger] patterns_of(s.push(x)) == patterns_of(s).push(x.tree()),
{
    reveal(patterns_of);
    reveal(PatternNode::tree);
    assert(patterns_of(s.push(x)) =~= patterns_of(s).push(x.tree()));
}

pub broadcast proof fn patterns_of_len(s: Seq<PatternNode>)
    ensures
        #[trigger] patterns_of(s).len() == s.len(),
{
    reveal(patterns_of);
}

pub broadcast proof fn patterns_of_index(s: Seq<PatternNode>, i: int)
    requires
        0 <= i < s.len(),
    ensures
        #[trigger] patterns_of(s)[i] == s[i].tree(),
{
    reveal(patterns_of);
    reveal(PatternNode::tree);
}

pub broadcast proof fn stmts_of_empty()
    ensures
        #[trigger] stmts_of(Seq::empty()) == Seq::<StmtTree>::empty(),
{
    reveal(stmts_of);
    assert(stmts_of(Seq::empty()) =~= Seq::empty());
}

pub broadcast proof fn stmts_of_push(s: Seq<StatementNode>, x: StatementNode)
    ensures
        #[trigger] stmts_of(s.push(x)) == stmts_of(s).push(x.tree()),
{
    reveal(stmts_of);
    reveal(StatementNode::tree);
    assert(stmts_of(s.push(x)) =~= stmts_of(s).push(x.tree()));
}

pub broadcast proof fn stmts_of_len(s: Seq<StatementNode>)
    ensures
        #[trigger] stmts_of(s).len() == s.len(),
{
    reveal(stmts_of);
}

pub broadcast proof fn stmts_of_index(s: Seq<StatementNode>, i: int)
    requires
        0 <= i < s.len(),
    ensures
        #[trigger] stmts_of(s)[i] == s[i].tree(),
{
    reveal(stmts_of);
    reveal(StatementNode::tree);
}

pub broadcast proof fn trait_bounds_of_empty()
    ensures
        #[trigger] trait_bounds_of(Seq::empty()) == Seq::<TraitBoundTree>::empty(),
{
    reveal(trait_bounds_of);
    assert(trait_bounds_of(Seq::empty()) =~= Seq::empty());
}

pub broadcast proof fn trait_bounds_of_push(s: Seq<TraitBound>, x: TraitBound)
    ensures
        #[trigger] trait_bounds_of(s.push(x)) == trait_bounds_of(s).push(x.tree()),
{
    reveal(trait_bounds_of);
    reveal(TraitBound::tree);
    assert(trait_bounds_of(s.push(x)) =~= trait_bounds_of(s).push(x.tree()));
}

pub broadcast proof fn trait_bounds_of_len(s: Seq<TraitBound>)
    ensures
        #[trigger] trait_bounds_of(s).len() == s.len(),
{
    reveal(trait_bounds_of);
}

pub broadcast proof fn trait_bounds_of_index(s: Seq<TraitBound>, i: int)
    requires
        0 <= i < s.len(),
    ensures
        #[trigger] trait_bounds_of(s)[i] == s[i].tree(),
{
    reveal(trait_bounds_of);
    reveal(TraitBound::tree);
}

pub broadcast proof fn trait_refs_of_empty()
    ensures
        #[trigger] trait_refs_of(Seq::empty()) == Seq::<TraitRefTree>::empty(),
{
    reveal(trait_refs_of);
    assert(trait_refs_of(Seq::empty()) =~= Seq::empty());
}

pub broadcast proof fn trait_refs_of_push(s: Seq<TraitRef>, x: TraitRef)
    ensures
        #[trigger] trait_refs_of(s.push(x)) == trait_refs_of(s).push(x.tree()),
{
    reveal(trait_refs_of);
    reveal(TraitRef::tree);
    assert(trait_refs_of(s.push(x)) =~= trait_refs_of(s).push(x.tree()));
}

pub broadcast proof fn trait_refs_of_len(s: Seq<TraitRef>)
    ensures
        #[trigger] trait_refs_of(s).len() == s.len(),
{
    reveal(trait_refs_of);
}

pub broadcast proof fn trait_refs_of_index(s: Seq<TraitRef>, i: int)
    requires
        0 <= i < s.len(),
    ensures
        #[trigger] trait_refs_of(s)[i] == s[i].tree(),
{
    reveal(trait_refs_of);
    reveal(TraitRef::tree);
}

pub broadcast proof fn types_of_empty()
    ensures
        #[trigger] types_of(Seq::empty()) == Seq::<TypeTree>::empty(),
{
    reveal(types_of);
    assert(types_of(Seq::empty()) =~= Seq::empty());
}

pub broadcast proof fn types_of_push(s: Seq<TypeNode>, x: TypeNode)
    ensures
        #[trigger] types_of(s.push(x)) == types_of(s).push(x.tree()),
{
    reveal(types_of);
    reveal(TypeNode::tree);
    assert(types_of(s.push(x)) =~= types_of(s).push(x.tree()));
}

pub broadcast proof fn types_of_len(s: Seq<TypeNode>)
    ensures
        #[trigger] types_of(s).len() == s.len(),
{
    reveal(types_of);
}

pub broadcast proof fn types_of_index(s: Seq<TypeNode>, i: int)
    requires
        0 <= i < s.len(),
    ensures
        #[trigger] types_of(s)[i] == s[i].tree(),
{
    reveal(types_of);
    reveal(TypeNode::tree);
}

pub broadcast proof fn type_params_of_empty()
    ensures
        #[trigger] type_params_of(Seq::empty()) == Seq::<TypeParamTree>::empty(),
{
    reveal(type_params_of);
    assert(type_params_of(Seq::empty()) =~= Seq::empty());
}

pub broadcast proof fn type_params_of_push(s: Seq<TypeParam>, x: TypeParam)
    ensures
        #[trigger] type_params_of(s.push(x)) == type_params_of(s).push(x.tree()),
{
    reveal(type_params_of);
    reveal(TypeParam::tree);
    assert(type_params_of(s.push(x)) =~= type_params_of(s).push(x.tree()));
}

pub broadcast proof fn type_params_of_len(s: Seq<TypeParam>)
    ensures
        #[trigger] type_params_of(s).len() == s.len(),
{
    reveal(type_params_of);
}

pub broadcast proof fn type_params_of_index(s: Seq<TypeParam>, i: int)
    requires
        0 <= i < s.len(),
    ensures
        #[trigger] type_params_of(s)[i] == s[i].tree(),
{
    reveal(type_params_of);
    reveal(TypeParam::tree);
}

/// The trees of some nodes.
#[verifier::opaque]
pub open spec fn nodes_of(s: Seq<AstNode>) -> Seq<NodeTree> {
    Seq::new(s.len(), |i: int| s[i].tree())
}

pub broadcast proof fn nodes_of_empty()
    ensures
        #[trigger] nodes_of(Seq::empty()) == Seq::<NodeTree>::empty(),
{
    reveal(nodes_of);
    assert(nodes_of(Seq::empty()) =~= Seq::empty());
}

pub broadcast proof fn nodes_of_push(s: Seq<AstNode>, x: AstNode)
    ensures
        #[trigger] nodes_of(s.push(x)) == nodes_of(s).push(x.tree()),
{
    reveal(nodes_of);
    assert(nodes_of(s.push(x)) =~= nodes_of(s).push(x.tree()));
}

pub broadcast proof fn nodes_of_len(s: Seq<AstNode>)
    ensures
        #[trigger] nodes_of(s).len() == s.len(),
{
    reveal(nodes_of);
}

pub broadcast proof fn nodes_of_index(s: Seq<AstNode>, i: int)
    requires
        0 <= i < s.len(),
    ensures
        #[trigger] nodes_of(s)[i] == s[i].tree(),
{
    reveal(nodes_of);
}

/// A tree is of the same variant as its node.
pub proof fn type_kind_variant(x: TypeKind)
    ensures
        (x is Primitive) == (x.tree() is Primitive),
        (x is Auto) == (x.tree() is Auto),
        (x is Reference) == (x.tree() is Reference),
        (x is List) == (x.tree() is List),
        (x is MapOf) == (x.tree() is MapOf),
        (x is SetOf) == (x.tree() is SetOf),
        (x is Tuple) == (x.tree() is Tuple),
        (x is Function) == (x.tree() is Function),
        (x is TraitObject) == (x.tree() is TraitObject),
        (x is Named) == (x.tree() is Named),
{
    reveal(TypeKind::tree);
}

/// A tree is of the same variant as its node.
pub proof fn expression_kind_variant(x: ExpressionKind)
    ensures
        (x is Literal) == (x.tree() is Literal),
        (x is Identifier) == (x.tree() is Identifier),
        (x is NoneValue) == (x.tree() is NoneValue),
        (x is Binary) == (x.tree() is Binary),
        (x is Unary) == (x.tree() is Unary),
        (x is Call) == (x.tree() is Call),
        (x is FieldAccess) == (x.tree() is FieldAccess),
        (x is ListAccess) == (x.tree() is ListAccess),
        (x is Slice) == (x.tree() is Slice),
        (x is ListLiteral) == (x.tree() is ListLiteral),
        (x is SetLiteral) == (x.tree() is SetLiteral),
        (x is MapLiteral) == (x.tree() is MapLiteral),
        (x is TupleLiteral) == (x.tree() is TupleLiteral),
        (x is If) == (x.tree() is If),
        (x is Lambda) == (x.tree() is Lambda),
        (x is GenericType) == (x.tree() is GenericType),
{
    reveal(ExpressionKind::tree);
}

/// A tree is of the same variant as its node.
pub proof fn statement_kind_variant(x: StatementKind)
    ensures
        (x is AutoDecl) == (x.tree() is AutoDecl),
        (x is TypedDecl) == (x.tree() is TypedDecl),
        (x is ConstDecl) == (x.tree() is ConstDecl),
        (x is UninitDecl) == (x.tree() is UninitDecl),
        (x is If) == (x.tree() is If),
        (x is While) == (x.tree() is While),
        (x is For) == (x.tree() is For),
        (x is Match) == (x.tree() is Match),
        (x is Return) == (x.tree() is Return),
        (x is Break) == (x.tree() is Break),
        (x is Continue) == (x.tree() is Continue),
        (x is Block) == (x.tree() is Block),
        (x is Expression) == (x.tree() is Expression),
        (x is Import) == (x.tree() is Import),
        (x is Function) == (x.tree() is Function),
{
    reveal(StatementKind::tree);
}

/// A tree is of the same variant as its node.
pub proof fn ast_node_variant(x: AstNode)
    ensures
        (x is Function) == (x.tree() is Function),
        (x is Class) == (x.tree() is Class),
        (x is Interface) == (x.tree() is Interface),
        (x is Enum) == (x.tree() is Enum),
        (x is Statement) == (x.tree() is Statement),
{
    reveal(AstNode::tree);
}

/// How the tree of each node is made of the trees of its parts.
pub broadcast group tree_shapes {
    type_node_tree,
    expression_node_tree,
    statement_node_tree,
    trait_bound_tree,
    trait_ref_tree,
    type_param_tree,
    where_clause_tree,
    param_tree,
    field_tree,
    enum_variant_field_tree,
    enum_variant_tree,
    match_arm_tree,
    map_entry_tree,
    import_item_tree,
    function_node_tree,
    type_primitive_shape,
    type_auto_shape,
    type_reference_shape,
    type_list_shape,
    type_map_of_shape,
    type_set_of_shape,
    type_tuple_shape,
    type_function_shape,
    type_trait_object_shape,
    type_named_shape,
    expression_literal_shape,
    expression_identifier_shape,
    expression_none_value_shape,
    expression_binary_shape,
    expression_unary_shape,
    expression_call_shape,
    expression_field_access_shape,
    expression_list_access_shape,
    expression_slice_shape,
    expression_list_literal_shape,
    expression_set_literal_shape,
    expression_map_literal_shape,
    expression_tuple_literal_shape,
    expression_if_shape,
    expression_lambda_shape,
    expression_generic_type_shape,
    statement_auto_decl_shape,
    statement_typed_decl_shape,
    statement_const_decl_shape,
    statement_uninit_decl_shape,
    statement_if_shape,
    statement_while_shape,
    statement_for_shape,
    statement_match_shape,
    statement_return_shape,
    statement_break_shape,
    statement_continue_shape,
    statement_block_shape,
    statement_expression_shape,
    statement_import_shape,
    statement_function_shape,
    node_function_shape,
    node_class_shape,
    node_interface_shape,
    node_enum_shape,
    node_statement_shape,
    pattern_enum_variant_shape,
    pattern_identifier_shape,
    pattern_wildcard_shape,
    pattern_list_shape,
    pattern_literal_shape,
    enum_variants_of_empty,
    enum_variants_of_push,
    enum_variants_of_len,
    enum_variants_of_index,
    enum_variant_fields_of_empty,
    enum_variant_fields_of_push,
    enum_variant_fields_of_len,
    enum_variant_fields_of_index,
    exprs_of_empty,
    exprs_of_push,
    exprs_of_len,
    exprs_of_index,
    fields_of_empty,
    fields_of_push,
    fields_of_len,
    fields_of_index,
    functions_of_empty,
    functions_of_push,
    functions_of_len,
    functions_of_index,
    import_items_of_empty,
    import_items_of_push,
    import_items_of_len,
    import_items_of_index,
    map_entrys_of_empty,
    map_entrys_of_push,
    map_entrys_of_len,
    map_entrys_of_index,
    match_arms_of_empty,
    match_arms_of_push,
    match_arms_of_len,
    match_arms_of_index,
    params_of_empty,
    params_of_push,
    params_of_len,
    params_of_index,
    patterns_of_empty,
    patterns_of_push,
    patterns_of_len,
    patterns_of_index,
    stmts_of_empty,
    stmts_of_push,
    stmts_of_len,
    stmts_of_index,
    trait_bounds_of_empty,
    trait_bounds_of_push,
    trait_bounds_of_len,
    trait_bounds_of_index,
    trait_refs_of_empty,
    trait_refs_of_push,
    trait_refs_of_len,
    trait_refs_of_index,
    types_of_empty,
    types_of_push,
    types_of_len,
    types_of_index,
    type_params_of_empty,
    type_params_of_push,
    type_params_of_len,
    type_params_of_index,
    nodes_of_empty,
    nodes_of_push,
    nodes_of_len,
    nodes_of_index,
}

} // verus!
