//! Between types and the syntax that denotes them.

use crate::ast::nodes::{TypeKind, TypeNode};
use crate::ast::tree::{tree_shapes, type_kind_variant, types_of, TypeShape, TypeTree};
use crate::ast::PrimitiveType;
use crate::codegen::generator::{lookup, Bindings, CodeGenerator};
use crate::lexer::Span;
use crate::semantics::types::{term_shapes, terms, type_variant, TypeTerm};
use crate::semantics::Type;
use crate::text::same;
use vstd::prelude::*;

verus! {

broadcast use {term_shapes, tree_shapes};

/// The span of syntax that stands nowhere in a source.
pub open spec fn nowhere() -> Span {
    Span { row_start: 0, row_end: None, col_start: 0, col_end: None }
}

pub open spec fn synthetic(kind: TypeShape) -> TypeTree {
    TypeTree { kind, span: nowhere() }
}

pub open spec fn boxed(kind: TypeShape) -> Box<TypeTree> {
    Box::new(synthetic(kind))
}

/// Whether a module occurs as a type.
pub open spec fn has_module(t: TypeTerm) -> bool
    decreases t,
{
    match t {
        TypeTerm::Module(_) => true,
        TypeTerm::Named(_, args) => exists|i: int|
            0 <= i < args.len() && has_module(#[trigger] args[i]),
        TypeTerm::Instantiated(_, args) => exists|i: int|
            0 <= i < args.len() && has_module(#[trigger] args[i]),
        TypeTerm::List(a) => has_module(*a),
        TypeTerm::SetOf(a) => has_module(*a),
        TypeTerm::Optional(a) => has_module(*a),
        TypeTerm::Reference(a) => has_module(*a),
        TypeTerm::MapOf(k, v) => has_module(*k) || has_module(*v),
        TypeTerm::Tuple(k, v) => has_module(*k) || has_module(*v),
        TypeTerm::ResultOf(k, v) => has_module(*k) || has_module(*v),
        TypeTerm::Function { params, ret, default_count } => has_module(*ret) || exists|i: int|
            0 <= i < params.len() && has_module(#[trigger] params[i]),
        _ => false,
    }
}

/// The syntax that denotes a type.
pub open spec fn shape_of(t: TypeTerm) -> TypeShape
    decreases t, 0int,
{
    match t {
        TypeTerm::Primitive(p) => TypeShape::Primitive(p),
        TypeTerm::List(a) => TypeShape::List(boxed(shape_of(*a))),
        TypeTerm::MapOf(k, v) => TypeShape::MapOf(boxed(shape_of(*k)), boxed(shape_of(*v))),
        TypeTerm::SetOf(a) => TypeShape::SetOf(boxed(shape_of(*a))),
        TypeTerm::Tuple(k, v) => TypeShape::Tuple(boxed(shape_of(*k)), boxed(shape_of(*v))),
        TypeTerm::Optional(a) => TypeShape::Named("optional"@, seq![synthetic(shape_of(*a))]),
        TypeTerm::ResultOf(k, v) => TypeShape::Named(
            "result"@,
            seq![synthetic(shape_of(*k)), synthetic(shape_of(*v))],
        ),
        TypeTerm::Reference(a) => TypeShape::Reference(boxed(shape_of(*a))),
        TypeTerm::Void => TypeShape::Primitive(PrimitiveType::Void),
        TypeTerm::EmptyList => TypeShape::List(boxed(TypeShape::Auto)),
        TypeTerm::EmptyMap => TypeShape::MapOf(boxed(TypeShape::Auto), boxed(TypeShape::Auto)),
        TypeTerm::EmptySet => TypeShape::SetOf(boxed(TypeShape::Auto)),
        TypeTerm::Function { params, ret, default_count } => TypeShape::Function {
            params: shapes_of(params, params.len() as int),
            ret: boxed(shape_of(*ret)),
        },
        TypeTerm::Named(name, args) => TypeShape::Named(name, shapes_of(args, args.len() as int)),
        TypeTerm::Instantiated(name, args) => TypeShape::Named(
            name,
            shapes_of(args, args.len() as int),
        ),
        TypeTerm::Generic(name) => TypeShape::Named(name, seq![]),
        TypeTerm::Variable(_) | TypeTerm::Never | TypeTerm::Module(_) => TypeShape::Auto,
    }
}

pub open spec fn shapes_of(ts: Seq<TypeTerm>, n: int) -> Seq<TypeTree>
    decreases ts, n,
{
    if n <= 0 || n > ts.len() {
        seq![]
    } else {
        shapes_of(ts, n - 1).push(synthetic(shape_of(ts[n - 1])))
    }
}

/// The type that syntax denotes, where `b` says what type parameters stand
/// for.
pub open spec fn denoted(b: Bindings, n: TypeTree) -> TypeTerm
    decreases n, 0int,
{
    match n.kind {
        TypeShape::Primitive(p) => TypeTerm::Primitive(p),
        TypeShape::List(a) => TypeTerm::List(Box::new(denoted(b, *a))),
        TypeShape::MapOf(k, v) => TypeTerm::MapOf(
            Box::new(denoted(b, *k)),
            Box::new(denoted(b, *v)),
        ),
        TypeShape::SetOf(a) => TypeTerm::SetOf(Box::new(denoted(b, *a))),
        TypeShape::Tuple(k, v) => TypeTerm::Tuple(
            Box::new(denoted(b, *k)),
            Box::new(denoted(b, *v)),
        ),
        TypeShape::TraitObject(_) => TypeTerm::Variable("trait_object"@),
        TypeShape::Reference(a) => TypeTerm::Reference(Box::new(denoted(b, *a))),
        TypeShape::Named(name, args) => if args.len() == 0 {
            match lookup(b, name) {
                Some(t) => t,
                None => TypeTerm::Named(name, seq![]),
            }
        } else if name == "optional"@ && args.len() == 1 {
            TypeTerm::Optional(Box::new(denoted(b, args[0])))
        } else if name == "result"@ && args.len() == 2 {
            TypeTerm::ResultOf(Box::new(denoted(b, args[0])), Box::new(denoted(b, args[1])))
        } else {
            TypeTerm::Named(name, denoted_all(b, args, args.len() as int))
        },
        TypeShape::Function { params, ret } => TypeTerm::Function {
            params: denoted_all(b, params, params.len() as int),
            ret: Box::new(denoted(b, *ret)),
            default_count: 0,
        },
        TypeShape::Auto => TypeTerm::Variable("auto"@),
    }
}

pub open spec fn denoted_all(b: Bindings, ns: Seq<TypeTree>, n: int) -> Seq<TypeTerm>
    decreases ns, n,
{
    if n <= 0 || n > ns.len() {
        seq![]
    } else {
        denoted_all(b, ns, n - 1).push(denoted(b, ns[n - 1]))
    }
}

/// Syntax that stands nowhere in a source.
pub fn synthetic_type_node(kind: TypeKind) -> (r: TypeNode)
    ensures
        r == (TypeNode { kind, span: nowhere() }),
        r.tree() == synthetic(kind.tree()),
{
    TypeNode { kind, span: Span { row_start: 0, row_end: None, col_start: 0, col_end: None } }
}

fn auto_node() -> (r: Box<TypeNode>)
    ensures
        (*r).tree() == synthetic(TypeShape::Auto),
{
    Box::new(synthetic_type_node(TypeKind::Auto))
}

impl CodeGenerator {
    /// The syntax that denotes a type.
    pub fn type_to_type_node(&self, type_: &Type) -> (r: TypeNode)
        requires
            !has_module(type_.term()),
        ensures
            r.tree() == synthetic(shape_of(type_.term())),
        decreases type_, 1int,
    {
        proof {
            type_variant(*type_);
        }
        let kind = match type_ {
            Type::Primitive(p) => {
                assert(*type_ == Type::Primitive(*p));
                TypeKind::Primitive(*p)
            },
            Type::List(inner) => {
                assert(*type_ == Type::List(*inner));
                TypeKind::List(Box::new(self.type_to_type_node(inner)))
            },
            Type::MapOf(k, v) => {
                assert(*type_ == Type::MapOf(*k, *v));
                TypeKind::MapOf(
                    Box::new(self.type_to_type_node(k)),
                    Box::new(self.type_to_type_node(v)),
                )
            },
            Type::SetOf(inner) => {
                assert(*type_ == Type::SetOf(*inner));
                TypeKind::SetOf(Box::new(self.type_to_type_node(inner)))
            },
            Type::Tuple(l, r) => {
                assert(*type_ == Type::Tuple(*l, *r));
                TypeKind::Tuple(
                    Box::new(self.type_to_type_node(l)),
                    Box::new(self.type_to_type_node(r)),
                )
            },
            Type::Optional(inner) => {
                assert(*type_ == Type::Optional(*inner));
                let mut args: Vec<TypeNode> = Vec::new();
                args.push(self.type_to_type_node(inner));
                assert(types_of(args@) =~= seq![synthetic(shape_of(inner.term()))]);
                TypeKind::Named("optional".to_owned(), args)
            },
            Type::ResultOf(ok, err) => {
                assert(*type_ == Type::ResultOf(*ok, *err));
                let mut args: Vec<TypeNode> = Vec::new();
                args.push(self.type_to_type_node(ok));
                args.push(self.type_to_type_node(err));
                assert(types_of(args@) =~= seq![
                    synthetic(shape_of(ok.term())),
                    synthetic(shape_of(err.term())),
                ]);
                TypeKind::Named("result".to_owned(), args)
            },
            Type::Reference(inner) => {
                assert(*type_ == Type::Reference(*inner));
                TypeKind::Reference(Box::new(self.type_to_type_node(inner)))
            },
            Type::Void => TypeKind::Primitive(PrimitiveType::Void),
            Type::EmptyList => TypeKind::List(auto_node()),
            Type::EmptyMap => TypeKind::MapOf(auto_node(), auto_node()),
            Type::EmptySet => TypeKind::SetOf(auto_node()),
            Type::Function { params, ret, default_count } => {
                assert(*type_ == (Type::Function {
                    params: *params,
                    ret: *ret,
                    default_count: *default_count,
                }));
                TypeKind::Function {
                    params: self.types_to_type_nodes(params),
                    ret: Box::new(self.type_to_type_node(ret)),
                }
            },
            Type::Named(name, generics) => {
                assert(*type_ == Type::Named(*name, *generics));
                TypeKind::Named(name.clone(), self.types_to_type_nodes(generics))
            },
            Type::Instantiated(name, generics) => {
                assert(*type_ == Type::Instantiated(*name, *generics));
                TypeKind::Named(name.clone(), self.types_to_type_nodes(generics))
            },
            Type::Generic(name) => {
                assert(*type_ == Type::Generic(*name));
                TypeKind::Named(name.clone(), Vec::new())
            },
            Type::Variable(_) | Type::Never | Type::Module(_) => TypeKind::Auto,
        };
        synthetic_type_node(kind)
    }

    fn types_to_type_nodes(&self, types: &Vec<Type>) -> (r: Vec<TypeNode>)
        requires
            forall|i: int| 0 <= i < types@.len() ==> !has_module(#[trigger] terms(types@)[i]),
        ensures
            types_of(r@) == shapes_of(terms(types@), types@.len() as int),
        decreases types, 0int,
    {
        let mut out: Vec<TypeNode> = Vec::new();
        let mut i: usize = 0;
        let ghost ts = terms(types@);
        while i < types.len()
            invariant
                i <= types@.len(),
                ts == terms(types@),
                ts.len() == types@.len(),
                forall|i: int| 0 <= i < types@.len() ==> !has_module(#[trigger] ts[i]),
                types_of(out@) == shapes_of(ts, i as int),
            decreases types@.len() - i,
        {
            assert(ts[i as int] == types@[i as int].term());
            out.push(self.type_to_type_node(&types[i]));
            i += 1;
        }
        out
    }

    /// The type that syntax denotes.
    pub fn type_node_to_type(&self, type_node: &TypeNode) -> (r: Type)
        ensures
            r.term() == denoted(self.params(), type_node.tree()),
        decreases type_node, 1int,
    {
        proof {
            type_kind_variant(type_node.kind);
        }
        match &type_node.kind {
            TypeKind::Primitive(p) => {
                assert(type_node.kind == TypeKind::Primitive(*p));
                Type::Primitive(*p)
            },
            TypeKind::List(inner) => {
                assert(type_node.kind == TypeKind::List(*inner));
                Type::List(Box::new(self.type_node_to_type(inner)))
            },
            TypeKind::MapOf(k, v) => {
                assert(type_node.kind == TypeKind::MapOf(*k, *v));
                Type::MapOf(
                    Box::new(self.type_node_to_type(k)),
                    Box::new(self.type_node_to_type(v)),
                )
            },
            TypeKind::SetOf(inner) => {
                assert(type_node.kind == TypeKind::SetOf(*inner));
                Type::SetOf(Box::new(self.type_node_to_type(inner)))
            },
            TypeKind::Tuple(l, r) => {
                assert(type_node.kind == TypeKind::Tuple(*l, *r));
                Type::Tuple(
                    Box::new(self.type_node_to_type(l)),
                    Box::new(self.type_node_to_type(r)),
                )
            },
            TypeKind::TraitObject(inner) => {
                assert(type_node.kind == TypeKind::TraitObject(*inner));
                Type::Variable("trait_object".to_owned())
            },
            TypeKind::Reference(inner) => {
                assert(type_node.kind == TypeKind::Reference(*inner));
                Type::Reference(Box::new(self.type_node_to_type(inner)))
            },
            TypeKind::Named(name, generics) => {
                assert(type_node.kind == TypeKind::Named(*name, *generics));
                if generics.len() == 0 {
                    match self.resolve_generic_param(name.as_str()) {
                        Some(concrete) => concrete.copy(),
                        None => {
                            let none: Vec<Type> = Vec::new();
                            Type::Named(name.clone(), none)
                        },
                    }
                } else if same(name.as_str(), "optional") && generics.len() == 1 {
                    Type::Optional(Box::new(self.type_node_to_type(&generics[0])))
                } else if same(name.as_str(), "result") && generics.len() == 2 {
                    Type::ResultOf(
                        Box::new(self.type_node_to_type(&generics[0])),
                        Box::new(self.type_node_to_type(&generics[1])),
                    )
                } else {
                    Type::Named(name.clone(), self.type_nodes_to_types(generics))
                }
            },
            TypeKind::Function { params, ret } => {
                assert(type_node.kind == (TypeKind::Function { params: *params, ret: *ret }));
                Type::Function {
                    params: self.type_nodes_to_types(params),
                    ret: Box::new(self.type_node_to_type(ret)),
                    default_count: 0,
                }
            },
            TypeKind::Auto => Type::Variable("auto".to_owned()),
        }
    }

    pub fn type_nodes_to_types(&self, nodes: &Vec<TypeNode>) -> (r: Vec<Type>)
        ensures
            terms(r@) == denoted_all(self.params(), types_of(nodes@), nodes@.len() as int),
        decreases nodes, 0int,
    {
        let mut out: Vec<Type> = Vec::new();
        let mut i: usize = 0;
        let ghost ns = types_of(nodes@);
        while i < nodes.len()
            invariant
                i <= nodes@.len(),
                ns == types_of(nodes@),
                ns.len() == nodes@.len(),
                terms(out@) == denoted_all(self.params(), ns, i as int),
            decreases nodes@.len() - i,
        {
            assert(ns[i as int] == nodes@[i as int].tree());
            out.push(self.type_node_to_type(&nodes[i]));
            i += 1;
        }
        out
    }
}

/// Types that have a syntax of their own: they are made of named and primitive
/// types, and no name means something else there.
pub open spec fn expressible(b: Bindings, t: TypeTerm) -> bool
    decreases t,
{
    match t {
        TypeTerm::Primitive(_) => true,
        TypeTerm::List(a) => expressible(b, *a),
        TypeTerm::SetOf(a) => expressible(b, *a),
        TypeTerm::Optional(a) => expressible(b, *a),
        TypeTerm::Reference(a) => expressible(b, *a),
        TypeTerm::MapOf(k, v) => expressible(b, *k) && expressible(b, *v),
        TypeTerm::Tuple(k, v) => expressible(b, *k) && expressible(b, *v),
        TypeTerm::ResultOf(k, v) => expressible(b, *k) && expressible(b, *v),
        TypeTerm::Function { params, ret, default_count } => default_count == 0 && expressible(
            b,
            *ret,
        ) && forall|i: int| 0 <= i < params.len() ==> expressible(b, #[trigger] params[i]),
        TypeTerm::Named(name, args) => {
            &&& args.len() == 0 ==> lookup(b, name) is None
            &&& !(name == "optional"@ && args.len() == 1)
            &&& !(name == "result"@ && args.len() == 2)
            &&& forall|i: int| 0 <= i < args.len() ==> expressible(b, #[trigger] args[i])
        },
        _ => false,
    }
}

/// The syntax for a type denotes that type again.
pub proof fn type_syntax_round_trips(b: Bindings, t: TypeTerm)
    requires
        expressible(b, t),
    ensures
        denoted(b, synthetic(shape_of(t))) == t,
    decreases t, 1int,
{
    match t {
        TypeTerm::List(a) => type_syntax_round_trips(b, *a),
        TypeTerm::SetOf(a) => type_syntax_round_trips(b, *a),
        TypeTerm::Optional(a) => type_syntax_round_trips(b, *a),
        TypeTerm::Reference(a) => type_syntax_round_trips(b, *a),
        TypeTerm::MapOf(k, v) => {
            type_syntax_round_trips(b, *k);
            type_syntax_round_trips(b, *v);
        },
        TypeTerm::Tuple(k, v) => {
            type_syntax_round_trips(b, *k);
            type_syntax_round_trips(b, *v);
        },
        TypeTerm::ResultOf(k, v) => {
            reveal_strlit("optional");
            reveal_strlit("result");
            type_syntax_round_trips(b, *k);
            type_syntax_round_trips(b, *v);
        },
        TypeTerm::Function { params, ret, default_count } => {
            types_syntax_round_trips(b, params, params.len() as int);
            assert(params.take(params.len() as int) =~= params);
            type_syntax_round_trips(b, *ret);
        },
        TypeTerm::Named(name, args) => {
            types_syntax_round_trips(b, args, args.len() as int);
            assert(args.take(args.len() as int) =~= args);
            if args.len() == 0 {
                assert(args =~= seq![]);
            }
        },
        _ => {},
    }
}

proof fn types_syntax_round_trips(b: Bindings, ts: Seq<TypeTerm>, n: int)
    requires
        0 <= n <= ts.len(),
        forall|i: int| 0 <= i < ts.len() ==> expressible(b, #[trigger] ts[i]),
    ensures
        shapes_of(ts, n).len() == n,
        forall|m: int|
            n <= m <= ts.len() ==> shapes_of(ts, n) == (#[trigger] shapes_of(ts, m)).take(n),
        denoted_all(b, shapes_of(ts, n), n) == ts.take(n),
    decreases ts, 0int, n,
{
    shapes_prefix(ts, n);
    if n > 0 {
        types_syntax_round_trips(b, ts, n - 1);
        type_syntax_round_trips(b, ts[n - 1]);
        let s = shapes_of(ts, n);
        assert(s.take(n - 1) =~= shapes_of(ts, n - 1));
        denoted_prefix(b, s, n - 1);
        assert(ts.take(n - 1).push(ts[n - 1]) =~= ts.take(n));
    } else {
        assert(ts.take(0) =~= seq![]);
    }
}

proof fn shapes_prefix(ts: Seq<TypeTerm>, n: int)
    requires
        0 <= n <= ts.len(),
    ensures
        shapes_of(ts, n).len() == n,
        forall|m: int|
            n <= m <= ts.len() ==> shapes_of(ts, n) == (#[trigger] shapes_of(ts, m)).take(n),
    decreases n,
{
    if n > 0 {
        shapes_prefix(ts, n - 1);
    }
    assert forall|m: int| n <= m <= ts.len() implies shapes_of(ts, n) == (#[trigger] shapes_of(
        ts,
        m,
    )).take(n) by {
        shapes_extend(ts, n, m);
    }
}

proof fn shapes_extend(ts: Seq<TypeTerm>, n: int, m: int)
    requires
        0 <= n <= m <= ts.len(),
    ensures
        shapes_of(ts, m).len() == m,
        shapes_of(ts, n).len() == n,
        shapes_of(ts, n) == shapes_of(ts, m).take(n),
    decreases m,
{
    if n < m {
        shapes_extend(ts, n, m - 1);
        assert(shapes_of(ts, m).take(n) =~= shapes_of(ts, m - 1).take(n));
    } else if n > 0 {
        shapes_extend(ts, n - 1, m - 1);
        assert(shapes_of(ts, m).take(n) =~= shapes_of(ts, m));
    } else {
        assert(shapes_of(ts, m).take(n) =~= shapes_of(ts, n));
    }
}

proof fn denoted_prefix(b: Bindings, s: Seq<TypeTree>, n: int)
    requires
        0 <= n <= s.len(),
    ensures
        denoted_all(b, s, n) == denoted_all(b, s.take(n), n),
    decreases n,
{
    denoted_prefix_of(b, s, n, n);
}

proof fn denoted_prefix_of(b: Bindings, s: Seq<TypeTree>, k: int, n: int)
    requires
        0 <= n <= k <= s.len(),
    ensures
        denoted_all(b, s, n) == denoted_all(b, s.take(k), n),
    decreases n,
{
    if n > 0 {
        denoted_prefix_of(b, s, k, n - 1);
        assert(s.take(k)[n - 1] == s[n - 1]);
    }
}

} // verus!
