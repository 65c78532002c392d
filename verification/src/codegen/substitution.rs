//! Substituting the type variables of a type.

use crate::codegen::generator::{bindings_of, find_binding, lookup, Binding, Bindings, CodeGenerator};
use crate::codegen::resolution::{both, one, resolve, resolve_all, resolved, Resolved};
use crate::semantics::types::{term_shapes, terms, type_variant, TypeTerm};
use crate::semantics::Type;
use vstd::prelude::*;

verus! {

broadcast use term_shapes;

/// A type in which `f` says what each variable becomes.
pub open spec fn traversed(t: TypeTerm, f: spec_fn(Seq<char>) -> Resolved) -> Resolved
    decreases t, 0int,
{
    match t {
        TypeTerm::Primitive(_)
        | TypeTerm::Void
        | TypeTerm::Never
        | TypeTerm::EmptyList
        | TypeTerm::EmptyMap
        | TypeTerm::EmptySet
        | TypeTerm::Module(_) => Ok(t),
        TypeTerm::Variable(name) | TypeTerm::Generic(name) => f(name),
        TypeTerm::Named(name, args) => match traversed_all(args, args.len() as int, f) {
            Ok(rs) => Ok(TypeTerm::Named(name, rs)),
            Err(e) => Err(e),
        },
        TypeTerm::Instantiated(name, args) => match traversed_all(args, args.len() as int, f) {
            Ok(rs) => Ok(TypeTerm::Instantiated(name, rs)),
            Err(e) => Err(e),
        },
        TypeTerm::List(a) => one(traversed(*a, f), |x: TypeTerm| TypeTerm::List(Box::new(x))),
        TypeTerm::SetOf(a) => one(traversed(*a, f), |x: TypeTerm| TypeTerm::SetOf(Box::new(x))),
        TypeTerm::Optional(a) => one(
            traversed(*a, f),
            |x: TypeTerm| TypeTerm::Optional(Box::new(x)),
        ),
        TypeTerm::Reference(a) => one(
            traversed(*a, f),
            |x: TypeTerm| TypeTerm::Reference(Box::new(x)),
        ),
        TypeTerm::MapOf(k, v) => both(
            traversed(*k, f),
            traversed(*v, f),
            |x: TypeTerm, y: TypeTerm| TypeTerm::MapOf(Box::new(x), Box::new(y)),
        ),
        TypeTerm::Tuple(k, v) => both(
            traversed(*k, f),
            traversed(*v, f),
            |x: TypeTerm, y: TypeTerm| TypeTerm::Tuple(Box::new(x), Box::new(y)),
        ),
        TypeTerm::ResultOf(k, v) => both(
            traversed(*k, f),
            traversed(*v, f),
            |x: TypeTerm, y: TypeTerm| TypeTerm::ResultOf(Box::new(x), Box::new(y)),
        ),
        TypeTerm::Function { params, ret, default_count } => match traversed_all(
            params,
            params.len() as int,
            f,
        ) {
            Err(e) => Err(e),
            Ok(ps) => one(
                traversed(*ret, f),
                |x: TypeTerm|
                    TypeTerm::Function { params: ps, ret: Box::new(x), default_count },
            ),
        },
    }
}

pub open spec fn traversed_all(
    ts: Seq<TypeTerm>,
    n: int,
    f: spec_fn(Seq<char>) -> Resolved,
) -> Result<Seq<TypeTerm>, Seq<char>>
    decreases ts, n,
{
    if n <= 0 || n > ts.len() {
        Ok(seq![])
    } else {
        match traversed_all(ts, n - 1, f) {
            Err(e) => Err(e),
            Ok(rs) => match traversed(ts[n - 1], f) {
                Err(e) => Err(e),
                Ok(r) => Ok(rs.push(r)),
            },
        }
    }
}

proof fn first_failure_stays(
    ts: Seq<TypeTerm>,
    i: int,
    n: int,
    f: spec_fn(Seq<char>) -> Resolved,
)
    requires
        0 <= i <= n <= ts.len(),
        traversed_all(ts, i, f) is Err,
    ensures
        traversed_all(ts, n, f) == traversed_all(ts, i, f),
    decreases n - i,
{
    if i < n {
        first_failure_stays(ts, i, n - 1, f);
    }
}

/// What a substitution makes of a variable: its binding, or itself.
pub open spec fn substitute_name(b: Bindings, name: Seq<char>) -> Resolved {
    match lookup(b, name) {
        Some(t) => Ok(t),
        None => Ok(TypeTerm::Variable(name)),
    }
}

/// A type with its variables substituted.
pub open spec fn substituted(t: TypeTerm, b: Bindings) -> TypeTerm {
    match traversed(t, |name: Seq<char>| substitute_name(b, name)) {
        Ok(r) => r,
        Err(_) => t,
    }
}

/// Whether a type has no variables.
pub open spec fn is_closed(t: TypeTerm) -> bool
    decreases t,
{
    match t {
        TypeTerm::Variable(_) | TypeTerm::Generic(_) => false,
        TypeTerm::Named(_, args) => forall|i: int|
            0 <= i < args.len() ==> is_closed(#[trigger] args[i]),
        TypeTerm::Instantiated(_, args) => forall|i: int|
            0 <= i < args.len() ==> is_closed(#[trigger] args[i]),
        TypeTerm::List(a) => is_closed(*a),
        TypeTerm::SetOf(a) => is_closed(*a),
        TypeTerm::Optional(a) => is_closed(*a),
        TypeTerm::Reference(a) => is_closed(*a),
        TypeTerm::MapOf(k, v) => is_closed(*k) && is_closed(*v),
        TypeTerm::Tuple(k, v) => is_closed(*k) && is_closed(*v),
        TypeTerm::ResultOf(k, v) => is_closed(*k) && is_closed(*v),
        TypeTerm::Function { params, ret, default_count } => is_closed(*ret) && forall|i: int|
            0 <= i < params.len() ==> is_closed(#[trigger] params[i]),
        _ => true,
    }
}

/// Whether no part of a type is left open: it has no parameter, no variable and
/// no module.
pub open spec fn is_concrete(t: TypeTerm) -> bool
    decreases t,
{
    match t {
        TypeTerm::Variable(_) | TypeTerm::Generic(_) | TypeTerm::Module(_) => false,
        TypeTerm::Named(_, args) => forall|i: int|
            0 <= i < args.len() ==> is_concrete(#[trigger] args[i]),
        TypeTerm::Instantiated(_, args) => forall|i: int|
            0 <= i < args.len() ==> is_concrete(#[trigger] args[i]),
        TypeTerm::List(a) => is_concrete(*a),
        TypeTerm::SetOf(a) => is_concrete(*a),
        TypeTerm::Optional(a) => is_concrete(*a),
        TypeTerm::Reference(a) => is_concrete(*a),
        TypeTerm::MapOf(k, v) => is_concrete(*k) && is_concrete(*v),
        TypeTerm::Tuple(k, v) => is_concrete(*k) && is_concrete(*v),
        TypeTerm::ResultOf(k, v) => is_concrete(*k) && is_concrete(*v),
        TypeTerm::Function { params, ret, default_count } => is_concrete(*ret) && forall|i: int|
            0 <= i < params.len() ==> is_concrete(#[trigger] params[i]),
        _ => true,
    }
}

impl CodeGenerator {
    /// Walks a type and hands each variable to `handle_var`, whose results
    /// `f` describes.
    fn traverse_type_recursive<F: Fn(&str) -> Result<Type, String>>(
        &self,
        type_: &Type,
        handle_var: &F,
        Ghost(f): Ghost<spec_fn(Seq<char>) -> Resolved>,
    ) -> (r: Result<Type, String>)
        requires
            forall|s: &str| #[trigger] handle_var.requires((s,)),
            forall|s: &str, x: Result<Type, String>|
                #[trigger] handle_var.ensures((s,), x) ==> resolved(x) == f(s@),
        ensures
            resolved(r) == traversed(type_.term(), f),
        decreases type_, 1int,
    {
        proof {
            type_variant(*type_);
        }
        match type_ {
            Type::Primitive(_)
            | Type::Void
            | Type::Never
            | Type::EmptyList
            | Type::EmptyMap
            | Type::EmptySet
            | Type::Module(_) => Ok(type_.copy()),
            Type::Variable(name) => {
                assert(*type_ == Type::Variable(*name));
                handle_var(name.as_str())
            },
            Type::Generic(name) => {
                assert(*type_ == Type::Generic(*name));
                handle_var(name.as_str())
            },
            Type::Named(name, type_args) => {
                assert(*type_ == Type::Named(*name, *type_args));
                match self.traverse_types(type_args, handle_var, Ghost(f)) {
                    Ok(args) => Ok(Type::Named(name.clone(), args)),
                    Err(e) => Err(e),
                }
            },
            Type::Instantiated(name, type_args) => {
                assert(*type_ == Type::Instantiated(*name, *type_args));
                match self.traverse_types(type_args, handle_var, Ghost(f)) {
                    Ok(args) => Ok(Type::Instantiated(name.clone(), args)),
                    Err(e) => Err(e),
                }
            },
            Type::List(inner) => {
                assert(*type_ == Type::List(*inner));
                match self.traverse_type_recursive(inner, handle_var, Ghost(f)) {
                    Ok(t) => Ok(Type::List(Box::new(t))),
                    Err(e) => Err(e),
                }
            },
            Type::SetOf(inner) => {
                assert(*type_ == Type::SetOf(*inner));
                match self.traverse_type_recursive(inner, handle_var, Ghost(f)) {
                    Ok(t) => Ok(Type::SetOf(Box::new(t))),
                    Err(e) => Err(e),
                }
            },
            Type::Optional(inner) => {
                assert(*type_ == Type::Optional(*inner));
                match self.traverse_type_recursive(inner, handle_var, Ghost(f)) {
                    Ok(t) => Ok(Type::Optional(Box::new(t))),
                    Err(e) => Err(e),
                }
            },
            Type::Reference(inner) => {
                assert(*type_ == Type::Reference(*inner));
                match self.traverse_type_recursive(inner, handle_var, Ghost(f)) {
                    Ok(t) => Ok(Type::Reference(Box::new(t))),
                    Err(e) => Err(e),
                }
            },
            Type::MapOf(k, v) => {
                assert(*type_ == Type::MapOf(*k, *v));
                match self.traverse_type_recursive(k, handle_var, Ghost(f)) {
                    Ok(k) => match self.traverse_type_recursive(v, handle_var, Ghost(f)) {
                        Ok(v) => Ok(Type::MapOf(Box::new(k), Box::new(v))),
                        Err(e) => Err(e),
                    },
                    Err(e) => Err(e),
                }
            },
            Type::Tuple(k, v) => {
                assert(*type_ == Type::Tuple(*k, *v));
                match self.traverse_type_recursive(k, handle_var, Ghost(f)) {
                    Ok(k) => match self.traverse_type_recursive(v, handle_var, Ghost(f)) {
                        Ok(v) => Ok(Type::Tuple(Box::new(k), Box::new(v))),
                        Err(e) => Err(e),
                    },
                    Err(e) => Err(e),
                }
            },
            Type::ResultOf(k, v) => {
                assert(*type_ == Type::ResultOf(*k, *v));
                match self.traverse_type_recursive(k, handle_var, Ghost(f)) {
                    Ok(k) => match self.traverse_type_recursive(v, handle_var, Ghost(f)) {
                        Ok(v) => Ok(Type::ResultOf(Box::new(k), Box::new(v))),
                        Err(e) => Err(e),
                    },
                    Err(e) => Err(e),
                }
            },
            Type::Function { params, ret, default_count } => {
                assert(*type_ == (Type::Function {
                    params: *params,
                    ret: *ret,
                    default_count: *default_count,
                }));
                match self.traverse_types(params, handle_var, Ghost(f)) {
                    Ok(params) => match self.traverse_type_recursive(ret, handle_var, Ghost(f)) {
                        Ok(ret) => Ok(
                            Type::Function {
                                params,
                                ret: Box::new(ret),
                                default_count: *default_count,
                            },
                        ),
                        Err(e) => Err(e),
                    },
                    Err(e) => Err(e),
                }
            },
        }
    }

    fn traverse_types<F: Fn(&str) -> Result<Type, String>>(
        &self,
        types: &Vec<Type>,
        handle_var: &F,
        Ghost(f): Ghost<spec_fn(Seq<char>) -> Resolved>,
    ) -> (r: Result<Vec<Type>, String>)
        requires
            forall|s: &str| #[trigger] handle_var.requires((s,)),
            forall|s: &str, x: Result<Type, String>|
                #[trigger] handle_var.ensures((s,), x) ==> resolved(x) == f(s@),
        ensures
            match r {
                Ok(v) => traversed_all(terms(types@), types@.len() as int, f) == Ok::<
                    Seq<TypeTerm>,
                    Seq<char>,
                >(terms(v@)),
                Err(e) => traversed_all(terms(types@), types@.len() as int, f) == Err::<
                    Seq<TypeTerm>,
                    Seq<char>,
                >(e@),
            },
        decreases types, 0int,
    {
        let mut out: Vec<Type> = Vec::new();
        let mut i: usize = 0;
        let ghost ts = terms(types@);
        while i < types.len()
            invariant
                i <= types@.len(),
                ts == terms(types@),
                ts.len() == types@.len(),
                forall|s: &str| #[trigger] handle_var.requires((s,)),
                forall|s: &str, x: Result<Type, String>|
                    #[trigger] handle_var.ensures((s,), x) ==> resolved(x) == f(s@),
                traversed_all(ts, i as int, f) == Ok::<Seq<TypeTerm>, Seq<char>>(terms(out@)),
            decreases types@.len() - i,
        {
            assert(ts[i as int] == types@[i as int].term());
            match self.traverse_type_recursive(&types[i], handle_var, Ghost(f)) {
                Ok(t) => {
                    out.push(t);
                },
                Err(e) => {
                    proof {
                        assert(traversed_all(ts, i + 1, f) == Err::<Seq<TypeTerm>, Seq<char>>(e@));
                        first_failure_stays(ts, i + 1, ts.len() as int, f);
                    }
                    return Err(e);
                },
            }
            i += 1;
        }
        Ok(out)
    }

    /// Replaces each type variable that a map names by what it names,
    /// independent of the current type parameters.
    pub fn substitute_type_with_map(&self, type_: &Type, map: &Vec<Binding>) -> (r: Type)
        ensures
            r.term() == substituted(type_.term(), bindings_of(map@)),
    {
        let handle_var = |name: &str| -> (x: Result<Type, String>)
            ensures
                resolved(x) == substitute_name(bindings_of(map@), name@),
            {
                match find_binding(map, name) {
                    Some(t) => Ok(t.copy()),
                    None => Ok(Type::Variable(name.to_owned())),
                }
            };
        let ghost b = bindings_of(map@);
        let ghost f = |name: Seq<char>| substitute_name(b, name);
        match self.traverse_type_recursive(type_, &handle_var, Ghost(f)) {
            Ok(t) => t,
            Err(_) => type_.copy(),
        }
    }
}

/// Substitution always succeeds, and leaves a type without variables as it is.
pub proof fn substitution_of_closed_type(t: TypeTerm, f: spec_fn(Seq<char>) -> Resolved)
    requires
        is_closed(t),
    ensures
        traversed(t, f) == Resolved::Ok(t),
    decreases t, 1int,
{
    match t {
        TypeTerm::Named(name, args) => {
            closed_types_stay(args, args.len() as int, f);
            assert(args.take(args.len() as int) =~= args);
        },
        TypeTerm::Instantiated(name, args) => {
            closed_types_stay(args, args.len() as int, f);
            assert(args.take(args.len() as int) =~= args);
        },
        TypeTerm::List(a) => substitution_of_closed_type(*a, f),
        TypeTerm::SetOf(a) => substitution_of_closed_type(*a, f),
        TypeTerm::Optional(a) => substitution_of_closed_type(*a, f),
        TypeTerm::Reference(a) => substitution_of_closed_type(*a, f),
        TypeTerm::MapOf(k, v) => {
            substitution_of_closed_type(*k, f);
            substitution_of_closed_type(*v, f);
        },
        TypeTerm::Tuple(k, v) => {
            substitution_of_closed_type(*k, f);
            substitution_of_closed_type(*v, f);
        },
        TypeTerm::ResultOf(k, v) => {
            substitution_of_closed_type(*k, f);
            substitution_of_closed_type(*v, f);
        },
        TypeTerm::Function { params, ret, default_count } => {
            closed_types_stay(params, params.len() as int, f);
            assert(params.take(params.len() as int) =~= params);
            substitution_of_closed_type(*ret, f);
        },
        _ => {},
    }
}

proof fn closed_types_stay(ts: Seq<TypeTerm>, n: int, f: spec_fn(Seq<char>) -> Resolved)
    requires
        0 <= n <= ts.len(),
        forall|i: int| 0 <= i < ts.len() ==> is_closed(#[trigger] ts[i]),
    ensures
        traversed_all(ts, n, f) == Ok::<Seq<TypeTerm>, Seq<char>>(ts.take(n)),
    decreases ts, 0int, n,
{
    if n > 0 {
        closed_types_stay(ts, n - 1, f);
        substitution_of_closed_type(ts[n - 1], f);
        assert(ts.take(n - 1).push(ts[n - 1]) =~= ts.take(n));
    } else {
        assert(ts.take(0) =~= seq![]);
    }
}

/// A type that could be resolved holds no parameter, no variable and no module.
pub proof fn resolved_type_is_closed(b: Bindings, t: TypeTerm, seen: Seq<Seq<char>>)
    ensures
        resolve(b, t, seen) matches Ok(r) ==> is_closed(r) && is_concrete(r),
    decreases b.len() - seen.len(), t, 0int,
{
    match t {
        TypeTerm::Generic(name) | TypeTerm::Variable(name) => {
            if !seen.contains(name) && lookup(b, name) is Some && seen.len() < b.len() {
                resolved_type_is_closed(b, lookup(b, name)->0, seen.push(name));
            }
        },
        TypeTerm::Named(name, args) => {
            if args.len() == 0 {
                if !seen.contains(name) && lookup(b, name) is Some && seen.len() < b.len() {
                    resolved_type_is_closed(b, lookup(b, name)->0, seen.push(name));
                }
            } else {
                resolved_types_are_closed(b, args, args.len() as int, seen);
            }
        },
        TypeTerm::Instantiated(_, args) => {
            resolved_types_are_closed(b, args, args.len() as int, seen);
        },
        TypeTerm::List(a) => resolved_type_is_closed(b, *a, seen),
        TypeTerm::SetOf(a) => resolved_type_is_closed(b, *a, seen),
        TypeTerm::Optional(a) => resolved_type_is_closed(b, *a, seen),
        TypeTerm::Reference(a) => resolved_type_is_closed(b, *a, seen),
        TypeTerm::MapOf(k, v) => {
            resolved_type_is_closed(b, *k, seen);
            resolved_type_is_closed(b, *v, seen);
        },
        TypeTerm::Tuple(k, v) => {
            resolved_type_is_closed(b, *k, seen);
            resolved_type_is_closed(b, *v, seen);
        },
        TypeTerm::ResultOf(k, v) => {
            resolved_type_is_closed(b, *k, seen);
            resolved_type_is_closed(b, *v, seen);
        },
        TypeTerm::Function { params, ret, default_count } => {
            resolved_types_are_closed(b, params, params.len() as int, seen);
            resolved_type_is_closed(b, *ret, seen);
        },
        _ => {},
    }
}

proof fn resolved_types_are_closed(
    b: Bindings,
    ts: Seq<TypeTerm>,
    n: int,
    seen: Seq<Seq<char>>,
)
    ensures
        resolve_all(b, ts, n, seen) matches Ok(rs) ==> forall|i: int|
            0 <= i < rs.len() ==> is_closed(#[trigger] rs[i]) && is_concrete(rs[i]),
    decreases b.len() - seen.len(), ts, n,
{
    if 0 < n <= ts.len() {
        resolved_types_are_closed(b, ts, n - 1, seen);
        resolved_type_is_closed(b, ts[n - 1], seen);
    }
}

} // verus!
