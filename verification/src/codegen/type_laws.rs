//! What substitution, resolution and storage make of types.

use crate::ast::tree::TypeShape;
use crate::ast::PrimitiveType;
use crate::codegen::generator::{lookup, Bindings};
use crate::codegen::instances::{instances, instances_in};
use crate::codegen::layout::{
    declared_slot, field_slot, parameter_name, scalar, settled, value_slot, SlotModel,
};
use crate::codegen::naming::enum_name;
use crate::codegen::resolution::{resolve, resolve_all, Resolved};
use crate::codegen::substitution::{
    substitute_name, substituted, traversed, traversed_all,
};
use crate::semantics::types::TypeTerm;
use vstd::prelude::*;

verus! {

/// A name means the first of its bindings, and nothing without one.
pub proof fn first_binding_counts(b: Bindings, i: int, name: Seq<char>)
    requires
        0 <= i < b.len(),
        b[i].0 == name,
        forall|j: int| 0 <= j < i ==> (#[trigger] b[j]).0 != name,
    ensures
        lookup(b, name) == Some(b[i].1),
    decreases i,
{
    if i > 0 {
        assert(b[0].0 != name);
        let rest = b.drop_first();
        assert forall|j: int| 0 <= j < i - 1 implies (#[trigger] rest[j]).0 != name by {
            assert(rest[j] == b[j + 1]);
        }
        first_binding_counts(rest, i - 1, name);
    }
}

/// A name without a binding means nothing.
pub proof fn unbound_name_means_nothing(b: Bindings, name: Seq<char>)
    requires
        forall|j: int| 0 <= j < b.len() ==> (#[trigger] b[j]).0 != name,
    ensures
        lookup(b, name) is None,
    decreases b.len(),
{
    if b.len() > 0 {
        assert(b[0].0 != name);
        let rest = b.drop_first();
        assert forall|j: int| 0 <= j < rest.len() implies (#[trigger] rest[j]).0 != name by {
            assert(rest[j] == b[j + 1]);
        }
        unbound_name_means_nothing(rest, name);
    }
}

/// What a substitution makes of each of some types.
pub open spec fn each_substituted(ts: Seq<TypeTerm>, b: Bindings) -> Seq<TypeTerm> {
    Seq::new(ts.len(), |i: int| substituted(ts[i], b))
}

proof fn substitution_succeeds(t: TypeTerm, b: Bindings)
    ensures
        traversed(t, |name: Seq<char>| substitute_name(b, name)) is Ok,
    decreases t, 1int,
{
    match t {
        TypeTerm::Named(_, args) => substitutions_succeed(args, args.len() as int, b),
        TypeTerm::Instantiated(_, args) => substitutions_succeed(args, args.len() as int, b),
        TypeTerm::List(a) => substitution_succeeds(*a, b),
        TypeTerm::SetOf(a) => substitution_succeeds(*a, b),
        TypeTerm::Optional(a) => substitution_succeeds(*a, b),
        TypeTerm::Reference(a) => substitution_succeeds(*a, b),
        TypeTerm::MapOf(k, v) => {
            substitution_succeeds(*k, b);
            substitution_succeeds(*v, b);
        },
        TypeTerm::Tuple(k, v) => {
            substitution_succeeds(*k, b);
            substitution_succeeds(*v, b);
        },
        TypeTerm::ResultOf(k, v) => {
            substitution_succeeds(*k, b);
            substitution_succeeds(*v, b);
        },
        TypeTerm::Function { params, ret, default_count } => {
            substitutions_succeed(params, params.len() as int, b);
            substitution_succeeds(*ret, b);
        },
        _ => {},
    }
}

proof fn substitutions_succeed(ts: Seq<TypeTerm>, n: int, b: Bindings)
    requires
        0 <= n <= ts.len(),
    ensures
        traversed_all(ts, n, |name: Seq<char>| substitute_name(b, name)) == Result::<
            Seq<TypeTerm>,
            Seq<char>,
        >::Ok(each_substituted(ts, b).take(n)),
    decreases ts, n,
{
    let f = |name: Seq<char>| substitute_name(b, name);
    if n > 0 {
        substitutions_succeed(ts, n - 1, b);
        substitution_succeeds(ts[n - 1], b);
        assert(each_substituted(ts, b).take(n - 1).push(substituted(ts[n - 1], b))
            =~= each_substituted(ts, b).take(n));
    } else {
        assert(each_substituted(ts, b).take(0) =~= seq![]);
    }
}

/// A substitution puts the binding of a variable in its place, and keeps a
/// variable without a binding.
pub proof fn variable_becomes_its_binding(b: Bindings, name: Seq<char>)
    ensures
        lookup(b, name) matches Some(t) ==> substituted(TypeTerm::Variable(name), b) == t
            && substituted(TypeTerm::Generic(name), b) == t,
        lookup(b, name) is None ==> substituted(TypeTerm::Variable(name), b) == TypeTerm::Variable(
            name,
        ),
{
}

/// A substitution keeps the shape of a type around the variables: it goes into
/// every part and leaves every part where it stands.
pub proof fn substitution_keeps_the_shape(
    b: Bindings,
    x: TypeTerm,
    y: TypeTerm,
    ts: Seq<TypeTerm>,
    name: Seq<char>,
    default_count: usize,
)
    ensures
        substituted(TypeTerm::List(Box::new(x)), b) == TypeTerm::List(Box::new(substituted(x, b))),
        substituted(TypeTerm::SetOf(Box::new(x)), b) == TypeTerm::SetOf(
            Box::new(substituted(x, b)),
        ),
        substituted(TypeTerm::Optional(Box::new(x)), b) == TypeTerm::Optional(
            Box::new(substituted(x, b)),
        ),
        substituted(TypeTerm::Reference(Box::new(x)), b) == TypeTerm::Reference(
            Box::new(substituted(x, b)),
        ),
        substituted(TypeTerm::MapOf(Box::new(x), Box::new(y)), b) == TypeTerm::MapOf(
            Box::new(substituted(x, b)),
            Box::new(substituted(y, b)),
        ),
        substituted(TypeTerm::Tuple(Box::new(x), Box::new(y)), b) == TypeTerm::Tuple(
            Box::new(substituted(x, b)),
            Box::new(substituted(y, b)),
        ),
        substituted(TypeTerm::ResultOf(Box::new(x), Box::new(y)), b) == TypeTerm::ResultOf(
            Box::new(substituted(x, b)),
            Box::new(substituted(y, b)),
        ),
        substituted(TypeTerm::Named(name, ts), b) == TypeTerm::Named(
            name,
            each_substituted(ts, b),
        ),
        substituted(TypeTerm::Instantiated(name, ts), b) == TypeTerm::Instantiated(
            name,
            each_substituted(ts, b),
        ),
        substituted(
            (TypeTerm::Function { params: ts, ret: Box::new(x), default_count }),
            b,
        ) == (TypeTerm::Function {
            params: each_substituted(ts, b),
            ret: Box::new(substituted(x, b)),
            default_count,
        }),
{
    substitution_succeeds(x, b);
    substitution_succeeds(y, b);
    substitutions_succeed(ts, ts.len() as int, b);
    assert(each_substituted(ts, b).take(ts.len() as int) =~= each_substituted(ts, b));
}

/// A resolved type and another one have each of the resolved parts in the same
/// place.
pub proof fn resolution_keeps_the_shape(
    b: Bindings,
    x: TypeTerm,
    y: TypeTerm,
    seen: Seq<Seq<char>>,
)
    ensures
        resolve(b, TypeTerm::List(Box::new(x)), seen) == (match resolve(b, x, seen) {
            Ok(r) => Resolved::Ok(TypeTerm::List(Box::new(r))),
            Err(e) => Resolved::Err(e),
        }),
        resolve(b, TypeTerm::SetOf(Box::new(x)), seen) == (match resolve(b, x, seen) {
            Ok(r) => Resolved::Ok(TypeTerm::SetOf(Box::new(r))),
            Err(e) => Resolved::Err(e),
        }),
        resolve(b, TypeTerm::Optional(Box::new(x)), seen) == (match resolve(b, x, seen) {
            Ok(r) => Resolved::Ok(TypeTerm::Optional(Box::new(r))),
            Err(e) => Resolved::Err(e),
        }),
        resolve(b, TypeTerm::Reference(Box::new(x)), seen) == (match resolve(b, x, seen) {
            Ok(r) => Resolved::Ok(TypeTerm::Reference(Box::new(r))),
            Err(e) => Resolved::Err(e),
        }),
        resolve(b, x, seen) matches Ok(p) ==> resolve(b, y, seen) matches Ok(q) ==> {
            &&& resolve(b, TypeTerm::MapOf(Box::new(x), Box::new(y)), seen) == Resolved::Ok(
                TypeTerm::MapOf(Box::new(p), Box::new(q)),
            )
            &&& resolve(b, TypeTerm::Tuple(Box::new(x), Box::new(y)), seen) == Resolved::Ok(
                TypeTerm::Tuple(Box::new(p), Box::new(q)),
            )
            &&& resolve(b, TypeTerm::ResultOf(Box::new(x), Box::new(y)), seen) == Resolved::Ok(
                TypeTerm::ResultOf(Box::new(p), Box::new(q)),
            )
        },
{
}

/// Types that resolve do so one by one, and stay in their order.
pub proof fn resolved_types_keep_their_order(
    b: Bindings,
    ts: Seq<TypeTerm>,
    n: int,
    seen: Seq<Seq<char>>,
    i: int,
)
    requires
        0 <= i < n <= ts.len(),
        resolve_all(b, ts, n, seen) is Ok,
    ensures
        resolve_all(b, ts, n, seen)->Ok_0.len() == n,
        resolve(b, ts[i], seen) == Resolved::Ok(resolve_all(b, ts, n, seen)->Ok_0[i]),
    decreases n,
{
    if i < n - 1 {
        resolved_types_keep_their_order(b, ts, n - 1, seen, i);
    } else if n > 1 {
        resolved_types_keep_their_order(b, ts, n - 1, seen, 0);
    }
}

/// Resolving a bound parameter is resolving what it stands for; a parameter
/// that stands for itself cannot be resolved.
pub proof fn parameter_resolves_to_its_binding(b: Bindings, name: Seq<char>, t: TypeTerm)
    requires
        b.len() > 0,
        lookup(b, name) == Some(t),
    ensures
        resolve(b, TypeTerm::Variable(name), seq![]) == resolve(b, t, seq![name]),
        resolve(b, TypeTerm::Generic(name), seq![]) == resolve(b, t, seq![name]),
        resolve(b, TypeTerm::Named(name, seq![]), seq![]) == resolve(b, t, seq![name]),
        t == TypeTerm::Variable(name) ==> resolve(b, t, seq![]) is Err,
{
    assert(Seq::<Seq<char>>::empty().push(name) =~= seq![name]);
    assert(seq![name][0] == name);
    assert(seq![name].contains(name));
    if t == TypeTerm::Variable(name) {
        assert(resolve(b, t, seq![name]) is Err);
    }
}

/// Numbers, characters and truth values are held in a slot of their own kind:
/// whole numbers and characters in 64 bits, fractions in a double, truth values
/// in a bit. Variables, fields and declarations agree about that, and hold
/// strings and collections behind a pointer.
pub proof fn slots_fit_their_values(
    b: Bindings,
    classes: Seq<Seq<char>>,
    enums: Seq<Seq<char>>,
    structs: Seq<Seq<char>>,
    p: PrimitiveType,
)
    ensures
        ({
            let t = TypeTerm::Primitive(p);
            let slot = scalar(t);
            &&& (slot is Some <==> !(p is Str) && !(p is Void) && !(p is Auto))
            &&& (slot == Some(SlotModel::Int64) <==> p is Int || p is Char)
            &&& (slot == Some(SlotModel::Double) <==> p is Float)
            &&& (slot == Some(SlotModel::Bit) <==> p is Bool)
            &&& (value_slot(classes, t) is Err <==> p is Void || p is Auto)
            &&& (value_slot(classes, t) matches Ok(s) ==> {
                &&& s == (if slot is Some {
                    slot->0
                } else {
                    SlotModel::Pointer
                })
                &&& field_slot(t) == Result::<SlotModel, Seq<char>>::Ok(s)
                &&& declared_slot(b, classes, enums, structs, TypeShape::Primitive(p)) == Result::<
                    SlotModel,
                    Seq<char>,
                >::Ok(s)
            })
            &&& (value_slot(classes, t) is Err ==> field_slot(t) is Err && declared_slot(
                b,
                classes,
                enums,
                structs,
                TypeShape::Primitive(p),
            ) is Err)
        }),
{
}

/// Collections, pairs, options, results, references and functions are held
/// behind a pointer.
pub proof fn compound_values_are_held_behind_pointers(classes: Seq<Seq<char>>, t: TypeTerm)
    requires
        t is List || t is MapOf || t is SetOf || t is Tuple || t is Optional || t is ResultOf
            || t is Reference || t is Function,
    ensures
        scalar(t) is None,
        value_slot(classes, t) == Result::<SlotModel, Seq<char>>::Ok(SlotModel::Pointer),
{
}

/// Following bound parameters ends at a type that is no bound parameter, and
/// starts with what the parameter stands for.
pub proof fn followed_parameters_are_unbound(b: Bindings, t: TypeTerm, steps: nat)
    ensures
        settled(b, t, steps) matches Some(r) ==> (parameter_name(r) matches Some(name) ==> lookup(
            b,
            name,
        ) is None),
        parameter_name(t) is None ==> settled(b, t, steps) == Some(t),
        parameter_name(t) matches Some(name) ==> (lookup(b, name) matches Some(c) ==> steps > 0
            ==> settled(b, t, steps) == settled(b, c, (steps - 1) as nat)),
    decreases steps,
{
    if let Some(name) = parameter_name(t) {
        if let Some(c) = lookup(b, name) {
            if steps > 0 {
                followed_parameters_are_unbound(b, c, (steps - 1) as nat);
            }
        }
    }
}

/// A parameter is held as what it stands for.
pub proof fn parameter_is_held_as_its_type(
    b: Bindings,
    classes: Seq<Seq<char>>,
    enums: Seq<Seq<char>>,
    structs: Seq<Seq<char>>,
    name: Seq<char>,
    t: TypeTerm,
)
    requires
        lookup(b, name) == Some(t),
        parameter_name(t) is None,
    ensures
        declared_slot(b, classes, enums, structs, TypeShape::Named(name, seq![])) == value_slot(
            classes,
            t,
        ),
{
    followed_parameters_are_unbound(b, t, b.len());
}

/// A compound type calls for all the instances that its parts call for.
pub proof fn parts_call_for_instances(
    enums: Seq<Seq<char>>,
    x: TypeTerm,
    y: TypeTerm,
    found: Seq<char>,
)
    requires
        instances(enums, x).contains(found) || instances(enums, y).contains(found),
    ensures
        instances(enums, TypeTerm::MapOf(Box::new(x), Box::new(y))).contains(found),
        instances(enums, TypeTerm::Tuple(Box::new(x), Box::new(y))).contains(found),
        instances(enums, TypeTerm::ResultOf(Box::new(x), Box::new(y))).contains(found),
        x == y ==> {
            &&& instances(enums, TypeTerm::List(Box::new(x))).contains(found)
            &&& instances(enums, TypeTerm::SetOf(Box::new(x))).contains(found)
            &&& instances(enums, TypeTerm::Optional(Box::new(x))).contains(found)
            &&& instances(enums, TypeTerm::Reference(Box::new(x))).contains(found)
        },
{
    held_by_both(instances(enums, x), instances(enums, y), found);
}

/// A generic enum of the program calls for an instance with its arguments; one
/// without arguments, or a name of no enum, does not.
pub proof fn generic_enum_calls_for_its_instance(
    enums: Seq<Seq<char>>,
    name: Seq<char>,
    args: Seq<TypeTerm>,
)
    ensures
        enums.contains(name) && args.len() > 0 ==> instances(
            enums,
            TypeTerm::Named(name, args),
        ).contains(enum_name(name, args)),
        args.len() == 0 ==> instances(enums, TypeTerm::Named(name, args)).len() == 0,
{
    let all = instances(enums, TypeTerm::Named(name, args));
    if enums.contains(name) && args.len() > 0 {
        assert(all[all.len() - 1] == enum_name(name, args));
    }
    assert(instances_in(enums, args, 0).len() == 0);
}

proof fn held_by_both(a: Seq<Seq<char>>, b: Seq<Seq<char>>, x: Seq<char>)
    requires
        a.contains(x) || b.contains(x),
    ensures
        (a + b).contains(x),
{
    if a.contains(x) {
        let i = choose|i: int| 0 <= i < a.len() && a[i] == x;
        assert((a + b)[i] == x);
    } else {
        let i = choose|i: int| 0 <= i < b.len() && b[i] == x;
        assert((a + b)[a.len() + i] == x);
    }
}

} // verus!
