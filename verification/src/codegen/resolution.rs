//! Replacing type parameters by the types that they stand for.

use crate::codegen::generator::{lookup, Bindings, CodeGenerator};
use crate::semantics::types::{term_shapes, terms, type_variant, TypeTerm};
use crate::semantics::Type;
use crate::text::{cat, same};
use vstd::prelude::*;

verus! {

broadcast use term_shapes;

/// A type, or why it cannot be resolved.
pub type Resolved = Result<TypeTerm, Seq<char>>;

/// The result of a resolution as a mathematical value.
pub open spec fn resolved(r: Result<Type, String>) -> Resolved {
    match r {
        Ok(t) => Ok(t.term()),
        Err(e) => Err(e@),
    }
}

pub open spec fn cyclic(name: Seq<char>) -> Seq<char> {
    "Cyclic generic resolution for '"@ + name + "'"@
}

pub open spec fn module_type() -> Seq<char> {
    "Module types should not appear in codegen - they are compile-time only"@
}

/// One part and then another.
pub open spec fn both(
    first: Resolved,
    second: Resolved,
    whole: spec_fn(TypeTerm, TypeTerm) -> TypeTerm,
) -> Resolved {
    match first {
        Err(e) => Err(e),
        Ok(a) => match second {
            Err(e) => Err(e),
            Ok(b) => Ok(whole(a, b)),
        },
    }
}

/// One part.
pub open spec fn one(part: Resolved, whole: spec_fn(TypeTerm) -> TypeTerm) -> Resolved {
    match part {
        Err(e) => Err(e),
        Ok(a) => Ok(whole(a)),
    }
}

/// A type with its parameters replaced, inside the parameters `seen`, which
/// must not come again.
pub open spec fn resolve(b: Bindings, t: TypeTerm, seen: Seq<Seq<char>>) -> Resolved
    decreases b.len() - seen.len(), t, 0int,
{
    match t {
        TypeTerm::Primitive(_)
        | TypeTerm::Void
        | TypeTerm::Never
        | TypeTerm::EmptyList
        | TypeTerm::EmptyMap
        | TypeTerm::EmptySet => Ok(t),
        TypeTerm::Generic(name) | TypeTerm::Variable(name) => if seen.contains(name) {
            Err(cyclic(name))
        } else {
            match lookup(b, name) {
                Some(concrete) => if seen.len() >= b.len() {
                    Err(cyclic(name))
                } else {
                    resolve(b, concrete, seen.push(name))
                },
                None => Err("Unresolved generic: "@ + name),
            }
        },
        TypeTerm::Named(name, args) => if args.len() == 0 {
            if seen.contains(name) {
                Err(cyclic(name))
            } else {
                match lookup(b, name) {
                    Some(concrete) => if seen.len() >= b.len() {
                        Err(cyclic(name))
                    } else {
                        resolve(b, concrete, seen.push(name))
                    },
                    None => Ok(t),
                }
            }
        } else {
            match resolve_all(b, args, args.len() as int, seen) {
                Ok(rs) => Ok(TypeTerm::Named(name, rs)),
                Err(e) => Err(e),
            }
        },
        TypeTerm::Instantiated(name, args) => match resolve_all(b, args, args.len() as int, seen) {
            Ok(rs) => Ok(TypeTerm::Instantiated(name, rs)),
            Err(e) => Err(e),
        },
        TypeTerm::List(a) => one(resolve(b, *a, seen), |x: TypeTerm| TypeTerm::List(Box::new(x))),
        TypeTerm::SetOf(a) => one(resolve(b, *a, seen), |x: TypeTerm| TypeTerm::SetOf(Box::new(x))),
        TypeTerm::Optional(a) => one(
            resolve(b, *a, seen),
            |x: TypeTerm| TypeTerm::Optional(Box::new(x)),
        ),
        TypeTerm::Reference(a) => one(
            resolve(b, *a, seen),
            |x: TypeTerm| TypeTerm::Reference(Box::new(x)),
        ),
        TypeTerm::MapOf(k, v) => both(
            resolve(b, *k, seen),
            resolve(b, *v, seen),
            |x: TypeTerm, y: TypeTerm| TypeTerm::MapOf(Box::new(x), Box::new(y)),
        ),
        TypeTerm::Tuple(k, v) => both(
            resolve(b, *k, seen),
            resolve(b, *v, seen),
            |x: TypeTerm, y: TypeTerm| TypeTerm::Tuple(Box::new(x), Box::new(y)),
        ),
        TypeTerm::ResultOf(k, v) => both(
            resolve(b, *k, seen),
            resolve(b, *v, seen),
            |x: TypeTerm, y: TypeTerm| TypeTerm::ResultOf(Box::new(x), Box::new(y)),
        ),
        TypeTerm::Function { params, ret, default_count } => match resolve_all(
            b,
            params,
            params.len() as int,
            seen,
        ) {
            Err(e) => Err(e),
            Ok(ps) => one(
                resolve(b, *ret, seen),
                |x: TypeTerm|
                    TypeTerm::Function { params: ps, ret: Box::new(x), default_count },
            ),
        },
        TypeTerm::Module(_) => Err(module_type()),
    }
}

/// The first `n` of some types; the first that cannot be resolved decides.
pub open spec fn resolve_all(
    b: Bindings,
    ts: Seq<TypeTerm>,
    n: int,
    seen: Seq<Seq<char>>,
) -> Result<Seq<TypeTerm>, Seq<char>>
    decreases b.len() - seen.len(), ts, n,
{
    if n <= 0 || n > ts.len() {
        Ok(seq![])
    } else {
        match resolve_all(b, ts, n - 1, seen) {
            Err(e) => Err(e),
            Ok(rs) => match resolve(b, ts[n - 1], seen) {
                Err(e) => Err(e),
                Ok(r) => Ok(rs.push(r)),
            },
        }
    }
}

/// Names as mathematical values.
pub open spec fn names(v: Seq<String>) -> Seq<Seq<char>> {
    Seq::new(v.len(), |i: int| v[i]@)
}

/// Different names, each bound.
pub open spec fn distinct_bound(b: Bindings, seen: Seq<Seq<char>>) -> bool {
    &&& forall|i: int, j: int|
        0 <= i < j < seen.len() ==> (#[trigger] seen[i]) != (#[trigger] seen[j])
    &&& forall|i: int| 0 <= i < seen.len() ==> lookup(b, #[trigger] seen[i]) is Some
}

/// The place of a bound name.
pub open spec fn place(b: Bindings, name: Seq<char>) -> int
    decreases b.len(),
{
    if b.len() == 0 || b[0].0 == name {
        0
    } else {
        1 + place(b.drop_first(), name)
    }
}

proof fn place_holds(b: Bindings, name: Seq<char>)
    requires
        lookup(b, name) is Some,
    ensures
        0 <= place(b, name) < b.len(),
        b[place(b, name)].0 == name,
    decreases b.len(),
{
    if b.len() > 0 && b[0].0 != name {
        place_holds(b.drop_first(), name);
    }
}

/// No more different names than bindings.
proof fn seen_fits(b: Bindings, seen: Seq<Seq<char>>, name: Seq<char>)
    requires
        distinct_bound(b, seen),
        !seen.contains(name),
        lookup(b, name) is Some,
    ensures
        seen.len() < b.len(),
        distinct_bound(b, seen.push(name)),
{
    let all = seen.push(name);
    assert(distinct_bound(b, all)) by {
        assert forall|i: int, j: int| 0 <= i < j < all.len() implies (#[trigger] all[i]) != (
        #[trigger] all[j]) by {
            if j == seen.len() {
                assert(all[i] == seen[i]);
                assert(seen.contains(seen[i]));
            }
        }
    }
    let places = Seq::new(all.len(), |i: int| place(b, all[i]));
    let range = Seq::new(b.len(), |i: int| i);
    assert forall|i: int| 0 <= i < all.len() implies 0 <= #[trigger] places[i] < b.len()
        && b[places[i]].0 == all[i] by {
        place_holds(b, all[i]);
    }
    assert(places.no_duplicates()) by {
        assert forall|i: int, j: int|
            0 <= i < places.len() && 0 <= j < places.len() && i != j implies places[i]
            != places[j] by {
            assert(b[places[i]].0 == all[i] && b[places[j]].0 == all[j]);
            if i < j {
                assert(all[i] != all[j]);
            } else {
                assert(all[j] != all[i]);
            }
        }
    }
    places.unique_seq_to_set();
    let bound = vstd::set_lib::set_int_range(0, b.len() as int);
    vstd::set_lib::lemma_int_range(0, b.len() as int);
    assert(places.to_set().subset_of(bound)) by {
        assert forall|x: int| places.to_set().contains(x) implies bound.contains(x) by {
            let i = choose|i: int| 0 <= i < places.len() && places[i] == x;
            assert(0 <= places[i] < b.len());
        }
    }
    vstd::set_lib::lemma_len_subset(places.to_set(), bound);
}

fn was_seen(seen: &Vec<String>, name: &str) -> (r: bool)
    ensures
        r == names(seen@).contains(name@),
{
    let mut i: usize = 0;
    while i < seen.len()
        invariant
            i <= seen@.len(),
            forall|j: int| 0 <= j < i ==> (#[trigger] names(seen@)[j]) != name@,
        decreases seen@.len() - i,
    {
        if same(seen[i].as_str(), name) {
            assert(names(seen@)[i as int] == name@);
            return true;
        }
        i += 1;
    }
    false
}

fn cyclic_error(name: &str) -> (r: String)
    ensures
        r@ == cyclic(name@),
{
    let mut out = cat("Cyclic generic resolution for '", name);
    out.append("'");
    out
}

impl CodeGenerator {
    /// What a bound parameter stands for, resolved in turn.
    fn resolve_bound(&self, name: &str, concrete: &Type, seen: &mut Vec<String>) -> (r: Result<
        Type,
        String,
    >)
        requires
            distinct_bound(self.params(), names(old(seen)@)),
            !names(old(seen)@).contains(name@),
            lookup(self.params(), name@) == Some(concrete.term()),
        ensures
            names(final(seen)@) == names(old(seen)@),
            final(seen)@.len() == old(seen)@.len(),
            names(old(seen)@).len() < self.params().len(),
            resolved(r) == resolve(
                self.params(),
                concrete.term(),
                names(old(seen)@).push(name@),
            ),
        decreases self.params().len() - old(seen)@.len(), 0int, *concrete, 3int,
    {
        proof {
            seen_fits(self.params(), names(seen@), name@);
        }
        let ghost before = names(seen@);
        seen.push(name.to_owned());
        assert(names(seen@) =~= before.push(name@));
        let r = self.resolve_type_with_seen(concrete, seen);
        let ghost after = seen@;
        seen.pop();
        proof {
            assert(names(after) == before.push(name@));
            assert(names(after).len() == after.len());
            assert forall|i: int| 0 <= i < seen@.len() implies names(seen@)[i] == before[i] by {
                assert(names(after)[i] == after[i]@);
            }
            assert(names(seen@) =~= before);
        }
        r
    }

    /// A type with its parameters replaced, inside the parameters `seen`.
    fn resolve_type_with_seen(&self, type_: &Type, seen: &mut Vec<String>) -> (r: Result<
        Type,
        String,
    >)
        requires
            distinct_bound(self.params(), names(old(seen)@)),
        ensures
            names(final(seen)@) == names(old(seen)@),
            final(seen)@.len() == old(seen)@.len(),
            resolved(r) == resolve(self.params(), type_.term(), names(old(seen)@)),
        decreases self.params().len() - old(seen)@.len(), 1int, *type_, 2int,
    {
        proof {
            type_variant(*type_);
        }
        match type_ {
            Type::Primitive(_)
            | Type::Void
            | Type::Never
            | Type::EmptyList
            | Type::EmptyMap
            | Type::EmptySet => Ok(type_.copy()),
            Type::Generic(name) => {
                assert(*type_ == Type::Generic(*name));
                self.resolve_parameter(name.as_str(), seen)
            },
            Type::Variable(name) => {
                assert(*type_ == Type::Variable(*name));
                self.resolve_parameter(name.as_str(), seen)
            },
            Type::Named(name, type_args) => {
                assert(*type_ == Type::Named(*name, *type_args));
                if type_args.len() == 0 {
                    if was_seen(seen, name.as_str()) {
                        return Err(cyclic_error(name.as_str()));
                    }
                    match self.resolve_generic_param(name.as_str()) {
                        Some(concrete) => self.resolve_bound(name.as_str(), concrete, seen),
                        None => Ok(type_.copy()),
                    }
                } else {
                    match self.resolve_types_with_seen(type_args, seen) {
                        Ok(args) => Ok(Type::Named(name.clone(), args)),
                        Err(e) => Err(e),
                    }
                }
            },
            Type::Instantiated(name, type_args) => {
                assert(*type_ == Type::Instantiated(*name, *type_args));
                match self.resolve_types_with_seen(type_args, seen) {
                    Ok(args) => Ok(Type::Instantiated(name.clone(), args)),
                    Err(e) => Err(e),
                }
            },
            Type::List(inner) => {
                assert(*type_ == Type::List(*inner));
                match self.resolve_type_with_seen(inner, seen) {
                    Ok(t) => Ok(Type::List(Box::new(t))),
                    Err(e) => Err(e),
                }
            },
            Type::SetOf(inner) => {
                assert(*type_ == Type::SetOf(*inner));
                match self.resolve_type_with_seen(inner, seen) {
                    Ok(t) => Ok(Type::SetOf(Box::new(t))),
                    Err(e) => Err(e),
                }
            },
            Type::Optional(inner) => {
                assert(*type_ == Type::Optional(*inner));
                match self.resolve_type_with_seen(inner, seen) {
                    Ok(t) => Ok(Type::Optional(Box::new(t))),
                    Err(e) => Err(e),
                }
            },
            Type::Reference(inner) => {
                assert(*type_ == Type::Reference(*inner));
                match self.resolve_type_with_seen(inner, seen) {
                    Ok(t) => Ok(Type::Reference(Box::new(t))),
                    Err(e) => Err(e),
                }
            },
            Type::MapOf(k, v) => {
                assert(*type_ == Type::MapOf(*k, *v));
                match self.resolve_type_with_seen(k, seen) {
                    Ok(k) => match self.resolve_type_with_seen(v, seen) {
                        Ok(v) => Ok(Type::MapOf(Box::new(k), Box::new(v))),
                        Err(e) => Err(e),
                    },
                    Err(e) => Err(e),
                }
            },
            Type::Tuple(k, v) => {
                assert(*type_ == Type::Tuple(*k, *v));
                match self.resolve_type_with_seen(k, seen) {
                    Ok(k) => match self.resolve_type_with_seen(v, seen) {
                        Ok(v) => Ok(Type::Tuple(Box::new(k), Box::new(v))),
                        Err(e) => Err(e),
                    },
                    Err(e) => Err(e),
                }
            },
            Type::ResultOf(k, v) => {
                assert(*type_ == Type::ResultOf(*k, *v));
                match self.resolve_type_with_seen(k, seen) {
                    Ok(k) => match self.resolve_type_with_seen(v, seen) {
                        Ok(v) => Ok(Type::ResultOf(Box::new(k), Box::new(v))),
                        Err(e) => Err(e),
                    },
                    Err(e) => Err(e),
                }
            },
            Type::Function { params, ret, default_count } => {
                assert(*type_ == (Type::Function {
                    params: *params,
                    ret: *ret,
                    default_count: *default_count,
                }));
                match self.resolve_types_with_seen(params, seen) {
                    Ok(params) => match self.resolve_type_with_seen(ret, seen) {
                        Ok(ret) => Ok(
                            Type::Function {
                                params,
                                ret: Box::new(ret),
                                default_count: *default_count,
                            },
                        ),
                        Err(e) => Err(e),
                    },
                    Err(e) => Err(e),
                }
            },
            Type::Module(name) => {
                assert(*type_ == Type::Module(*name));
                Err(
                    "Module types should not appear in codegen - they are compile-time only".to_owned(),
                )
            },
        }
    }

    /// What a type parameter or variable stands for, resolved in turn.
    fn resolve_parameter(&self, name: &str, seen: &mut Vec<String>) -> (r: Result<Type, String>)
        requires
            distinct_bound(self.params(), names(old(seen)@)),
        ensures
            names(final(seen)@) == names(old(seen)@),
            final(seen)@.len() == old(seen)@.len(),
            resolved(r) == resolve(
                self.params(),
                TypeTerm::Generic(name@),
                names(old(seen)@),
            ),
            resolved(r) == resolve(
                self.params(),
                TypeTerm::Variable(name@),
                names(old(seen)@),
            ),
        decreases self.params().len() - old(seen)@.len(), 0int,
    {
        if was_seen(seen, name) {
            return Err(cyclic_error(name));
        }
        match self.resolve_generic_param(name) {
            Some(concrete) => self.resolve_bound(name, concrete, seen),
            None => Err(cat("Unresolved generic: ", name)),
        }
    }

    fn resolve_types_with_seen(&self, types: &Vec<Type>, seen: &mut Vec<String>) -> (r: Result<
        Vec<Type>,
        String,
    >)
        requires
            distinct_bound(self.params(), names(old(seen)@)),
        ensures
            names(final(seen)@) == names(old(seen)@),
            final(seen)@.len() == old(seen)@.len(),
            match r {
                Ok(v) => resolve_all(
                    self.params(),
                    terms(types@),
                    types@.len() as int,
                    names(old(seen)@),
                ) == Ok::<Seq<TypeTerm>, Seq<char>>(terms(v@)),
                Err(e) => resolve_all(
                    self.params(),
                    terms(types@),
                    types@.len() as int,
                    names(old(seen)@),
                ) == Err::<Seq<TypeTerm>, Seq<char>>(e@),
            },
        decreases self.params().len() - old(seen)@.len(), 1int, *types, 0int,
    {
        let mut out: Vec<Type> = Vec::new();
        let mut i: usize = 0;
        let ghost b = self.params();
        let ghost ts = terms(types@);
        let ghost s = names(seen@);
        while i < types.len()
            invariant
                i <= types@.len(),
                b == self.params(),
                ts == terms(types@),
                ts.len() == types@.len(),
                s == names(old(seen)@),
                names(seen@) == s,
                seen@.len() == old(seen)@.len(),
                distinct_bound(b, s),
                resolve_all(b, ts, i as int, s) == Ok::<Seq<TypeTerm>, Seq<char>>(terms(out@)),
            decreases types@.len() - i,
        {
            assert(seen@.len() == names(seen@).len());
            assert(ts[i as int] == types@[i as int].term());
            match self.resolve_type_with_seen(&types[i], seen) {
                Ok(t) => {
                    out.push(t);
                },
                Err(e) => {
                    proof {
                        assert(resolve_all(b, ts, i + 1, s) == Err::<Seq<TypeTerm>, Seq<char>>(e@));
                        first_failure_stays(b, ts, i + 1, ts.len() as int, s);
                    }
                    return Err(e);
                },
            }
            assert(seen@.len() == names(seen@).len());
            i += 1;
        }
        Ok(out)
    }

    /// A type with its parameters replaced.
    pub fn resolve_type(&self, type_: &Type) -> (r: Result<Type, String>)
        ensures
            resolved(r) == resolve(self.params(), type_.term(), seq![]),
    {
        let mut seen: Vec<String> = Vec::new();
        assert(names(seen@) =~= seq![]);
        self.resolve_type_with_seen(type_, &mut seen)
    }
}

proof fn first_failure_stays(
    b: Bindings,
    ts: Seq<TypeTerm>,
    i: int,
    n: int,
    seen: Seq<Seq<char>>,
)
    requires
        0 <= i <= n <= ts.len(),
        resolve_all(b, ts, i, seen) is Err,
    ensures
        resolve_all(b, ts, n, seen) == resolve_all(b, ts, i, seen),
    decreases n - i,
{
    if i < n {
        first_failure_stays(b, ts, i, n - 1, seen);
    }
}

} // verus!
