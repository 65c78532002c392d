//! Copying types.

use crate::semantics::types::{term_shapes, terms, Type};
use vstd::prelude::*;

verus! {

broadcast use term_shapes;

impl Type {
    /// A copy of a type.
    pub fn copy(&self) -> (r: Type)
        ensures
            r.term() == self.term(),
        decreases self,
    {
        match self {
            Type::Primitive(a) => {
                assert(*self == Type::Primitive(*a));
                Type::Primitive(*a)
            },
            Type::Void => Type::Void,
            Type::Never => Type::Never,
            Type::EmptyList => Type::EmptyList,
            Type::EmptyMap => Type::EmptyMap,
            Type::EmptySet => Type::EmptySet,
            Type::List(a) => {
                assert(*self == Type::List(*a));
                Type::List(Box::new(a.copy()))
            },
            Type::MapOf(a, b) => {
                assert(*self == Type::MapOf(*a, *b));
                Type::MapOf(Box::new(a.copy()), Box::new(b.copy()))
            },
            Type::SetOf(a) => {
                assert(*self == Type::SetOf(*a));
                Type::SetOf(Box::new(a.copy()))
            },
            Type::Tuple(a, b) => {
                assert(*self == Type::Tuple(*a, *b));
                Type::Tuple(Box::new(a.copy()), Box::new(b.copy()))
            },
            Type::Optional(a) => {
                assert(*self == Type::Optional(*a));
                Type::Optional(Box::new(a.copy()))
            },
            Type::ResultOf(a, b) => {
                assert(*self == Type::ResultOf(*a, *b));
                Type::ResultOf(Box::new(a.copy()), Box::new(b.copy()))
            },
            Type::Reference(a) => {
                assert(*self == Type::Reference(*a));
                Type::Reference(Box::new(a.copy()))
            },
            Type::Function { params, ret, default_count } => {
                assert(*self == (Type::Function { params: *params, ret: *ret, default_count: *default_count }));
                Type::Function { params: copy_all(params), ret: Box::new(ret.copy()), default_count: *default_count }
            },
            Type::Named(a, b) => {
                assert(*self == Type::Named(*a, *b));
                Type::Named(a.clone(), copy_all(b))
            },
            Type::Instantiated(a, b) => {
                assert(*self == Type::Instantiated(*a, *b));
                Type::Instantiated(a.clone(), copy_all(b))
            },
            Type::Generic(a) => {
                assert(*self == Type::Generic(*a));
                Type::Generic(a.clone())
            },
            Type::Variable(a) => {
                assert(*self == Type::Variable(*a));
                Type::Variable(a.clone())
            },
            Type::Module(a) => {
                assert(*self == Type::Module(*a));
                Type::Module(a.clone())
            },
        }
    }
}

/// A copy of some types.
pub fn copy_all(types: &Vec<Type>) -> (r: Vec<Type>)
    ensures
        terms(r@) == terms(types@),
    decreases types,
{
    let mut out: Vec<Type> = Vec::new();
    let mut i: usize = 0;
    while i < types.len()
        invariant
            i == out@.len() <= types@.len(),
            forall|j: int| 0 <= j < i ==> (#[trigger] out@[j]).term() == types@[j].term(),
        decreases types@.len() - i,
    {
        out.push(types[i].copy());
        i += 1;
    }
    assert(terms(out@) =~= terms(types@));
    out
}

} // verus!
