//! Types as the compiler's back end sees them.

use crate::ast::PrimitiveType;
use vstd::prelude::*;

verus! {

/// A resolved type.
#[derive(Debug, PartialEq)]
pub enum Type {
    Primitive(PrimitiveType),
    Void,
    Never,
    EmptyList,
    EmptyMap,
    EmptySet,
    List(Box<Type>),
    MapOf(Box<Type>, Box<Type>),
    SetOf(Box<Type>),
    Tuple(Box<Type>, Box<Type>),
    Optional(Box<Type>),
    ResultOf(Box<Type>, Box<Type>),
    Reference(Box<Type>),
    Function { params: Vec<Type>, ret: Box<Type>, default_count: usize },
    Named(String, Vec<Type>),
    Instantiated(String, Vec<Type>),
    Generic(String),
    Variable(String),
    Module(String),
}

/// A type as a mathematical value.
pub enum TypeTerm {
    Primitive(PrimitiveType),
    Void,
    Never,
    EmptyList,
    EmptyMap,
    EmptySet,
    List(Box<TypeTerm>),
    MapOf(Box<TypeTerm>, Box<TypeTerm>),
    SetOf(Box<TypeTerm>),
    Tuple(Box<TypeTerm>, Box<TypeTerm>),
    Optional(Box<TypeTerm>),
    ResultOf(Box<TypeTerm>, Box<TypeTerm>),
    Reference(Box<TypeTerm>),
    Function { params: Seq<TypeTerm>, ret: Box<TypeTerm>, default_count: usize },
    Named(Seq<char>, Seq<TypeTerm>),
    Instantiated(Seq<char>, Seq<TypeTerm>),
    Generic(Seq<char>),
    Variable(Seq<char>),
    Module(Seq<char>),
}

impl Type {
    #[verifier::opaque]
    pub open spec fn term(self) -> TypeTerm
        decreases self,
    {
        match self {
            Type::Primitive(a) => TypeTerm::Primitive(a),
            Type::Void => TypeTerm::Void,
            Type::Never => TypeTerm::Never,
            Type::EmptyList => TypeTerm::EmptyList,
            Type::EmptyMap => TypeTerm::EmptyMap,
            Type::EmptySet => TypeTerm::EmptySet,
            Type::List(a) => TypeTerm::List(Box::new((*a).term())),
            Type::MapOf(a, b) => TypeTerm::MapOf(Box::new((*a).term()), Box::new((*b).term())),
            Type::SetOf(a) => TypeTerm::SetOf(Box::new((*a).term())),
            Type::Tuple(a, b) => TypeTerm::Tuple(Box::new((*a).term()), Box::new((*b).term())),
            Type::Optional(a) => TypeTerm::Optional(Box::new((*a).term())),
            Type::ResultOf(a, b) => TypeTerm::ResultOf(Box::new((*a).term()), Box::new((*b).term())),
            Type::Reference(a) => TypeTerm::Reference(Box::new((*a).term())),
            Type::Function { params, ret, default_count } => TypeTerm::Function { params: terms(params@), ret: Box::new((*ret).term()), default_count: default_count },
            Type::Named(a, b) => TypeTerm::Named(a@, terms(b@)),
            Type::Instantiated(a, b) => TypeTerm::Instantiated(a@, terms(b@)),
            Type::Generic(a) => TypeTerm::Generic(a@),
            Type::Variable(a) => TypeTerm::Variable(a@),
            Type::Module(a) => TypeTerm::Module(a@),
        }
    }
}

#[verifier::opaque]
pub open spec fn terms(s: Seq<Type>) -> Seq<TypeTerm>
    decreases s,
{
    Seq::new(s.len(), |i: int| if 0 <= i < s.len() { s[i].term() } else { arbitrary() })
}

pub broadcast proof fn terms_empty()
    ensures
        #[trigger] terms(Seq::empty()) == Seq::<TypeTerm>::empty(),
{
    reveal(terms);
    assert(terms(Seq::empty()) =~= Seq::empty());
}

pub broadcast proof fn terms_push(s: Seq<Type>, x: Type)
    ensures
        #[trigger] terms(s.push(x)) == terms(s).push(x.term()),
{
    reveal(terms);
    reveal(Type::term);
    assert(terms(s.push(x)) =~= terms(s).push(x.term()));
}

pub broadcast proof fn terms_len(s: Seq<Type>)
    ensures
        #[trigger] terms(s).len() == s.len(),
{
    reveal(terms);
}

pub broadcast proof fn terms_index(s: Seq<Type>, i: int)
    requires
        0 <= i < s.len(),
    ensures
        #[trigger] terms(s)[i] == s[i].term(),
{
    reveal(terms);
    reveal(Type::term);
}

pub broadcast proof fn term_primitive(a: PrimitiveType)
    ensures
        #[trigger] (Type::Primitive(a)).term() == (TypeTerm::Primitive(a)),
{
    reveal(Type::term);
    reveal(terms);
}

pub broadcast proof fn term_void()
    ensures
        #[trigger] (Type::Void).term() == (TypeTerm::Void),
{
    reveal(Type::term);
    reveal(terms);
}

pub broadcast proof fn term_never()
    ensures
        #[trigger] (Type::Never).term() == (TypeTerm::Never),
{
    reveal(Type::term);
    reveal(terms);
}

pub broadcast proof fn term_empty_list()
    ensures
        #[trigger] (Type::EmptyList).term() == (TypeTerm::EmptyList),
{
    reveal(Type::term);
    reveal(terms);
}

pub broadcast proof fn term_empty_map()
    ensures
        #[trigger] (Type::EmptyMap).term() == (TypeTerm::EmptyMap),
{
    reveal(Type::term);
    reveal(terms);
}

pub broadcast proof fn term_empty_set()
    ensures
        #[trigger] (Type::EmptySet).term() == (TypeTerm::EmptySet),
{
    reveal(Type::term);
    reveal(terms);
}

pub broadcast proof fn term_list(a: Box<Type>)
    ensures
        #[trigger] (Type::List(a)).term() == (TypeTerm::List(Box::new((*a).term()))),
{
    reveal(Type::term);
    reveal(terms);
}

pub broadcast proof fn term_map_of(a: Box<Type>, b: Box<Type>)
    ensures
        #[trigger] (Type::MapOf(a, b)).term() == (TypeTerm::MapOf(Box::new((*a).term()), Box::new((*b).term()))),
{
    reveal(Type::term);
    reveal(terms);
}

pub broadcast proof fn term_set_of(a: Box<Type>)
    ensures
        #[trigger] (Type::SetOf(a)).term() == (TypeTerm::SetOf(Box::new((*a).term()))),
{
    reveal(Type::term);
    reveal(terms);
}

pub broadcast proof fn term_tuple(a: Box<Type>, b: Box<Type>)
    ensures
        #[trigger] (Type::Tuple(a, b)).term() == (TypeTerm::Tuple(Box::new((*a).term()), Box::new((*b).term()))),
{
    reveal(Type::term);
    reveal(terms);
}

pub broadcast proof fn term_optional(a: Box<Type>)
    ensures
        #[trigger] (Type::Optional(a)).term() == (TypeTerm::Optional(Box::new((*a).term()))),
{
    reveal(Type::term);
    reveal(terms);
}

pub broadcast proof fn term_result_of(a: Box<Type>, b: Box<Type>)
    ensures
        #[trigger] (Type::ResultOf(a, b)).term() == (TypeTerm::ResultOf(Box::new((*a).term()), Box::new((*b).term()))),
{
    reveal(Type::term);
    reveal(terms);
}

pub broadcast proof fn term_reference(a: Box<Type>)
    ensures
        #[trigger] (Type::Reference(a)).term() == (TypeTerm::Reference(Box::new((*a).term()))),
{
    reveal(Type::term);
    reveal(terms);
}

pub broadcast proof fn term_function(params: Vec<Type>, ret: Box<Type>, default_count: usize)
    ensures
        #[trigger] (Type::Function { params, ret, default_count }).term() == (TypeTerm::Function { params: terms(params@), ret: Box::new((*ret).term()), default_count: default_count }),
{
    reveal(Type::term);
    reveal(terms);
}

pub broadcast proof fn term_named(a: String, b: Vec<Type>)
    ensures
        #[trigger] (Type::Named(a, b)).term() == (TypeTerm::Named(a@, terms(b@))),
{
    reveal(Type::term);
    reveal(terms);
}

pub broadcast proof fn term_instantiated(a: String, b: Vec<Type>)
    ensures
        #[trigger] (Type::Instantiated(a, b)).term() == (TypeTerm::Instantiated(a@, terms(b@))),
{
    reveal(Type::term);
    reveal(terms);
}

pub broadcast proof fn term_generic(a: String)
    ensures
        #[trigger] (Type::Generic(a)).term() == (TypeTerm::Generic(a@)),
{
    reveal(Type::term);
    reveal(terms);
}

pub broadcast proof fn term_variable(a: String)
    ensures
        #[trigger] (Type::Variable(a)).term() == (TypeTerm::Variable(a@)),
{
    reveal(Type::term);
    reveal(terms);
}

pub broadcast proof fn term_module(a: String)
    ensures
        #[trigger] (Type::Module(a)).term() == (TypeTerm::Module(a@)),
{
    reveal(Type::term);
    reveal(terms);
}

/// A term is of the same variant as its type.
pub proof fn type_variant(x: Type)
    ensures
        (x is Primitive) == (x.term() is Primitive),
        (x is Void) == (x.term() is Void),
        (x is Never) == (x.term() is Never),
        (x is EmptyList) == (x.term() is EmptyList),
        (x is EmptyMap) == (x.term() is EmptyMap),
        (x is EmptySet) == (x.term() is EmptySet),
        (x is List) == (x.term() is List),
        (x is MapOf) == (x.term() is MapOf),
        (x is SetOf) == (x.term() is SetOf),
        (x is Tuple) == (x.term() is Tuple),
        (x is Optional) == (x.term() is Optional),
        (x is ResultOf) == (x.term() is ResultOf),
        (x is Reference) == (x.term() is Reference),
        (x is Function) == (x.term() is Function),
        (x is Named) == (x.term() is Named),
        (x is Instantiated) == (x.term() is Instantiated),
        (x is Generic) == (x.term() is Generic),
        (x is Variable) == (x.term() is Variable),
        (x is Module) == (x.term() is Module),
{
    reveal(Type::term);
}

/// How the term of each type is made of the terms of its parts.
pub broadcast group term_shapes {
    terms_empty,
    terms_push,
    terms_len,
    terms_index,
    term_primitive,
    term_void,
    term_never,
    term_empty_list,
    term_empty_map,
    term_empty_set,
    term_list,
    term_map_of,
    term_set_of,
    term_tuple,
    term_optional,
    term_result_of,
    term_reference,
    term_function,
    term_named,
    term_instantiated,
    term_generic,
    term_variable,
    term_module,
}

} // verus!
