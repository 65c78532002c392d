//! Types as error messages show them.

use crate::ast::PrimitiveType;
use crate::semantics::types::{term_shapes, terms, type_variant, TypeTerm};
use crate::semantics::Type;
use crate::text::{cat, decimal, decimal_string, is_digit_spec, is_letter_spec};
use vstd::prelude::*;

verus! {

broadcast use term_shapes;

/// A text between quotes, with what needs it escaped.
pub uninterp spec fn quoted_text(s: Seq<char>) -> Seq<char>;

/// Whether a text holds ASCII letters, digits and underscores only.
pub open spec fn is_plain(s: Seq<char>) -> bool {
    forall|i: int|
        0 <= i < s.len() ==> is_letter_spec(#[trigger] s[i]) || is_digit_spec(s[i]) || s[i] == '_'
}

/// The `Debug` form of `str`: the text between quotes. A text of ASCII letters,
/// digits and underscores stands there as it is; how other characters are
/// escaped is named, not stated.
#[verifier::external_body]
fn quoted(text: &str) -> (r: String)
    ensures
        r@ == quoted_text(text@),
        is_plain(text@) ==> r@ == "\""@ + text@ + "\""@,
{
    format!("{text:?}")
}

pub open spec fn primitive_debug(p: PrimitiveType) -> Seq<char> {
    match p {
        PrimitiveType::Int => "Primitive(Int)"@,
        PrimitiveType::Float => "Primitive(Float)"@,
        PrimitiveType::Bool => "Primitive(Bool)"@,
        PrimitiveType::Str => "Primitive(Str)"@,
        PrimitiveType::Char => "Primitive(Char)"@,
        PrimitiveType::Void => "Primitive(Void)"@,
        PrimitiveType::Auto => "Primitive(Auto)"@,
    }
}

/// One part in brackets behind a word.
pub open spec fn with_one(word: Seq<char>, a: Seq<char>) -> Seq<char> {
    word + "("@ + a + ")"@
}

/// Two parts in brackets behind a word.
pub open spec fn with_two(word: Seq<char>, a: Seq<char>, b: Seq<char>) -> Seq<char> {
    word + "("@ + a + ", "@ + b + ")"@
}

/// A type as error messages show it.
pub open spec fn debug_of(t: TypeTerm) -> Seq<char>
    decreases t, 0int,
{
    match t {
        TypeTerm::Primitive(p) => primitive_debug(p),
        TypeTerm::Void => "Void"@,
        TypeTerm::Never => "Never"@,
        TypeTerm::EmptyList => "EmptyList"@,
        TypeTerm::EmptyMap => "EmptyMap"@,
        TypeTerm::EmptySet => "EmptySet"@,
        TypeTerm::List(a) => with_one("List"@, debug_of(*a)),
        TypeTerm::SetOf(a) => with_one("Set"@, debug_of(*a)),
        TypeTerm::Optional(a) => with_one("Optional"@, debug_of(*a)),
        TypeTerm::Reference(a) => with_one("Reference"@, debug_of(*a)),
        TypeTerm::MapOf(k, v) => with_two("Map"@, debug_of(*k), debug_of(*v)),
        TypeTerm::Tuple(k, v) => with_two("Tuple"@, debug_of(*k), debug_of(*v)),
        TypeTerm::ResultOf(k, v) => with_two("Result"@, debug_of(*k), debug_of(*v)),
        TypeTerm::Named(name, args) => with_two(
            "Named"@,
            quoted_text(name),
            "["@ + debug_list(args, args.len() as int) + "]"@,
        ),
        TypeTerm::Instantiated(name, args) => with_two(
            "Instantiated"@,
            quoted_text(name),
            "["@ + debug_list(args, args.len() as int) + "]"@,
        ),
        TypeTerm::Function { params, ret, default_count } => "Function { params: ["@ + debug_list(
            params,
            params.len() as int,
        ) + "], returns: "@ + debug_of(*ret) + ", default_count: "@ + decimal(default_count as nat)
            + " }"@,
        TypeTerm::Generic(name) => with_one("Generic"@, quoted_text(name)),
        TypeTerm::Variable(name) => with_one("Variable"@, quoted_text(name)),
        TypeTerm::Module(name) => with_one("Module"@, quoted_text(name)),
    }
}

/// The first `n` types with commas between them.
pub open spec fn debug_list(ts: Seq<TypeTerm>, n: int) -> Seq<char>
    decreases ts, n,
{
    if n <= 0 || n > ts.len() {
        seq![]
    } else {
        debug_list(ts, n - 1) + (if n > 1 {
            ", "@
        } else {
            seq![]
        }) + debug_of(ts[n - 1])
    }
}

fn one(word: &str, a: &str) -> (r: String)
    ensures
        r@ == with_one(word@, a@),
{
    let mut out = cat(word, "(");
    out.append(a);
    out.append(")");
    out
}

fn two(word: &str, a: &str, b: &str) -> (r: String)
    ensures
        r@ == with_two(word@, a@, b@),
{
    let mut out = cat(word, "(");
    out.append(a);
    out.append(", ");
    out.append(b);
    out.append(")");
    out
}

fn primitive_text(p: PrimitiveType) -> (r: String)
    ensures
        r@ == primitive_debug(p),
{
    match p {
        PrimitiveType::Int => "Primitive(Int)".to_owned(),
        PrimitiveType::Float => "Primitive(Float)".to_owned(),
        PrimitiveType::Bool => "Primitive(Bool)".to_owned(),
        PrimitiveType::Str => "Primitive(Str)".to_owned(),
        PrimitiveType::Char => "Primitive(Char)".to_owned(),
        PrimitiveType::Void => "Primitive(Void)".to_owned(),
        PrimitiveType::Auto => "Primitive(Auto)".to_owned(),
    }
}

/// A type as error messages show it.
pub fn debug_text(t: &Type) -> (r: String)
    ensures
        r@ == debug_of(t.term()),
    decreases t, 1int,
{
    proof {
        type_variant(*t);
    }
    match t {
        Type::Primitive(p) => {
            assert(*t == Type::Primitive(*p));
            primitive_text(*p)
        },
        Type::Void => "Void".to_owned(),
        Type::Never => "Never".to_owned(),
        Type::EmptyList => "EmptyList".to_owned(),
        Type::EmptyMap => "EmptyMap".to_owned(),
        Type::EmptySet => "EmptySet".to_owned(),
        Type::List(a) => {
            assert(*t == Type::List(*a));
            one("List", debug_text(a).as_str())
        },
        Type::SetOf(a) => {
            assert(*t == Type::SetOf(*a));
            one("Set", debug_text(a).as_str())
        },
        Type::Optional(a) => {
            assert(*t == Type::Optional(*a));
            one("Optional", debug_text(a).as_str())
        },
        Type::Reference(a) => {
            assert(*t == Type::Reference(*a));
            one("Reference", debug_text(a).as_str())
        },
        Type::MapOf(k, v) => {
            assert(*t == Type::MapOf(*k, *v));
            two("Map", debug_text(k).as_str(), debug_text(v).as_str())
        },
        Type::Tuple(k, v) => {
            assert(*t == Type::Tuple(*k, *v));
            two("Tuple", debug_text(k).as_str(), debug_text(v).as_str())
        },
        Type::ResultOf(k, v) => {
            assert(*t == Type::ResultOf(*k, *v));
            two("Result", debug_text(k).as_str(), debug_text(v).as_str())
        },
        Type::Named(name, args) => {
            assert(*t == Type::Named(*name, *args));
            two("Named", quoted(name.as_str()).as_str(), bracketed(args).as_str())
        },
        Type::Instantiated(name, args) => {
            assert(*t == Type::Instantiated(*name, *args));
            two("Instantiated", quoted(name.as_str()).as_str(), bracketed(args).as_str())
        },
        Type::Function { params, ret, default_count } => {
            assert(*t == (Type::Function {
                params: *params,
                ret: *ret,
                default_count: *default_count,
            }));
            let mut out = cat("Function { params: ", bracketed(params).as_str());
            out.append(", returns: ");
            out.append(debug_text(ret).as_str());
            out.append(", default_count: ");
            out.append(decimal_string(*default_count).as_str());
            out.append(" }");
            proof {
                reveal_strlit("Function { params: ");
                reveal_strlit("[");
                reveal_strlit("]");
                reveal_strlit(", returns: ");
                reveal_strlit("Function { params: [");
                reveal_strlit("], returns: ");
                assert("Function { params: ["@ =~= "Function { params: "@ + "["@);
                assert("], returns: "@ =~= "]"@ + ", returns: "@);
            }
            assert(out@ =~= debug_of(t.term()));
            out
        },
        Type::Generic(name) => {
            assert(*t == Type::Generic(*name));
            one("Generic", quoted(name.as_str()).as_str())
        },
        Type::Variable(name) => {
            assert(*t == Type::Variable(*name));
            one("Variable", quoted(name.as_str()).as_str())
        },
        Type::Module(name) => {
            assert(*t == Type::Module(*name));
            one("Module", quoted(name.as_str()).as_str())
        },
    }
}

fn bracketed(types: &Vec<Type>) -> (r: String)
    ensures
        r@ == "["@ + debug_list(terms(types@), types@.len() as int) + "]"@,
    decreases types, 0int,
{
    let mut out = "[".to_owned();
    let ghost ts = terms(types@);
    let mut i: usize = 0;
    assert(out@ =~= "["@ + debug_list(ts, 0));
    while i < types.len()
        invariant
            i <= types@.len(),
            ts == terms(types@),
            ts.len() == types@.len(),
            out@ == "["@ + debug_list(ts, i as int),
        decreases types@.len() - i,
    {
        assert(ts[i as int] == types@[i as int].term());
        if i > 0 {
            out.append(", ");
        }
        out.append(debug_text(&types[i]).as_str());
        assert(out@ =~= "["@ + debug_list(ts, i + 1));
        i += 1;
    }
    out.append("]");
    out
}

} // verus!
