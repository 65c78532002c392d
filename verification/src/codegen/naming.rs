//! Names for types in generated code.

use crate::ast::PrimitiveType;
use crate::codegen::generator::CodeGenerator;
use crate::semantics::types::{term_shapes, terms, type_variant, TypeTerm};
use crate::semantics::Type;
use crate::text::{cat, chars_of, decimal, decimal_string};
use vstd::prelude::*;

verus! {

broadcast use term_shapes;

pub open spec fn primitive_name_spec(p: PrimitiveType) -> &'static str {
    match p {
        PrimitiveType::Int => "int",
        PrimitiveType::Float => "float",
        PrimitiveType::Bool => "bool",
        PrimitiveType::Str => "string",
        PrimitiveType::Char => "char",
        PrimitiveType::Void => "void",
        PrimitiveType::Auto => "auto",
    }
}

#[verifier::when_used_as_spec(primitive_name_spec)]
pub fn primitive_name(p: PrimitiveType) -> (r: &'static str)
    ensures
        r == primitive_name_spec(p),
{
    match p {
        PrimitiveType::Int => "int",
        PrimitiveType::Float => "float",
        PrimitiveType::Bool => "bool",
        PrimitiveType::Str => "string",
        PrimitiveType::Char => "char",
        PrimitiveType::Void => "void",
        PrimitiveType::Auto => "auto",
    }
}

/// The word for a primitive type. The primitive void is not the void type.
pub open spec fn primitive_word(p: PrimitiveType) -> Seq<char> {
    if p == PrimitiveType::Void {
        "primitive_void"@
    } else {
        primitive_name(p)@
    }
}

/// A number with its end marked.
pub open spec fn marked(n: nat) -> Seq<char> {
    decimal(n) + "_"@
}

/// A text behind its length.
pub open spec fn sized(s: Seq<char>) -> Seq<char> {
    marked(s.len()) + s
}

/// The name of a type. Texts stand behind their lengths and lists behind their
/// counts, so that a name says where each of its parts ends.
pub open spec fn name_of(t: TypeTerm) -> Seq<char>
    decreases t, 0int,
{
    match t {
        TypeTerm::Primitive(p) => primitive_word(p),
        TypeTerm::Void => "void"@,
        TypeTerm::List(a) => "list_"@ + name_of(*a),
        TypeTerm::SetOf(a) => "set_"@ + name_of(*a),
        TypeTerm::MapOf(k, v) => "map_"@ + name_of(*k) + "_"@ + name_of(*v),
        TypeTerm::Tuple(k, v) => "tuple_"@ + name_of(*k) + "_"@ + name_of(*v),
        TypeTerm::Optional(a) => "optional_"@ + name_of(*a),
        TypeTerm::ResultOf(k, v) => "result_"@ + name_of(*k) + "_"@ + name_of(*v),
        TypeTerm::Reference(a) => "ref_"@ + name_of(*a),
        TypeTerm::EmptyList => "empty_list"@,
        TypeTerm::EmptyMap => "empty_map"@,
        TypeTerm::EmptySet => "empty_set"@,
        TypeTerm::Named(name, args) => "class_"@ + sized(name) + marked(args.len()) + listed(
            args,
            args.len() as int,
        ),
        TypeTerm::Instantiated(name, args) => "instance_"@ + sized(name) + marked(args.len())
            + listed(args, args.len() as int),
        TypeTerm::Function { params, ret, default_count } => "fn_"@ + marked(params.len()) + listed(
            params,
            params.len() as int,
        ) + marked(default_count as nat) + name_of(*ret),
        TypeTerm::Generic(name) => "generic_"@ + sized(name),
        TypeTerm::Variable(name) => "variable_"@ + sized(name),
        TypeTerm::Never => "never"@,
        TypeTerm::Module(name) => "module_"@ + sized(name),
    }
}

/// The names of the first `n` types, each with an underscore behind it.
pub open spec fn listed(ts: Seq<TypeTerm>, n: int) -> Seq<char>
    decreases ts, n,
{
    if n <= 0 || n > ts.len() {
        seq![]
    } else {
        listed(ts, n - 1) + name_of(ts[n - 1]) + "_"@
    }
}

/// The names of the first `n` types with underscores between them.
pub open spec fn joined(ts: Seq<TypeTerm>, n: int) -> Seq<char>
    decreases ts, n,
{
    if n <= 0 || n > ts.len() {
        seq![]
    } else if n == 1 {
        name_of(ts[0])
    } else {
        joined(ts, n - 1) + "_"@ + name_of(ts[n - 1])
    }
}

/// The name of an enum with its type arguments.
pub open spec fn enum_name(name: Seq<char>, args: Seq<TypeTerm>) -> Seq<char> {
    if args.len() == 0 {
        name
    } else {
        name + "$"@ + joined(args, args.len() as int)
    }
}

/// The name of the enum that a type is, where it is one.
pub open spec fn enum_of(t: TypeTerm) -> Option<Seq<char>> {
    match t {
        TypeTerm::Named(n, args) => Some(enum_name(n, args)),
        TypeTerm::Optional(_) => Some("optional"@),
        TypeTerm::ResultOf(_, _) => Some("result"@),
        _ => None,
    }
}

fn push_marked(out: &mut String, n: usize)
    ensures
        final(out)@ == old(out)@ + marked(n as nat),
{
    out.append(decimal_string(n).as_str());
    out.append("_");
    assert(out@ =~= old(out)@ + marked(n as nat));
}

fn push_sized(out: &mut String, s: &str)
    ensures
        final(out)@ == old(out)@ + sized(s@),
{
    push_marked(out, chars_of(s).len());
    out.append(s);
    assert(out@ =~= old(out)@ + sized(s@));
}

impl CodeGenerator {
    /// A distinct name per type, which keys the instances of a generic
    /// function.
    pub fn type_to_string(&self, type_: &Type) -> (r: String)
        ensures
            r@ == name_of(type_.term()),
        decreases type_, 1int,
    {
        proof {
            type_variant(*type_);
        }
        match type_ {
            Type::Primitive(p) => {
                assert(*type_ == Type::Primitive(*p));
                if *p == PrimitiveType::Void {
                    "primitive_void".to_owned()
                } else {
                    primitive_name(*p).to_owned()
                }
            },
            Type::Void => "void".to_owned(),
            Type::List(inner) => {
                assert(*type_ == Type::List(*inner));
                cat("list_", self.type_to_string(inner).as_str())
            },
            Type::SetOf(inner) => {
                assert(*type_ == Type::SetOf(*inner));
                cat("set_", self.type_to_string(inner).as_str())
            },
            Type::MapOf(k, v) => {
                assert(*type_ == Type::MapOf(*k, *v));
                let mut out = cat("map_", self.type_to_string(k).as_str());
                out.append("_");
                out.append(self.type_to_string(v).as_str());
                out
            },
            Type::Tuple(k, v) => {
                assert(*type_ == Type::Tuple(*k, *v));
                let mut out = cat("tuple_", self.type_to_string(k).as_str());
                out.append("_");
                out.append(self.type_to_string(v).as_str());
                out
            },
            Type::Optional(inner) => {
                assert(*type_ == Type::Optional(*inner));
                cat("optional_", self.type_to_string(inner).as_str())
            },
            Type::ResultOf(k, v) => {
                assert(*type_ == Type::ResultOf(*k, *v));
                let mut out = cat("result_", self.type_to_string(k).as_str());
                out.append("_");
                out.append(self.type_to_string(v).as_str());
                out
            },
            Type::Reference(inner) => {
                assert(*type_ == Type::Reference(*inner));
                cat("ref_", self.type_to_string(inner).as_str())
            },
            Type::EmptyList => "empty_list".to_owned(),
            Type::EmptyMap => "empty_map".to_owned(),
            Type::EmptySet => "empty_set".to_owned(),
            Type::Named(name, args) => {
                assert(*type_ == Type::Named(*name, *args));
                let mut out = "class_".to_owned();
                push_sized(&mut out, name.as_str());
                self.push_listed(&mut out, args);
                assert(out@ =~= name_of(type_.term()));
                out
            },
            Type::Instantiated(name, args) => {
                assert(*type_ == Type::Instantiated(*name, *args));
                let mut out = "instance_".to_owned();
                push_sized(&mut out, name.as_str());
                self.push_listed(&mut out, args);
                assert(out@ =~= name_of(type_.term()));
                out
            },
            Type::Function { params, ret, default_count } => {
                assert(*type_ == (Type::Function {
                    params: *params,
                    ret: *ret,
                    default_count: *default_count,
                }));
                let mut out = "fn_".to_owned();
                self.push_listed(&mut out, params);
                push_marked(&mut out, *default_count);
                out.append(self.type_to_string(ret).as_str());
                assert(out@ =~= name_of(type_.term()));
                out
            },
            Type::Generic(name) => {
                assert(*type_ == Type::Generic(*name));
                let mut out = "generic_".to_owned();
                push_sized(&mut out, name.as_str());
                out
            },
            Type::Variable(name) => {
                assert(*type_ == Type::Variable(*name));
                let mut out = "variable_".to_owned();
                push_sized(&mut out, name.as_str());
                out
            },
            Type::Never => "never".to_owned(),
            Type::Module(name) => {
                assert(*type_ == Type::Module(*name));
                let mut out = "module_".to_owned();
                push_sized(&mut out, name.as_str());
                out
            },
        }
    }

    /// The number of some types, and their names.
    fn push_listed(&self, out: &mut String, types: &Vec<Type>)
        ensures
            final(out)@ == old(out)@ + (marked(types@.len()) + listed(
                terms(types@),
                types@.len() as int,
            )),
        decreases types, 0int,
    {
        push_marked(out, types.len());
        let ghost front = out@;
        let ghost ts = terms(types@);
        let mut i: usize = 0;
        assert(out@ =~= front + listed(ts, 0));
        while i < types.len()
            invariant
                i <= types@.len(),
                ts == terms(types@),
                ts.len() == types@.len(),
                out@ == front + listed(ts, i as int),
            decreases types@.len() - i,
        {
            assert(ts[i as int] == types@[i as int].term());
            out.append(self.type_to_string(&types[i]).as_str());
            out.append("_");
            assert(out@ =~= front + listed(ts, i + 1));
            i += 1;
        }
        assert(out@ =~= old(out)@ + (marked(types@.len()) + listed(ts, types@.len() as int)));
    }

    /// The names of some types with underscores between them.
    fn joined_names(&self, types: &Vec<Type>) -> (r: String)
        ensures
            r@ == joined(terms(types@), types@.len() as int),
        decreases types, 0int,
    {
        let mut out = String::new();
        let mut i: usize = 0;
        let ghost ts = terms(types@);
        while i < types.len()
            invariant
                i <= types@.len(),
                ts == terms(types@),
                ts.len() == types@.len(),
                out@ == joined(ts, i as int),
            decreases types@.len() - i,
        {
            assert(ts[i as int] == types@[i as int].term());
            if i > 0 {
                out.append("_");
            }
            let ghost before = out@;
            let name = self.type_to_string(&types[i]);
            out.append(name.as_str());
            i += 1;
            assert(Seq::<char>::empty() + name@ =~= name@);
        }
        out
    }

    /// The name of an enum with its type arguments.
    pub fn mangled_enum_name(&self, name: &str, args: &Vec<Type>) -> (r: String)
        ensures
            r@ == enum_name(name@, terms(args@)),
    {
        if args.len() == 0 {
            return name.to_owned();
        }
        let mut out = cat(name, "$");
        out.append(self.joined_names(args).as_str());
        out
    }

    /// The name of the enum that a type is. A generic enum's name carries its
    /// type arguments.
    pub fn enum_name_from_type(&self, value_type: &Type, unknown_type_msg: &str) -> (r: Result<
        String,
        String,
    >)
        ensures
            match r {
                Ok(s) => enum_of(value_type.term()) == Some(s@),
                Err(e) => enum_of(value_type.term()) is None && e@ == unknown_type_msg@,
            },
    {
        proof {
            type_variant(*value_type);
        }
        match value_type {
            Type::Named(n, args) => {
                assert(*value_type == Type::Named(*n, *args));
                Ok(self.mangled_enum_name(n.as_str(), args))
            },
            Type::Optional(inner) => {
                assert(*value_type == Type::Optional(*inner));
                Ok("optional".to_owned())
            },
            Type::ResultOf(ok, err) => {
                assert(*value_type == Type::ResultOf(*ok, *err));
                Ok("result".to_owned())
            },
            _ => Err(unknown_type_msg.to_owned()),
        }
    }
}

} // verus!
