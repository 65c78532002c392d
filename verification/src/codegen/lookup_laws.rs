//! What names of symbols, classes, fields and variants lead to.

use crate::ast::tree::{ExprShape, ExprTree};
use crate::codegen::generator::{
    bindings_of, lookup, names_of, ClassField, ClassFields, ClassSymbol, CodeGenerator, EnumFields,
    Symbol, VariantFields,
};
use crate::codegen::matching::{
    class_at, declared_at, enum_at, field_at, symbol_at, type_param_map, variant_at,
};
use crate::codegen::naming::enum_of;
use crate::codegen::scopes::scoped;
use crate::codegen::substitution::substituted;
use crate::codegen::type_laws::first_binding_counts;
use crate::semantics::types::TypeTerm;
use vstd::prelude::*;

verus! {

/// A name leads to the first symbol with it, and to none without one.
pub proof fn first_symbol_counts(symbols: Seq<Symbol>, name: Seq<char>, i: int)
    requires
        0 <= i <= symbols.len(),
        forall|j: int| 0 <= j < i ==> (#[trigger] symbols[j]).name@ != name,
    ensures
        i < symbols.len() && symbols[i].name@ == name ==> symbol_at(symbols, name) == Some(
            symbols[i],
        ),
        i == symbols.len() ==> symbol_at(symbols, name) is None,
    decreases i,
{
    if i > 0 {
        assert(symbols[0].name@ != name);
        let rest = symbols.drop_first();
        assert forall|j: int| 0 <= j < i - 1 implies (#[trigger] rest[j]).name@ != name by {
            assert(rest[j] == symbols[j + 1]);
        }
        first_symbol_counts(rest, name, i - 1);
    }
}

/// A name leads to the first class recorded under it.
pub proof fn first_class_counts(classes: Seq<ClassSymbol>, name: Seq<char>, i: int)
    requires
        0 <= i <= classes.len(),
        forall|j: int| 0 <= j < i ==> (#[trigger] classes[j]).name@ != name,
    ensures
        i < classes.len() && classes[i].name@ == name ==> class_at(classes, name) == Some(
            classes[i],
        ),
        i == classes.len() ==> class_at(classes, name) is None,
    decreases i,
{
    if i > 0 {
        assert(classes[0].name@ != name);
        let rest = classes.drop_first();
        assert forall|j: int| 0 <= j < i - 1 implies (#[trigger] rest[j]).name@ != name by {
            assert(rest[j] == classes[j + 1]);
        }
        first_class_counts(rest, name, i - 1);
    }
}

/// A name leads to the first class declared under it.
pub proof fn first_declared_class_counts(classes: Seq<ClassFields>, name: Seq<char>, i: int)
    requires
        0 <= i <= classes.len(),
        forall|j: int| 0 <= j < i ==> (#[trigger] classes[j]).name@ != name,
    ensures
        i < classes.len() && classes[i].name@ == name ==> declared_at(classes, name) == Some(
            classes[i],
        ),
        i == classes.len() ==> declared_at(classes, name) is None,
    decreases i,
{
    if i > 0 {
        assert(classes[0].name@ != name);
        let rest = classes.drop_first();
        assert forall|j: int| 0 <= j < i - 1 implies (#[trigger] rest[j]).name@ != name by {
            assert(rest[j] == classes[j + 1]);
        }
        first_declared_class_counts(rest, name, i - 1);
    }
}

/// A name leads to the first field with it.
pub proof fn first_field_counts(fields: Seq<ClassField>, name: Seq<char>, i: int)
    requires
        0 <= i <= fields.len(),
        forall|j: int| 0 <= j < i ==> (#[trigger] fields[j]).name@ != name,
    ensures
        i < fields.len() && fields[i].name@ == name ==> field_at(fields, name) == Some(fields[i]),
        i == fields.len() ==> field_at(fields, name) is None,
    decreases i,
{
    if i > 0 {
        assert(fields[0].name@ != name);
        let rest = fields.drop_first();
        assert forall|j: int| 0 <= j < i - 1 implies (#[trigger] rest[j]).name@ != name by {
            assert(rest[j] == fields[j + 1]);
        }
        first_field_counts(rest, name, i - 1);
    }
}

/// A name leads to the first enum with it.
pub proof fn first_enum_counts(enums: Seq<EnumFields>, name: Seq<char>, i: int)
    requires
        0 <= i <= enums.len(),
        forall|j: int| 0 <= j < i ==> (#[trigger] enums[j]).name@ != name,
    ensures
        i < enums.len() && enums[i].name@ == name ==> enum_at(enums, name) == Some(enums[i]),
        i == enums.len() ==> enum_at(enums, name) is None,
    decreases i,
{
    if i > 0 {
        assert(enums[0].name@ != name);
        let rest = enums.drop_first();
        assert forall|j: int| 0 <= j < i - 1 implies (#[trigger] rest[j]).name@ != name by {
            assert(rest[j] == enums[j + 1]);
        }
        first_enum_counts(rest, name, i - 1);
    }
}

/// A name leads to the first variant with it.
pub proof fn first_variant_counts(variants: Seq<VariantFields>, name: Seq<char>, i: int)
    requires
        0 <= i <= variants.len(),
        forall|j: int| 0 <= j < i ==> (#[trigger] variants[j]).name@ != name,
    ensures
        i < variants.len() && variants[i].name@ == name ==> variant_at(variants, name) == Some(
            variants[i],
        ),
        i == variants.len() ==> variant_at(variants, name) is None,
    decreases i,
{
    if i > 0 {
        assert(variants[0].name@ != name);
        let rest = variants.drop_first();
        assert forall|j: int| 0 <= j < i - 1 implies (#[trigger] rest[j]).name@ != name by {
            assert(rest[j] == variants[j + 1]);
        }
        first_variant_counts(rest, name, i - 1);
    }
}

/// Type parameters stand for the arguments in their places, where there are as
/// many of them.
pub proof fn parameters_stand_for_arguments(
    params: Seq<Seq<char>>,
    args: Seq<TypeTerm>,
    i: int,
)
    requires
        0 <= i < params.len(),
        forall|j: int| 0 <= j < i ==> (#[trigger] params[j]) != params[i],
    ensures
        params.len() == args.len() ==> (type_param_map(params, args) matches Some(map) && lookup(
            map,
            params[i],
        ) == Some(args[i])),
        params.len() != args.len() ==> type_param_map(params, args) is None,
{
    if params.len() == args.len() {
        let map = type_param_map(params, args)->0;
        assert forall|j: int| 0 <= j < i implies (#[trigger] map[j]).0 != params[i] by {
            assert(params[j] != params[i]);
        }
        first_binding_counts(map, i, params[i]);
    }
}

/// A value made by a constructor of a built-in enum is matched as that enum:
/// `some` and `none` make options, `ok` and `err` results.
pub proof fn constructors_make_their_enum(g: CodeGenerator, name: Seq<char>, t: TypeTerm)
    ensures
        (name == "some"@ || name == "none"@) && t is Optional ==> enum_of(t) == Some(
            g.constructor_enum(name)->Ok_0,
        ) && g.constructor_enum(name) is Ok && g.matches_as_enum(t),
        (name == "ok"@ || name == "err"@) && t is ResultOf ==> enum_of(t) == Some(
            g.constructor_enum(name)->Ok_0,
        ) && g.constructor_enum(name) is Ok && g.matches_as_enum(t),
{
    reveal_strlit("some");
    reveal_strlit("none");
    reveal_strlit("ok");
    reveal_strlit("err");
    assert("ok"@.len() == 2 && "err"@.len() == 3 && "some"@.len() == 4 && "none"@.len() == 4);
}

/// A field of an instance has the type that its class records, with the type
/// parameters of the class replaced by the instance's arguments.
pub proof fn field_type_follows_the_instance(
    g: CodeGenerator,
    class: ClassSymbol,
    args: Seq<TypeTerm>,
    field: Seq<char>,
    t: TypeTerm,
)
    requires
        class_at(g.class_symbols@, class.name@) == Some(class),
        lookup(bindings_of(class.fields@), field) == Some(t),
    ensures
        type_param_map(names_of(class.type_params@), args) matches Some(map)
            ==> g.receiver_field_type(class.name@, args, field) == Result::<TypeTerm, Seq<char>>::Ok(
            substituted(t, map),
        ),
        type_param_map(names_of(class.type_params@), args) is None ==> g.receiver_field_type(
            class.name@,
            args,
            field,
        ) == Result::<TypeTerm, Seq<char>>::Ok(t),
{
}

/// A variable that is matched on is matched as the enum of its type; its own
/// binding hides a symbol of the same name.
pub proof fn variable_is_matched_by_its_type(g: CodeGenerator, e: ExprTree, name: Seq<char>, t: TypeTerm)
    requires
        e.kind == ExprShape::Identifier(name),
        scoped(crate::codegen::scopes::scopes_of(g.variables@), name) == Some(t),
    ensures
        enum_of(t) matches Some(n) ==> g.subject_enum(e) == Result::<Seq<char>, Seq<char>>::Ok(n),
        enum_of(t) is None ==> g.subject_enum(e) is Err,
{
}

/// An enum is matched on by its variants; a number, text, list or other value is
/// not.
pub proof fn only_enums_match_by_variant(g: CodeGenerator, t: TypeTerm)
    ensures
        t is Primitive || t is List || t is MapOf || t is SetOf || t is Tuple || t is Reference
            || t is Function ==> !g.matches_as_enum(t) && enum_of(t) is None,
        t is Optional || t is ResultOf ==> g.matches_as_enum(t),
        t matches TypeTerm::Named(name, args) ==> names_of(g.enum_variants@).contains(name)
            ==> g.matches_as_enum(t),
{
}

} // verus!
