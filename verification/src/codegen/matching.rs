//! What a match matches on: the subject's type and the enum that it is.

use crate::ast::nodes::{EnumVariantField, ExpressionKind, ExpressionNode};
use crate::ast::tree::{expression_kind_variant, tree_shapes, ExprShape, ExprTree};
use crate::codegen::debug_text::{debug_of, debug_text};
use crate::codegen::generator::{
    bindings_of, find_binding, has_name, lookup, names_of, Binding, Bindings, ClassField,
    ClassFields, ClassSymbol, CodeGenerator, EnumFields, Symbol, SymbolKind, VariantFields,
};
use crate::codegen::naming::enum_of;
use crate::codegen::resolution::resolved;
use crate::codegen::scopes::{scoped, scopes_of};
use crate::codegen::substitution::substituted;
use crate::codegen::type_nodes::denoted;
use crate::semantics::types::{term_shapes, terms, type_variant, TypeTerm};
use crate::semantics::Type;
use crate::table::starts_with;
use crate::text::{cat, decimal, decimal_string, same};
use vstd::prelude::*;

verus! {

broadcast use {term_shapes, tree_shapes};

/// A text, or why there is none.
pub type Named = Result<Seq<char>, Seq<char>>;

pub open spec fn named(r: Result<String, String>) -> Named {
    match r {
        Ok(s) => Ok(s@),
        Err(e) => Err(e@),
    }
}

/// Names that a match gives to a subject that it spills.
pub open spec fn is_temporary(name: Seq<char>) -> bool {
    "match_temp_"@.is_prefix_of(name)
}

/// The symbol with a name.
pub open spec fn symbol_at(symbols: Seq<Symbol>, name: Seq<char>) -> Option<Symbol>
    decreases symbols.len(),
{
    if symbols.len() == 0 {
        None
    } else if symbols[0].name@ == name {
        Some(symbols[0])
    } else {
        symbol_at(symbols.drop_first(), name)
    }
}

/// The recorded class with a name.
pub open spec fn class_at(classes: Seq<ClassSymbol>, name: Seq<char>) -> Option<ClassSymbol>
    decreases classes.len(),
{
    if classes.len() == 0 {
        None
    } else if classes[0].name@ == name {
        Some(classes[0])
    } else {
        class_at(classes.drop_first(), name)
    }
}

/// The declared class with a name.
pub open spec fn declared_at(classes: Seq<ClassFields>, name: Seq<char>) -> Option<ClassFields>
    decreases classes.len(),
{
    if classes.len() == 0 {
        None
    } else if classes[0].name@ == name {
        Some(classes[0])
    } else {
        declared_at(classes.drop_first(), name)
    }
}

/// The declared field with a name.
pub open spec fn field_at(fields: Seq<ClassField>, name: Seq<char>) -> Option<ClassField>
    decreases fields.len(),
{
    if fields.len() == 0 {
        None
    } else if fields[0].name@ == name {
        Some(fields[0])
    } else {
        field_at(fields.drop_first(), name)
    }
}

/// The enum with a name.
pub open spec fn enum_at(enums: Seq<EnumFields>, name: Seq<char>) -> Option<EnumFields>
    decreases enums.len(),
{
    if enums.len() == 0 {
        None
    } else if enums[0].name@ == name {
        Some(enums[0])
    } else {
        enum_at(enums.drop_first(), name)
    }
}

/// The variant with a name.
pub open spec fn variant_at(variants: Seq<VariantFields>, name: Seq<char>) -> Option<VariantFields>
    decreases variants.len(),
{
    if variants.len() == 0 {
        None
    } else if variants[0].name@ == name {
        Some(variants[0])
    } else {
        variant_at(variants.drop_first(), name)
    }
}

/// Type parameters bound to arguments, where there are as many.
pub open spec fn type_param_map(params: Seq<Seq<char>>, args: Seq<TypeTerm>) -> Option<Bindings> {
    if params.len() == args.len() {
        Some(Seq::new(params.len(), |i: int| (params[i], args[i])))
    } else {
        None
    }
}

impl CodeGenerator {
    /// A class field's declared type.
    pub open spec fn field_type(&self, class: Seq<char>, field: Seq<char>) -> Result<
        TypeTerm,
        Seq<char>,
    > {
        let recorded = match class_at(self.class_symbols@, class) {
            Some(c) => lookup(bindings_of(c.fields@), field),
            None => None,
        };
        match recorded {
            Some(t) => Ok(t),
            None => match declared_at(self.classes@, class) {
                None => Err("Class "@ + class + " not found"@),
                Some(c) => match field_at(c.fields@, field) {
                    None => Err("Field "@ + field + " not found in class "@ + class),
                    Some(f) => Ok(denoted(self.params(), f.type_.tree())),
                },
            },
        }
    }

    /// A class field's type as an instance with type arguments holds it.
    pub open spec fn receiver_field_type(
        &self,
        class: Seq<char>,
        args: Seq<TypeTerm>,
        field: Seq<char>,
    ) -> Result<TypeTerm, Seq<char>> {
        match self.field_type(class, field) {
            Err(e) => Err(e),
            Ok(t) => match class_at(self.class_symbols@, class) {
                None => Ok(t),
                Some(c) => match type_param_map(names_of(c.type_params@), args) {
                    None => Ok(t),
                    Some(map) => Ok(substituted(t, map)),
                },
            },
        }
    }

    /// The enum that a class field holds.
    pub open spec fn field_enum(
        &self,
        class: Seq<char>,
        args: Seq<TypeTerm>,
        field: Seq<char>,
    ) -> Named {
        match self.receiver_field_type(class, args, field) {
            Err(e) => Err(e),
            Ok(t) => match enum_of(t) {
                Some(n) => Ok(n),
                None => Err("Match field must be enum type"@),
            },
        }
    }

    /// The enum that an identifier holds.
    pub open spec fn identifier_enum(&self, name: Seq<char>) -> Named {
        match scoped(scopes_of(self.variables@), name) {
            Some(t) => match enum_of(t) {
                Some(n) => Ok(n),
                None => Err(
                    if is_temporary(name) {
                        "Match expression must be an enum type, got "@ + debug_of(t)
                    } else {
                        "Match expression must be an enum type"@
                    },
                ),
            },
            None => if is_temporary(name) {
                Err("Temporary variable "@ + name + " not found"@)
            } else {
                match symbol_at(self.symbols@, name) {
                    None => Err("Symbol "@ + name + " not found"@),
                    Some(s) => match s.type_ {
                        None => Err("Match expression must be an enum type"@),
                        Some(t) => match enum_of(t.term()) {
                            Some(n) => Ok(n),
                            None => Err("Match expression must be an enum type"@),
                        },
                    },
                }
            },
        }
    }

    /// The enum that a constructor builds.
    pub open spec fn constructor_enum(&self, name: Seq<char>) -> Named {
        if name == "some"@ || name == "none"@ {
            Ok("optional"@)
        } else if name == "ok"@ || name == "err"@ {
            Ok("result"@)
        } else {
            match symbol_at(self.symbols@, name) {
                None => Err("Constructor "@ + name + " not found"@),
                Some(s) => match s.type_ {
                    Some(t) => match t.term() {
                        TypeTerm::Named(n, _) => Ok(n),
                        _ => Err("Constructor must be enum type"@),
                    },
                    None => Err("Constructor must be enum type"@),
                },
            }
        }
    }

    /// The enum that a field access yields.
    pub open spec fn access_enum(&self, base: ExprTree, field: Seq<char>) -> Named {
        match base.kind {
            ExprShape::Identifier(obj) => match self.variable(obj) {
                Some(TypeTerm::Named(class, args)) => self.field_enum(class, args, field),
                Some(_) => Err(
                    if obj == "self"@ {
                        "Self not found"@
                    } else {
                        "Variable "@ + obj + " is not a class instance"@
                    },
                ),
                None => Err(
                    if obj == "self"@ {
                        "Self not found"@
                    } else {
                        "Variable "@ + obj + " not found"@
                    },
                ),
            },
            _ => Err("Match expression must be identifier, self.field, or obj.field"@),
        }
    }

    /// The enum that a match matches on.
    pub open spec fn subject_enum(&self, e: ExprTree) -> Named {
        match e.kind {
            ExprShape::Identifier(name) => self.identifier_enum(name),
            ExprShape::FieldAccess { expr, field } => self.access_enum(*expr, field),
            ExprShape::Call { func, args } => match func.kind {
                ExprShape::Identifier(name) => self.constructor_enum(name),
                _ => Err("Match expression constructor calls must be simple identifiers"@),
            },
            _ => Err("Match expression must be identifier, field access, or constructor call"@),
        }
    }

    /// Whether a match on a type compares discriminants.
    pub open spec fn matches_as_enum(&self, t: TypeTerm) -> bool {
        match t {
            TypeTerm::Optional(_) | TypeTerm::ResultOf(_, _) => true,
            TypeTerm::Named(name, _) => names_of(self.enum_variants@).contains(name) || (
            symbol_at(self.symbols@, name) matches Some(s) && s.kind == SymbolKind::Enum),
            _ => false,
        }
    }

    /// The type of an identifier subject, where the tables decide it.
    pub open spec fn identifier_subject(&self, e: ExprTree) -> Option<Result<TypeTerm, Seq<char>>> {
        match e.kind {
            ExprShape::Identifier(name) => if name == "self"@ || is_temporary(name) {
                Some(
                    match self.variable(name) {
                        Some(t) => Ok(t),
                        None => Err(
                            (if name == "self"@ {
                                "Self"@
                            } else {
                                "Temporary variable"@
                            }) + " "@ + name + " not found"@,
                        ),
                    },
                )
            } else {
                None
            },
            _ => None,
        }
    }

    /// The type of a subject that is a field of `self`, where `inferred` is
    /// what type inference says.
    pub open spec fn self_field_subject(
        &self,
        e: ExprTree,
        inferred: Result<TypeTerm, Seq<char>>,
    ) -> Option<Result<TypeTerm, Seq<char>>> {
        match e.kind {
            ExprShape::FieldAccess { expr, field } => match expr.kind {
                ExprShape::Identifier(obj) => if obj == "self"@ {
                    Some(
                        match self.variable("self"@) {
                            None => Err("Self not found"@),
                            Some(TypeTerm::Named(class, args)) => self.receiver_field_type(
                                class,
                                args,
                                field,
                            ),
                            Some(_) => inference(inferred),
                        },
                    )
                } else {
                    None
                },
                _ => None,
            },
            _ => None,
        }
    }

    /// The type of a match's subject.
    pub open spec fn subject_type(
        &self,
        e: ExprTree,
        inferred: Result<TypeTerm, Seq<char>>,
    ) -> Result<TypeTerm, Seq<char>> {
        match self.identifier_subject(e) {
            Some(r) => r,
            None => match self.self_field_subject(e, inferred) {
                Some(r) => r,
                None => inference(inferred),
            },
        }
    }
}

/// What type inference says, as a match reports it.
pub open spec fn inference(inferred: Result<TypeTerm, Seq<char>>) -> Result<TypeTerm, Seq<char>> {
    match inferred {
        Ok(t) => Ok(t),
        Err(e) => Err("Type inference failed: "@ + e),
    }
}

fn surround(front: &str, inner: &str, back: &str) -> (r: String)
    ensures
        r@ == front@ + inner@ + back@,
{
    let mut out = cat(front, inner);
    out.append(back);
    out
}

impl CodeGenerator {
    pub fn find_symbol(&self, name: &str) -> (r: Option<&Symbol>)
        ensures
            match r {
                Some(s) => symbol_at(self.symbols@, name@) == Some(*s),
                None => symbol_at(self.symbols@, name@) is None,
            },
    {
        let mut i: usize = 0;
        let ghost all = self.symbols@;
        assert(all.skip(0) =~= all);
        while i < self.symbols.len()
            invariant
                i <= all.len(),
                all == self.symbols@,
                symbol_at(all, name@) == symbol_at(all.skip(i as int), name@),
            decreases all.len() - i,
        {
            assert(all.skip(i as int)[0] == all[i as int]);
            assert(all.skip(i as int).drop_first() =~= all.skip(i + 1));
            if same(self.symbols[i].name.as_str(), name) {
                return Some(&self.symbols[i]);
            }
            i += 1;
        }
        None
    }

    fn find_class_symbol(&self, name: &str) -> (r: Option<&ClassSymbol>)
        ensures
            match r {
                Some(s) => class_at(self.class_symbols@, name@) == Some(*s),
                None => class_at(self.class_symbols@, name@) is None,
            },
    {
        let mut i: usize = 0;
        let ghost all = self.class_symbols@;
        assert(all.skip(0) =~= all);
        while i < self.class_symbols.len()
            invariant
                i <= all.len(),
                all == self.class_symbols@,
                class_at(all, name@) == class_at(all.skip(i as int), name@),
            decreases all.len() - i,
        {
            assert(all.skip(i as int)[0] == all[i as int]);
            assert(all.skip(i as int).drop_first() =~= all.skip(i + 1));
            if same(self.class_symbols[i].name.as_str(), name) {
                return Some(&self.class_symbols[i]);
            }
            i += 1;
        }
        None
    }

    fn find_declared_class(&self, name: &str) -> (r: Option<&ClassFields>)
        ensures
            match r {
                Some(s) => declared_at(self.classes@, name@) == Some(*s),
                None => declared_at(self.classes@, name@) is None,
            },
    {
        let mut i: usize = 0;
        let ghost all = self.classes@;
        assert(all.skip(0) =~= all);
        while i < self.classes.len()
            invariant
                i <= all.len(),
                all == self.classes@,
                declared_at(all, name@) == declared_at(all.skip(i as int), name@),
            decreases all.len() - i,
        {
            assert(all.skip(i as int)[0] == all[i as int]);
            assert(all.skip(i as int).drop_first() =~= all.skip(i + 1));
            if same(self.classes[i].name.as_str(), name) {
                return Some(&self.classes[i]);
            }
            i += 1;
        }
        None
    }

    fn find_field<'f>(fields: &'f Vec<ClassField>, name: &str) -> (r: Option<&'f ClassField>)
        ensures
            match r {
                Some(s) => field_at(fields@, name@) == Some(*s),
                None => field_at(fields@, name@) is None,
            },
    {
        let mut i: usize = 0;
        let ghost all = fields@;
        assert(all.skip(0) =~= all);
        while i < fields.len()
            invariant
                i <= all.len(),
                all == fields@,
                field_at(all, name@) == field_at(all.skip(i as int), name@),
            decreases all.len() - i,
        {
            assert(all.skip(i as int)[0] == all[i as int]);
            assert(all.skip(i as int).drop_first() =~= all.skip(i + 1));
            if same(fields[i].name.as_str(), name) {
                return Some(&fields[i]);
            }
            i += 1;
        }
        None
    }

    /// A class field's declared type, as the analysis recorded it. For a class
    /// that the analysis has no symbol for, the declaration decides.
    pub fn class_field_type(&self, class_name: &str, field: &str) -> (r: Result<Type, String>)
        ensures
            resolved(r) == self.field_type(class_name@, field@),
    {
        match self.find_class_symbol(class_name) {
            Some(c) => match find_binding(&c.fields, field) {
                Some(t) => {
                    return Ok(t.copy());
                },
                None => {},
            },
            None => {},
        }
        match self.find_declared_class(class_name) {
            None => Err(surround("Class ", class_name, " not found")),
            Some(c) => match Self::find_field(&c.fields, field) {
                None => {
                    let mut out = surround("Field ", field, " not found in class ");
                    out.append(class_name);
                    Err(out)
                },
                Some(f) => Ok(self.type_node_to_type(&f.type_)),
            },
        }
    }

    /// Type parameters bound to arguments, where there are as many.
    fn build_type_param_map(params: &Vec<String>, args: &Vec<Type>) -> (r: Option<Vec<Binding>>)
        ensures
            match r {
                Some(m) => type_param_map(names_of(params@), terms(args@)) == Some(
                    bindings_of(m@),
                ),
                None => type_param_map(names_of(params@), terms(args@)) is None,
            },
    {
        if params.len() != args.len() {
            return None;
        }
        let mut out: Vec<Binding> = Vec::new();
        let mut i: usize = 0;
        while i < params.len()
            invariant
                i == out@.len() <= params@.len(),
                params@.len() == args@.len(),
                forall|j: int|
                    0 <= j < i ==> (#[trigger] out@[j]).name@ == params@[j]@ && out@[j].type_.term()
                        == args@[j].term(),
            decreases params@.len() - i,
        {
            out.push(Binding { name: params[i].clone(), type_: args[i].copy() });
            i += 1;
        }
        proof {
            reveal(bindings_of);
            assert(type_param_map(names_of(params@), terms(args@))->0 =~= bindings_of(out@));
        }
        Some(out)
    }

    /// A class field's type as an instance of the class with type arguments
    /// holds it. The declaration writes it in the class's type parameters.
    pub fn class_field_type_for_receiver(
        &self,
        class_name: &str,
        class_args: &Vec<Type>,
        field: &str,
    ) -> (r: Result<Type, String>)
        ensures
            resolved(r) == self.receiver_field_type(class_name@, terms(class_args@), field@),
    {
        let field_type = match self.class_field_type(class_name, field) {
            Ok(t) => t,
            Err(e) => {
                return Err(e);
            },
        };
        match self.find_class_symbol(class_name) {
            None => Ok(field_type),
            Some(c) => match Self::build_type_param_map(&c.type_params, class_args) {
                None => Ok(field_type),
                Some(map) => Ok(self.substitute_type_with_map(&field_type, &map)),
            },
        }
    }

    /// The enum that a matched class field holds, as seen through the receiver.
    pub fn resolve_enum_name_from_class_field(
        &self,
        class_name: &str,
        class_args: &Vec<Type>,
        field: &str,
    ) -> (r: Result<String, String>)
        ensures
            named(r) == self.field_enum(class_name@, terms(class_args@), field@),
    {
        match self.class_field_type_for_receiver(class_name, class_args, field) {
            Err(e) => Err(e),
            Ok(t) => self.enum_name_from_type(&t, "Match field must be enum type"),
        }
    }

    /// The enum that an identifier holds.
    pub fn resolve_enum_match_name_from_identifier(&self, name: &str) -> (r: Result<String, String>)
        ensures
            named(r) == self.identifier_enum(name@),
    {
        let temporary = starts_with(name, "match_temp_");
        match self.get_local(name) {
            Some(t) => {
                if temporary {
                    let message = cat(
                        "Match expression must be an enum type, got ",
                        debug_text(t).as_str(),
                    );
                    return self.enum_name_from_type(t, message.as_str());
                }
                return self.enum_name_from_type(t, "Match expression must be an enum type");
            },
            None => {},
        }
        if temporary {
            return Err(surround("Temporary variable ", name, " not found"));
        }
        match self.find_symbol(name) {
            None => Err(surround("Symbol ", name, " not found")),
            Some(s) => match &s.type_ {
                Some(t) => self.enum_name_from_type(t, "Match expression must be an enum type"),
                None => Err("Match expression must be an enum type".to_owned()),
            },
        }
    }

    /// The enum that a constructor builds.
    pub fn resolve_enum_constructor_match_name(&self, constructor_name: &str) -> (r: Result<
        String,
        String,
    >)
        ensures
            named(r) == self.constructor_enum(constructor_name@),
    {
        if same(constructor_name, "some") || same(constructor_name, "none") {
            return Ok("optional".to_owned());
        }
        if same(constructor_name, "ok") || same(constructor_name, "err") {
            return Ok("result".to_owned());
        }
        match self.find_symbol(constructor_name) {
            None => Err(surround("Constructor ", constructor_name, " not found")),
            Some(s) => match &s.type_ {
                Some(t) => {
                    proof {
                        type_variant(*t);
                    }
                    match t {
                        Type::Named(n, args) => {
                            assert(*t == Type::Named(*n, *args));
                            Ok(n.clone())
                        },
                        _ => Err("Constructor must be enum type".to_owned()),
                    }
                },
                None => Err("Constructor must be enum type".to_owned()),
            },
        }
    }

    /// The enum that a field access yields.
    pub fn resolve_enum_match_name_from_field_access(&self, expr: &ExpressionNode, field: &str) -> (r:
        Result<String, String>)
        ensures
            named(r) == self.access_enum(expr.tree(), field@),
    {
        proof {
            expression_kind_variant(expr.kind);
        }
        let obj = match &expr.kind {
            ExpressionKind::Identifier(obj) => {
                assert(expr.kind == ExpressionKind::Identifier(*obj));
                obj
            },
            _ => {
                return Err(
                    "Match expression must be identifier, self.field, or obj.field".to_owned(),
                );
            },
        };
        let is_self = same(obj.as_str(), "self");
        match self.get_variable(obj.as_str()) {
            Some(t) => {
                proof {
                    type_variant(*t);
                }
                match t {
                    Type::Named(class_name, class_args) => {
                        assert(*t == Type::Named(*class_name, *class_args));
                        self.resolve_enum_name_from_class_field(
                            class_name.as_str(),
                            class_args,
                            field,
                        )
                    },
                    _ => {
                        if is_self {
                            Err("Self not found".to_owned())
                        } else {
                            Err(surround("Variable ", obj.as_str(), " is not a class instance"))
                        }
                    },
                }
            },
            None => {
                if is_self {
                    Err("Self not found".to_owned())
                } else {
                    Err(surround("Variable ", obj.as_str(), " not found"))
                }
            },
        }
    }

    /// The enum that a match matches on.
    pub fn resolve_enum_match_name(&self, match_expr: &ExpressionNode) -> (r: Result<String, String>)
        ensures
            named(r) == self.subject_enum(match_expr.tree()),
    {
        proof {
            expression_kind_variant(match_expr.kind);
        }
        match &match_expr.kind {
            ExpressionKind::Identifier(name) => {
                assert(match_expr.kind == ExpressionKind::Identifier(*name));
                self.resolve_enum_match_name_from_identifier(name.as_str())
            },
            ExpressionKind::FieldAccess { expr, field } => {
                assert(match_expr.kind == (ExpressionKind::FieldAccess {
                    expr: *expr,
                    field: *field,
                }));
                self.resolve_enum_match_name_from_field_access(expr, field.as_str())
            },
            ExpressionKind::Call { func, args } => {
                assert(match_expr.kind == (ExpressionKind::Call { func: *func, args: *args }));
                proof {
                    expression_kind_variant(func.kind);
                }
                match &func.kind {
                    ExpressionKind::Identifier(name) => {
                        assert(func.kind == ExpressionKind::Identifier(*name));
                        self.resolve_enum_constructor_match_name(name.as_str())
                    },
                    _ => Err(
                        "Match expression constructor calls must be simple identifiers".to_owned(),
                    ),
                }
            },
            _ => Err(
                "Match expression must be identifier, field access, or constructor call".to_owned(),
            ),
        }
    }

    /// Whether a match on a type compares discriminants.
    pub fn is_enum_match_type(&self, match_type: &Type) -> (r: bool)
        ensures
            r == self.matches_as_enum(match_type.term()),
    {
        proof {
            type_variant(*match_type);
        }
        match match_type {
            Type::Optional(_) | Type::ResultOf(_, _) => true,
            Type::Named(name, args) => {
                assert(*match_type == Type::Named(*name, *args));
                if has_name(&self.enum_variants, name.as_str()) {
                    return true;
                }
                match self.find_symbol(name.as_str()) {
                    Some(s) => s.kind == SymbolKind::Enum,
                    None => false,
                }
            },
            _ => false,
        }
    }

    /// The type of an identifier subject, where the tables decide it.
    pub fn resolve_match_identifier_type(&self, match_expr: &ExpressionNode) -> (r: Option<
        Result<Type, String>,
    >)
        ensures
            match r {
                Some(x) => self.identifier_subject(match_expr.tree()) == Some(resolved(x)),
                None => self.identifier_subject(match_expr.tree()) is None,
            },
    {
        proof {
            expression_kind_variant(match_expr.kind);
        }
        let name = match &match_expr.kind {
            ExpressionKind::Identifier(name) => {
                assert(match_expr.kind == ExpressionKind::Identifier(*name));
                name
            },
            _ => {
                return None;
            },
        };
        let is_self = same(name.as_str(), "self");
        if !is_self && !starts_with(name.as_str(), "match_temp_") {
            return None;
        }
        match self.get_variable(name.as_str()) {
            Some(t) => Some(Ok(t.copy())),
            None => {
                let mut out = cat(if is_self { "Self" } else { "Temporary variable" }, " ");
                out.append(name.as_str());
                out.append(" not found");
                Some(Err(out))
            },
        }
    }

    /// The type of a subject that is a field of `self`, where `inferred` is
    /// what type inference says.
    pub fn resolve_match_self_field_type(
        &self,
        match_expr: &ExpressionNode,
        inferred: &Result<Type, String>,
    ) -> (r: Option<Result<Type, String>>)
        ensures
            match r {
                Some(x) => self.self_field_subject(match_expr.tree(), resolved(*inferred)) == Some(
                    resolved(x),
                ),
                None => self.self_field_subject(match_expr.tree(), resolved(*inferred)) is None,
            },
    {
        proof {
            expression_kind_variant(match_expr.kind);
        }
        match &match_expr.kind {
            ExpressionKind::FieldAccess { expr, field } => {
                assert(match_expr.kind == (ExpressionKind::FieldAccess {
                    expr: *expr,
                    field: *field,
                }));
                proof {
                    expression_kind_variant(expr.kind);
                }
                match &expr.kind {
                    ExpressionKind::Identifier(obj) => {
                        assert(expr.kind == ExpressionKind::Identifier(*obj));
                        if !same(obj.as_str(), "self") {
                            return None;
                        }
                        match self.get_variable("self") {
                            None => Some(Err("Self not found".to_owned())),
                            Some(t) => {
                                proof {
                                    type_variant(*t);
                                }
                                match t {
                                    Type::Named(class_name, class_args) => {
                                        assert(*t == Type::Named(*class_name, *class_args));
                                        Some(
                                            self.class_field_type_for_receiver(
                                                class_name.as_str(),
                                                class_args,
                                                field.as_str(),
                                            ),
                                        )
                                    },
                                    _ => Some(Self::report_inference(inferred)),
                                }
                            },
                        }
                    },
                    _ => None,
                }
            },
            _ => None,
        }
    }

    fn report_inference(inferred: &Result<Type, String>) -> (r: Result<Type, String>)
        ensures
            resolved(r) == inference(resolved(*inferred)),
    {
        match inferred {
            Ok(t) => Ok(t.copy()),
            Err(e) => Err(cat("Type inference failed: ", e.as_str())),
        }
    }

    /// The type of a match's subject, where `inferred` is what type inference
    /// says of it.
    pub fn resolve_match_expression_type(
        &self,
        match_expr: &ExpressionNode,
        inferred: &Result<Type, String>,
    ) -> (r: Result<Type, String>)
        ensures
            resolved(r) == self.subject_type(match_expr.tree(), resolved(*inferred)),
    {
        match self.resolve_match_identifier_type(match_expr) {
            Some(t) => {
                return t;
            },
            None => {},
        }
        match self.resolve_match_self_field_type(match_expr, inferred) {
            Some(t) => {
                return t;
            },
            None => {},
        }
        Self::report_inference(inferred)
    }

    /// The runtime function that yields the payload of a built-in enum.
    pub fn enum_data_function_name(&self, enum_name: &str) -> (r: Result<&'static str, String>)
        ensures
            match r {
                Ok(f) => (enum_name@ == "optional"@ && f == "mux_optional_data") || (enum_name@
                    != "optional"@ && enum_name@ == "result"@ && f == "mux_result_data"),
                Err(e) => enum_name@ != "optional"@ && enum_name@ != "result"@ && e@
                    == "Unknown enum "@ + enum_name@,
            },
    {
        if same(enum_name, "optional") {
            Ok("mux_optional_data")
        } else if same(enum_name, "result") {
            Ok("mux_result_data")
        } else {
            Err(cat("Unknown enum ", enum_name))
        }
    }

    /// The payload fields of a variant.
    pub fn variant_field_types(&self, enum_name: &str, variant_name: &str) -> (r: Result<
        &Vec<EnumVariantField>,
        String,
    >)
        ensures
            match enum_at(self.enum_variant_fields@, enum_name@) {
                None => r matches Err(e) && e@ == "No field information found for enum "@
                    + enum_name@,
                Some(e) => match variant_at(e.variants@, variant_name@) {
                    None => r matches Err(e) && e@ == "Variant "@ + variant_name@
                        + " not found in enum "@ + enum_name@,
                    Some(v) => r matches Ok(fields) && fields@ == v.fields@,
                },
            },
    {
        let mut i: usize = 0;
        let ghost all = self.enum_variant_fields@;
        assert(all.skip(0) =~= all);
        while i < self.enum_variant_fields.len()
            invariant
                i <= all.len(),
                all == self.enum_variant_fields@,
                enum_at(all, enum_name@) == enum_at(all.skip(i as int), enum_name@),
            decreases all.len() - i,
        {
            assert(all.skip(i as int)[0] == all[i as int]);
            assert(all.skip(i as int).drop_first() =~= all.skip(i + 1));
            if same(self.enum_variant_fields[i].name.as_str(), enum_name) {
                return Self::find_variant(
                    &self.enum_variant_fields[i].variants,
                    enum_name,
                    variant_name,
                );
            }
            i += 1;
        }
        Err(cat("No field information found for enum ", enum_name))
    }

    fn find_variant<'v>(variants: &'v Vec<VariantFields>, enum_name: &str, variant_name: &str) -> (r:
        Result<&'v Vec<EnumVariantField>, String>)
        ensures
            match variant_at(variants@, variant_name@) {
                None => r matches Err(e) && e@ == "Variant "@ + variant_name@
                    + " not found in enum "@ + enum_name@,
                Some(v) => r matches Ok(fields) && fields@ == v.fields@,
            },
    {
        let mut i: usize = 0;
        let ghost all = variants@;
        assert(all.skip(0) =~= all);
        while i < variants.len()
            invariant
                i <= all.len(),
                all == variants@,
                variant_at(all, variant_name@) == variant_at(all.skip(i as int), variant_name@),
            decreases all.len() - i,
        {
            assert(all.skip(i as int)[0] == all[i as int]);
            assert(all.skip(i as int).drop_first() =~= all.skip(i + 1));
            if same(variants[i].name.as_str(), variant_name) {
                return Ok(&variants[i].fields);
            }
            i += 1;
        }
        let mut out = surround("Variant ", variant_name, " not found in enum ");
        out.append(enum_name);
        Err(out)
    }

    /// The type of a variant's payload field, where `analyzed` is what the
    /// analysis makes of the field's written type.
    pub fn variant_field_resolved_type(
        &self,
        enum_name: &str,
        variant_name: &str,
        field_types: &Vec<EnumVariantField>,
        index: usize,
        analyzed: &Result<Type, String>,
    ) -> (r: Result<Type, String>)
        ensures
            resolved(r) == (if index < field_types@.len() {
                resolved(*analyzed)
            } else {
                Err(
                    "Field index "@ + decimal(index as nat) + " out of bounds for enum variant "@
                        + enum_name@ + "."@ + variant_name@ + " during type resolution (has "@
                        + decimal(field_types@.len()) + " fields)"@,
                )
            }),
    {
        if index >= field_types.len() {
            let mut out = cat("Field index ", decimal_string(index).as_str());
            out.append(" out of bounds for enum variant ");
            out.append(enum_name);
            out.append(".");
            out.append(variant_name);
            out.append(" during type resolution (has ");
            out.append(decimal_string(field_types.len()).as_str());
            out.append(" fields)");
            return Err(out);
        }
        match analyzed {
            Ok(t) => Ok(t.copy()),
            Err(e) => Err(e.clone()),
        }
    }
}

/// A field of concrete type is the same through every receiver: substituting
/// the receiver's arguments changes only type variables.
pub proof fn concrete_field_ignores_receiver(
    g: &CodeGenerator,
    class: Seq<char>,
    args: Seq<TypeTerm>,
    field: Seq<char>,
)
    requires
        g.field_type(class, field) matches Ok(t) && crate::codegen::substitution::is_closed(t),
    ensures
        g.receiver_field_type(class, args, field) == g.field_type(class, field),
{
    let t = g.field_type(class, field)->Ok_0;
    match class_at(g.class_symbols@, class) {
        Some(c) => match type_param_map(names_of(c.type_params@), args) {
            Some(map) => {
                crate::codegen::substitution::substitution_of_closed_type(
                    t,
                    |name: Seq<char>| crate::codegen::substitution::substitute_name(map, name),
                );
            },
            None => {},
        },
        None => {},
    }
}

} // verus!
