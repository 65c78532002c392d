//! What code generation knows about types and names.

use crate::ast::nodes::{EnumVariantField, FunctionNode, TypeNode};
use crate::semantics::types::{term_shapes, TypeTerm};
use crate::semantics::Type;
use crate::table::Entry;
use crate::text::same;
use vstd::prelude::*;

verus! {

broadcast use term_shapes;

/// A name and the type that it stands for.
#[derive(Debug)]
pub struct Binding {
    pub name: String,
    pub type_: Type,
}

/// Bindings as mathematical values.
pub type Bindings = Seq<(Seq<char>, TypeTerm)>;

#[verifier::opaque]
pub open spec fn bindings_of(s: Seq<Binding>) -> Bindings {
    Seq::new(s.len(), |i: int| (s[i].name@, s[i].type_.term()))
}

/// The first binding of a name.
pub open spec fn lookup(b: Bindings, name: Seq<char>) -> Option<TypeTerm>
    decreases b.len(),
{
    if b.len() == 0 {
        None
    } else if b[0].0 == name {
        Some(b[0].1)
    } else {
        lookup(b.drop_first(), name)
    }
}

/// What type parameters stand for in the function being generated.
#[derive(Debug)]
pub struct GenericContext {
    pub type_params: Vec<Binding>,
}

/// The binding of a name.
pub fn find_binding<'b>(bindings: &'b Vec<Binding>, name: &str) -> (r: Option<&'b Type>)
    ensures
        match r {
            Some(t) => lookup(bindings_of(bindings@), name@) == Some(t.term()),
            None => lookup(bindings_of(bindings@), name@) is None,
        },
{
    let mut i: usize = 0;
    let ghost all = bindings_of(bindings@);
    proof {
        reveal(bindings_of);
        assert(all.skip(0) =~= all);
    }
    while i < bindings.len()
        invariant
            i <= bindings@.len(),
            all == bindings_of(bindings@),
            all.len() == bindings@.len(),
            lookup(all, name@) == lookup(all.skip(i as int), name@),
        decreases bindings@.len() - i,
    {
        proof {
            reveal(bindings_of);
            assert(all.skip(i as int)[0] == all[i as int]);
            assert(all.skip(i as int).drop_first() =~= all.skip(i + 1));
        }
        if same(bindings[i].name.as_str(), name) {
            return Some(&bindings[i].type_);
        }
        i += 1;
    }
    None
}

/// Names as mathematical values.
pub open spec fn names_of(v: Seq<String>) -> Seq<Seq<char>> {
    Seq::new(v.len(), |i: int| v[i]@)
}

/// The place of a name.
pub fn find_name(names: &Vec<String>, name: &str) -> (r: Option<usize>)
    ensures
        match r {
            Some(i) => i < names@.len() && names_of(names@)[i as int] == name@,
            None => !names_of(names@).contains(name@),
        },
{
    let mut i: usize = 0;
    while i < names.len()
        invariant
            i <= names@.len(),
            forall|j: int| 0 <= j < i ==> (#[trigger] names_of(names@)[j]) != name@,
        decreases names@.len() - i,
    {
        if same(names[i].as_str(), name) {
            return Some(i);
        }
        i += 1;
    }
    None
}

pub fn has_name(names: &Vec<String>, name: &str) -> (r: bool)
    ensures
        r == names_of(names@).contains(name@),
{
    match find_name(names, name) {
        Some(i) => {
            assert(names_of(names@)[i as int] == name@);
            true
        },
        None => false,
    }
}

/// The type-level state of code generation.
#[derive(Debug)]
pub struct CodeGenerator {
    pub generic_context: Option<GenericContext>,
    /// Variables by scope, the innermost last.
    pub variables: Vec<Vec<Binding>>,
    pub global_variables: Vec<Binding>,
    /// The declared classes, with their fields.
    pub classes: Vec<ClassFields>,
    /// What the analysis recorded of classes.
    pub class_symbols: Vec<ClassSymbol>,
    /// The declared enums.
    pub enum_variants: Vec<String>,
    /// The payload fields of enums' variants.
    pub enum_variant_fields: Vec<EnumFields>,
    /// The names of structs.
    pub type_map: Vec<String>,
    /// The symbols of the analysis.
    pub symbols: Vec<Symbol>,
    /// Names whose address is taken.
    pub address_taken: Vec<String>,
    /// Names that closures capture.
    pub captured_names: Vec<String>,
    /// The functions that are declared in the module.
    pub functions: Vec<String>,
    /// The functions' nodes under the names that they are generated with.
    pub function_nodes: Vec<Entry<FunctionNode>>,
    pub current_function_name: Option<String>,
    pub current_function_return_type: Option<Type>,
    pub label_counter: usize,
}

/// A declared field of a class.
#[derive(Debug)]
pub struct ClassField {
    pub name: String,
    pub type_: TypeNode,
}

/// The declared fields of a class.
#[derive(Debug)]
pub struct ClassFields {
    pub name: String,
    pub fields: Vec<ClassField>,
}

/// The names of classes.
pub open spec fn class_names(classes: Seq<ClassFields>) -> Seq<Seq<char>> {
    Seq::new(classes.len(), |i: int| classes[i].name@)
}

/// What the analysis recorded of a class: its type parameters and its fields.
#[derive(Debug)]
pub struct ClassSymbol {
    pub name: String,
    pub type_params: Vec<String>,
    pub fields: Vec<Binding>,
}

/// The payload fields of a variant.
#[derive(Debug)]
pub struct VariantFields {
    pub name: String,
    pub fields: Vec<EnumVariantField>,
}

/// The payload fields of an enum's variants.
#[derive(Debug)]
pub struct EnumFields {
    pub name: String,
    pub variants: Vec<VariantFields>,
}

#[derive(Debug, Clone, Copy, PartialEq, Eq, Structural)]
pub enum SymbolKind {
    Function,
    Variable,
    Constant,
    Class,
    Interface,
    Enum,
    Import,
}

/// A symbol of the analysis.
#[derive(Debug)]
pub struct Symbol {
    pub name: String,
    pub kind: SymbolKind,
    pub type_: Option<Type>,
}

impl CodeGenerator {
    /// A generator that knows nothing yet, in one open scope.
    pub fn new() -> (r: Self)
        ensures
            r.generic_context is None,
            r.variables@.len() == 1,
            r.variables@[0]@.len() == 0,
            r.global_variables@.len() == 0,
            r.classes@.len() == 0,
            r.class_symbols@.len() == 0,
            r.enum_variants@.len() == 0,
            r.enum_variant_fields@.len() == 0,
            r.type_map@.len() == 0,
            r.symbols@.len() == 0,
            r.address_taken@.len() == 0,
            r.captured_names@.len() == 0,
            r.functions@.len() == 0,
            r.function_nodes@.len() == 0,
            r.current_function_name is None,
            r.current_function_return_type is None,
            r.label_counter == 0,
    {
        let mut variables: Vec<Vec<Binding>> = Vec::new();
        variables.push(Vec::new());
        Self {
            generic_context: None,
            variables,
            global_variables: Vec::new(),
            classes: Vec::new(),
            class_symbols: Vec::new(),
            enum_variants: Vec::new(),
            enum_variant_fields: Vec::new(),
            type_map: Vec::new(),
            symbols: Vec::new(),
            address_taken: Vec::new(),
            captured_names: Vec::new(),
            functions: Vec::new(),
            function_nodes: Vec::new(),
            current_function_name: None,
            current_function_return_type: None,
            label_counter: 0,
        }
    }

    /// Whether a class is declared.
    pub fn has_class(&self, name: &str) -> (r: bool)
        ensures
            r == class_names(self.classes@).contains(name@),
    {
        let ghost names = class_names(self.classes@);
        let mut i: usize = 0;
        while i < self.classes.len()
            invariant
                i <= self.classes@.len(),
                names == class_names(self.classes@),
                forall|j: int| 0 <= j < i ==> (#[trigger] names[j]) != name@,
            decreases self.classes@.len() - i,
        {
            if same(self.classes[i].name.as_str(), name) {
                assert(names[i as int] == name@);
                return true;
            }
            i += 1;
        }
        false
    }

    /// What type parameters stand for.
    pub open spec fn params(&self) -> Bindings {
        match self.generic_context {
            Some(c) => bindings_of(c.type_params@),
            None => seq![],
        }
    }

    /// The type that a type parameter stands for.
    pub fn resolve_generic_param(&self, name: &str) -> (r: Option<&Type>)
        ensures
            match r {
                Some(t) => lookup(self.params(), name@) == Some(t.term()),
                None => lookup(self.params(), name@) is None,
            },
    {
        match &self.generic_context {
            Some(c) => find_binding(&c.type_params, name),
            None => None,
        }
    }
}

} // verus!
