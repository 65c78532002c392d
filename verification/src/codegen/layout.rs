//! How values of a type are stored.

use crate::ast::nodes::{TypeKind, TypeNode};
use crate::ast::tree::{tree_shapes, type_kind_variant, TypeShape};
use crate::ast::PrimitiveType;
use crate::codegen::debug_text::{debug_of, debug_text};
use crate::codegen::generator::{class_names, bindings_of, has_name, lookup, names_of, Bindings, CodeGenerator};
use crate::codegen::naming::enum_name;
use crate::codegen::type_nodes::denoted_all;
use crate::semantics::types::{term_shapes, type_variant, TypeTerm};
use crate::semantics::Type;
use crate::text::{cat, same};
use vstd::prelude::*;

verus! {

broadcast use {term_shapes, tree_shapes};

/// The machine types of slots: a 64-bit integer, a double, a bit, a pointer,
/// or the struct of an enum.
#[derive(Debug, PartialEq)]
pub enum Slot {
    Int64,
    Double,
    Bit,
    Pointer,
    Struct(String),
}

/// A slot as a mathematical value.
pub enum SlotModel {
    Int64,
    Double,
    Bit,
    Pointer,
    Struct(Seq<char>),
}

impl View for Slot {
    type V = SlotModel;

    open spec fn view(&self) -> SlotModel {
        match *self {
            Slot::Int64 => SlotModel::Int64,
            Slot::Double => SlotModel::Double,
            Slot::Bit => SlotModel::Bit,
            Slot::Pointer => SlotModel::Pointer,
            Slot::Struct(n) => SlotModel::Struct(n@),
        }
    }
}

/// The result of choosing a slot as a mathematical value.
pub open spec fn chosen(r: Result<Slot, String>) -> Result<SlotModel, Seq<char>> {
    match r {
        Ok(s) => Ok(s@),
        Err(e) => Err(e@),
    }
}

/// The slot that holds a value of a type itself; without one the value lives
/// behind a pointer. A string is a primitive of the language but a counted
/// heap value, so it has none.
pub open spec fn scalar(t: TypeTerm) -> Option<SlotModel> {
    match t {
        TypeTerm::Primitive(PrimitiveType::Int) => Some(SlotModel::Int64),
        TypeTerm::Primitive(PrimitiveType::Char) => Some(SlotModel::Int64),
        TypeTerm::Primitive(PrimitiveType::Float) => Some(SlotModel::Double),
        TypeTerm::Primitive(PrimitiveType::Bool) => Some(SlotModel::Bit),
        _ => None,
    }
}

/// The name that a type parameter is written with, alone.
pub open spec fn parameter_name(t: TypeTerm) -> Option<Seq<char>> {
    match t {
        TypeTerm::Named(name, args) => if args.len() == 0 {
            Some(name)
        } else {
            None
        },
        TypeTerm::Variable(name) => Some(name),
        _ => None,
    }
}

/// A type with bound parameters followed for at most `steps` steps.
pub open spec fn settled(b: Bindings, t: TypeTerm, steps: nat) -> Option<TypeTerm>
    decreases steps,
{
    match parameter_name(t) {
        None => Some(t),
        Some(name) => match lookup(b, name) {
            None => Some(t),
            Some(c) => if steps == 0 {
                None
            } else {
                settled(b, c, (steps - 1) as nat)
            },
        },
    }
}

/// The slot of a type whose parameters have been followed.
pub open spec fn value_slot(classes: Seq<Seq<char>>, t: TypeTerm) -> Result<SlotModel, Seq<char>> {
    match t {
        TypeTerm::Primitive(PrimitiveType::Int) => Ok(SlotModel::Int64),
        TypeTerm::Primitive(PrimitiveType::Float) => Ok(SlotModel::Double),
        TypeTerm::Primitive(PrimitiveType::Bool) => Ok(SlotModel::Bit),
        TypeTerm::Primitive(PrimitiveType::Str) => Ok(SlotModel::Pointer),
        TypeTerm::Primitive(PrimitiveType::Char) => Ok(SlotModel::Int64),
        TypeTerm::Primitive(PrimitiveType::Void) => Err("Void type not allowed here"@),
        TypeTerm::Void => Err("Void type not allowed here"@),
        TypeTerm::Primitive(PrimitiveType::Auto) => Err("Auto type should be resolved"@),
        TypeTerm::Named(name, _) => if classes.contains(name) {
            Ok(SlotModel::Pointer)
        } else {
            Err("Unknown type: "@ + name)
        },
        TypeTerm::Generic(_) => Err("Generic types should be resolved"@),
        TypeTerm::Instantiated(_, _) => Err("Instantiated types should be resolved"@),
        TypeTerm::Variable(name) => Err("Variable type '"@ + name + "' should be resolved"@),
        TypeTerm::Never => Err("Never type not allowed here"@),
        TypeTerm::Module(_) => Err(
            "Module types should not appear in codegen - they are compile-time only"@,
        ),
        _ => Ok(SlotModel::Pointer),
    }
}

/// The slot of an interface field.
pub open spec fn field_slot(t: TypeTerm) -> Result<SlotModel, Seq<char>> {
    match t {
        TypeTerm::Primitive(PrimitiveType::Int) => Ok(SlotModel::Int64),
        TypeTerm::Primitive(PrimitiveType::Float) => Ok(SlotModel::Double),
        TypeTerm::Primitive(PrimitiveType::Bool) => Ok(SlotModel::Bit),
        TypeTerm::Primitive(PrimitiveType::Str) => Ok(SlotModel::Pointer),
        TypeTerm::Primitive(PrimitiveType::Char) => Ok(SlotModel::Int64),
        TypeTerm::Primitive(PrimitiveType::Void) => Err("Void type not allowed in fields"@),
        TypeTerm::Primitive(PrimitiveType::Auto) => Err("Auto type should be resolved"@),
        TypeTerm::Named(_, _) => Ok(SlotModel::Pointer),
        TypeTerm::List(_) => Ok(SlotModel::Pointer),
        TypeTerm::MapOf(_, _) => Ok(SlotModel::Pointer),
        TypeTerm::SetOf(_) => Ok(SlotModel::Pointer),
        TypeTerm::Optional(_) => Ok(SlotModel::Pointer),
        TypeTerm::Reference(_) => Ok(SlotModel::Pointer),
        TypeTerm::Function { .. } => Ok(SlotModel::Pointer),
        _ => Err("Unsupported type in interface fields: "@ + debug_of(t)),
    }
}

/// The slot that syntax asks for. A generic enum has the struct of its
/// instance.
pub open spec fn declared_slot(
    b: Bindings,
    classes: Seq<Seq<char>>,
    enums: Seq<Seq<char>>,
    structs: Seq<Seq<char>>,
    kind: TypeShape,
) -> Result<SlotModel, Seq<char>> {
    match kind {
        TypeShape::Primitive(PrimitiveType::Int) => Ok(SlotModel::Int64),
        TypeShape::Primitive(PrimitiveType::Float) => Ok(SlotModel::Double),
        TypeShape::Primitive(PrimitiveType::Bool) => Ok(SlotModel::Bit),
        TypeShape::Primitive(PrimitiveType::Str) => Ok(SlotModel::Pointer),
        TypeShape::Primitive(PrimitiveType::Char) => Ok(SlotModel::Int64),
        TypeShape::Primitive(PrimitiveType::Void) => Err(
            "Void type cannot be used in enum variant fields"@,
        ),
        TypeShape::Primitive(PrimitiveType::Auto) => Err(
            "Auto type should be resolved before codegen"@,
        ),
        TypeShape::Auto => Err("Auto type should be resolved before codegen"@),
        TypeShape::Named(name, args) => match lookup(b, name) {
            Some(t) => match settled(b, t, b.len()) {
                Some(s) => value_slot(classes, s),
                None => Ok(SlotModel::Pointer),
            },
            None => if enums.contains(name) && name != "optional"@ && name != "result"@ {
                let resolved = enum_name(name, denoted_all(b, args, args.len() as int));
                if structs.contains(resolved) {
                    Ok(SlotModel::Struct(resolved))
                } else {
                    Err("Enum type "@ + resolved + " not found in type map"@)
                }
            } else {
                Ok(SlotModel::Pointer)
            },
        },
        _ => Ok(SlotModel::Pointer),
    }
}

/// Whether following parameters from a type comes to an end.
pub open spec fn settles(b: Bindings, t: TypeTerm) -> bool {
    settled(b, t, b.len()) is Some
}

/// Whether following the parameter that syntax names, where it names one,
/// comes to an end.
pub open spec fn kind_settles(b: Bindings, kind: TypeShape) -> bool {
    match kind {
        TypeShape::Named(name, _) => match lookup(b, name) {
            Some(t) => settles(b, t),
            None => true,
        },
        _ => true,
    }
}

impl CodeGenerator {
    /// The slot that holds a value of a type itself.
    pub fn scalar_slot_type(&self, ty: &Type) -> (r: Option<Slot>)
        ensures
            match r {
                Some(s) => scalar(ty.term()) == Some(s@),
                None => scalar(ty.term()) is None,
            },
    {
        proof {
            type_variant(*ty);
        }
        match ty {
            Type::Primitive(p) => {
                assert(*ty == Type::Primitive(*p));
                match p {
                    PrimitiveType::Int | PrimitiveType::Char => Some(Slot::Int64),
                    PrimitiveType::Float => Some(Slot::Double),
                    PrimitiveType::Bool => Some(Slot::Bit),
                    _ => None,
                }
            },
            _ => None,
        }
    }

    /// The slot that holds the value of a named binding itself. A name whose
    /// address is taken, or that a closure captures, stays boxed.
    pub fn scalar_slot_for_binding(&self, name: &str, ty: &Type) -> (r: Option<Slot>)
        ensures
            match r {
                Some(s) => {
                    &&& !names_of(self.address_taken@).contains(name@)
                    &&& !names_of(self.captured_names@).contains(name@)
                    &&& scalar(ty.term()) == Some(s@)
                },
                None => names_of(self.address_taken@).contains(name@) || names_of(
                    self.captured_names@,
                ).contains(name@) || scalar(ty.term()) is None,
            },
    {
        if has_name(&self.address_taken, name) || has_name(&self.captured_names, name) {
            return None;
        }
        self.scalar_slot_type(ty)
    }

    /// Whether following parameters from a type comes to an end within some
    /// steps.
    fn settles_within(&self, t: &Type, steps: usize) -> (r: bool)
        ensures
            r == (settled(self.params(), t.term(), steps as nat) is Some),
        decreases steps,
    {
        proof {
            type_variant(*t);
        }
        let bound = match t {
            Type::Named(name, args) => {
                assert(*t == Type::Named(*name, *args));
                if args.len() == 0 {
                    self.resolve_generic_param(name.as_str())
                } else {
                    None
                }
            },
            Type::Variable(name) => {
                assert(*t == Type::Variable(*name));
                self.resolve_generic_param(name.as_str())
            },
            _ => None,
        };
        match bound {
            Some(c) => steps > 0 && self.settles_within(c, steps - 1),
            None => true,
        }
    }

    /// Whether following parameters from a type comes to an end: a parameter
    /// that stands for itself has no slot.
    pub fn type_settles(&self, t: &Type) -> (r: bool)
        ensures
            r == settles(self.params(), t.term()),
    {
        let steps: usize = match &self.generic_context {
            Some(c) => {
                proof {
                    reveal(bindings_of);
                }
                c.type_params.len()
            },
            None => 0,
        };
        self.settles_within(t, steps)
    }

    /// Whether following the parameter that a type's syntax names comes to an
    /// end.
    pub fn type_node_settles(&self, type_node: &TypeNode) -> (r: bool)
        ensures
            r == kind_settles(self.params(), type_node.tree().kind),
    {
        proof {
            type_kind_variant(type_node.kind);
        }
        match &type_node.kind {
            TypeKind::Named(name, args) => {
                assert(type_node.kind == TypeKind::Named(*name, *args));
                match self.resolve_generic_param(name.as_str()) {
                    Some(t) => self.type_settles(t),
                    None => true,
                }
            },
            _ => true,
        }
    }

    /// The slot of a resolved type.
    pub fn llvm_type_from_resolved_type(&self, resolved_type: &Type) -> (r: Result<Slot, String>)
        requires
            settles(self.params(), resolved_type.term()),
        ensures
            chosen(r) == value_slot(
                class_names(self.classes@),
                settled(self.params(), resolved_type.term(), self.params().len())->0,
            ),
    {
        self.slot_in_steps(resolved_type, Ghost(self.params().len()))
    }

    fn slot_in_steps(&self, t: &Type, Ghost(steps): Ghost<nat>) -> (r: Result<Slot, String>)
        requires
            settled(self.params(), t.term(), steps) is Some,
        ensures
            chosen(r) == value_slot(
                class_names(self.classes@),
                settled(self.params(), t.term(), steps)->0,
            ),
        decreases steps,
    {
        proof {
            type_variant(*t);
        }
        match t {
            Type::Primitive(p) => {
                assert(*t == Type::Primitive(*p));
                match p {
                    PrimitiveType::Int | PrimitiveType::Char => Ok(Slot::Int64),
                    PrimitiveType::Float => Ok(Slot::Double),
                    PrimitiveType::Bool => Ok(Slot::Bit),
                    PrimitiveType::Str => Ok(Slot::Pointer),
                    PrimitiveType::Void => Err("Void type not allowed here".to_owned()),
                    PrimitiveType::Auto => Err("Auto type should be resolved".to_owned()),
                }
            },
            Type::Void => Err("Void type not allowed here".to_owned()),
            Type::Named(name, args) => {
                assert(*t == Type::Named(*name, *args));
                if args.len() == 0 {
                    match self.resolve_generic_param(name.as_str()) {
                        Some(concrete) => {
                            return self.slot_in_steps(concrete, Ghost((steps - 1) as nat));
                        },
                        None => {},
                    }
                }
                if self.has_class(name.as_str()) {
                    Ok(Slot::Pointer)
                } else {
                    Err(cat("Unknown type: ", name.as_str()))
                }
            },
            Type::Generic(_) => Err("Generic types should be resolved".to_owned()),
            Type::Instantiated(_, _) => Err("Instantiated types should be resolved".to_owned()),
            Type::Variable(name) => {
                assert(*t == Type::Variable(*name));
                match self.resolve_generic_param(name.as_str()) {
                    Some(concrete) => self.slot_in_steps(concrete, Ghost((steps - 1) as nat)),
                    None => {
                        let mut out = cat("Variable type '", name.as_str());
                        out.append("' should be resolved");
                        Err(out)
                    },
                }
            },
            Type::Never => Err("Never type not allowed here".to_owned()),
            Type::Module(_) => Err(
                "Module types should not appear in codegen - they are compile-time only".to_owned(),
            ),
            _ => Ok(Slot::Pointer),
        }
    }

    /// The slot of an interface field.
    pub fn semantic_type_to_llvm(&self, sem_type: &Type) -> (r: Result<Slot, String>)
        ensures
            chosen(r) == field_slot(sem_type.term()),
    {
        proof {
            type_variant(*sem_type);
        }
        match sem_type {
            Type::Primitive(p) => {
                assert(*sem_type == Type::Primitive(*p));
                match p {
                    PrimitiveType::Int | PrimitiveType::Char => Ok(Slot::Int64),
                    PrimitiveType::Float => Ok(Slot::Double),
                    PrimitiveType::Bool => Ok(Slot::Bit),
                    PrimitiveType::Str => Ok(Slot::Pointer),
                    PrimitiveType::Void => Err("Void type not allowed in fields".to_owned()),
                    PrimitiveType::Auto => Err("Auto type should be resolved".to_owned()),
                }
            },
            Type::Named(_, _)
            | Type::List(_)
            | Type::MapOf(_, _)
            | Type::SetOf(_)
            | Type::Optional(_)
            | Type::Reference(_)
            | Type::Function { .. } => Ok(Slot::Pointer),
            _ => Err(
                cat(
                    "Unsupported type in interface fields: ",
                    debug_text(sem_type).as_str(),
                ),
            ),
        }
    }

    /// The slot that a type's syntax asks for.
    pub fn llvm_type_from_mux_type(&self, type_node: &TypeNode) -> (r: Result<Slot, String>)
        requires
            kind_settles(self.params(), type_node.tree().kind),
        ensures
            chosen(r) == declared_slot(
                self.params(),
                class_names(self.classes@),
                names_of(self.enum_variants@),
                names_of(self.type_map@),
                type_node.tree().kind,
            ),
    {
        self.type_kind_to_llvm_type(&type_node.kind)
    }

    /// The slot that a type's syntax asks for.
    pub fn type_kind_to_llvm_type(&self, type_kind: &TypeKind) -> (r: Result<Slot, String>)
        requires
            kind_settles(self.params(), type_kind.tree()),
        ensures
            chosen(r) == declared_slot(
                self.params(),
                class_names(self.classes@),
                names_of(self.enum_variants@),
                names_of(self.type_map@),
                type_kind.tree(),
            ),
    {
        proof {
            type_kind_variant(*type_kind);
        }
        match type_kind {
            TypeKind::Primitive(p) => {
                assert(*type_kind == TypeKind::Primitive(*p));
                match p {
                    PrimitiveType::Int | PrimitiveType::Char => Ok(Slot::Int64),
                    PrimitiveType::Float => Ok(Slot::Double),
                    PrimitiveType::Bool => Ok(Slot::Bit),
                    PrimitiveType::Str => Ok(Slot::Pointer),
                    PrimitiveType::Void => Err(
                        "Void type cannot be used in enum variant fields".to_owned(),
                    ),
                    PrimitiveType::Auto => Err(
                        "Auto type should be resolved before codegen".to_owned(),
                    ),
                }
            },
            TypeKind::Auto => Err("Auto type should be resolved before codegen".to_owned()),
            TypeKind::Named(name, args) => {
                assert(*type_kind == TypeKind::Named(*name, *args));
                match self.resolve_generic_param(name.as_str()) {
                    Some(concrete) => {
                        return self.llvm_type_from_resolved_type(concrete);
                    },
                    None => {},
                }
                if !has_name(&self.enum_variants, name.as_str()) || same(
                    name.as_str(),
                    "optional",
                ) || same(name.as_str(), "result") {
                    return Ok(Slot::Pointer);
                }
                let arg_types = self.type_nodes_to_types(args);
                let resolved = self.mangled_enum_name(name.as_str(), &arg_types);
                if has_name(&self.type_map, resolved.as_str()) {
                    Ok(Slot::Struct(resolved))
                } else {
                    let mut out = cat("Enum type ", resolved.as_str());
                    out.append(" not found in type map");
                    Err(out)
                }
            },
            _ => Ok(Slot::Pointer),
        }
    }
}

} // verus!
