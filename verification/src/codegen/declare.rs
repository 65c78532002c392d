//! Declarations.

use crate::ast::nodes::TypeNode;
use crate::ast::tree::TypeTree;
use crate::codegen::generator::{class_names, has_name, lookup, names_of, Bindings, CodeGenerator};
use crate::codegen::instances::instance_steps;
use crate::codegen::layout::{declared_slot, kind_settles, Slot, SlotModel};
use crate::codegen::loops::storage_for;
use crate::codegen::resolution::{resolve, resolved};
use crate::codegen::scopes::{bound, scopes_of};
use crate::codegen::steps::{Part, Reg, SlotName, Step, Storage, ValueKind};
use crate::semantics::types::{term_shapes, type_variant, TypeTerm};
use crate::semantics::Type;
use crate::text::cat;
use vstd::prelude::*;

verus! {

broadcast use term_shapes;

/// A slot in the entry block of the function, or at the current place outside
/// of functions.
pub open spec fn slot_step(in_function: bool, storage: Storage) -> Step {
    if in_function {
        Step::AllocateAtEntry { storage, name: SlotName::Declared, into: Reg::Slot }
    } else {
        Step::Allocate { storage, name: SlotName::Declared, into: Reg::Slot }
    }
}

/// Whether a declaration binds a closure.
pub open spec fn binds_closure(t: TypeTerm, kind: ValueKind) -> bool {
    t is Function && kind == ValueKind::Pointer
}

/// A closure's declaration. An owned closure moves into the slot: inside of a
/// function what the slot held before is released first, and the slot is
/// released when its scope ends. A borrowed one is only stored.
pub open spec fn closure_steps(in_function: bool, owned: bool) -> Seq<Step> {
    seq![slot_step(in_function, Storage::Pointer)] + (if owned {
        seq![Step::UntrackClosure(Reg::Value)]
    } else {
        seq![]
    }) + (if owned && in_function {
        seq![
            Step::Load {
                storage: Storage::Pointer,
                from: Reg::Slot,
                name: "old_closure",
                into: Reg::Previous,
            },
            Step::Perform {
                function: "mux_closure_release",
                arg: Reg::Previous,
                name: "release_old_closure",
            },
        ]
    } else {
        seq![]
    }) + seq![Step::Store { value: Reg::Value, to: Reg::Slot }] + (if owned {
        seq![Step::TrackClosure(Reg::Slot)]
    } else {
        seq![]
    })
}

/// What is known of the value that a variable is declared with.
#[derive(Debug, Clone, Copy, PartialEq, Eq, Structural)]
pub struct Initial {
    pub kind: ValueKind,
    /// Whether it is a closure that nothing else owns.
    pub owned_closure: bool,
    /// Whether it is an enum that nothing else owns.
    pub rhs_owned: bool,
}

/// A struct value that the slot can own: the value itself, or where it is
/// borrowed a copy.
pub open spec fn owning(rhs_owned: bool) -> Seq<Step> {
    if rhs_owned {
        seq![]
    } else {
        seq![Step::Clone { value: Reg::Value, into: Reg::Stored }]
    }
}

/// Where that value is.
pub open spec fn owned_reg(rhs_owned: bool) -> Reg {
    if rhs_owned {
        Reg::Value
    } else {
        Reg::Stored
    }
}

/// A new value for the slot that the name already has.
pub open spec fn redeclared_steps(init: Initial) -> Seq<Step> {
    if init.kind == ValueKind::Struct {
        owning(init.rhs_owned).push(
            Step::StoreStruct {
                value: owned_reg(init.rhs_owned),
                to: Reg::Existing,
                release: true,
            },
        )
    } else {
        seq![Step::Overwrite { slot: Reg::Existing, storage: Storage::OfSlot, value: Reg::Value }]
    }
}

/// A struct's declaration. What the slot held is released inside of a
/// function only: there the slot is set to zero first.
pub open spec fn struct_steps(var_type: Storage, in_function: bool, rhs_owned: bool) -> Seq<Step> {
    seq![slot_step(in_function, var_type)] + owning(rhs_owned) + seq![
        Step::StoreStruct {
            value: owned_reg(rhs_owned),
            to: Reg::Slot,
            release: in_function,
        },
        Step::TrackEnumPayload(Reg::Slot),
    ]
}

impl CodeGenerator {
    /// The slot of a name in the innermost scope itself.
    pub open spec fn in_current_scope(&self, name: Seq<char>) -> bool {
        self.variables@.len() > 0 && lookup(scopes_of(self.variables@).last(), name) is Some
    }

    /// A local's declaration inside of a function.
    pub open spec fn local_steps(&self, name: Seq<char>, t: TypeTerm) -> Seq<Step> {
        (if self.is_captured(name) {
            seq![Step::AllocateCell { into: Reg::Slot }, Step::TrackCell(Reg::Slot)]
        } else {
            seq![slot_step(true, self.binding_storage(name, t)), Step::TrackBoxed(Reg::Slot)]
        }).push(
            Step::Overwrite {
                slot: Reg::Slot,
                storage: self.binding_storage(name, t),
                value: Reg::Value,
            },
        )
    }

    /// A local's declaration outside of functions.
    pub open spec fn toplevel_steps(&self, name: Seq<char>, t: TypeTerm) -> Seq<Step> {
        let storage = self.binding_storage(name, t);
        seq![
            slot_step(false, storage),
            if self.own_slot(name, t) is Some {
                Step::Coerce { value: Reg::Value, storage, into: Reg::Stored }
            } else {
                Step::BoxOwned { value: Reg::Value, into: Reg::Stored }
            },
            Step::Store { value: Reg::Stored, to: Reg::Slot },
        ]
    }

    /// A declaration's steps.
    pub open spec fn declaration_steps(
        &self,
        name: Seq<char>,
        t: TypeTerm,
        init: Initial,
        var_type: Storage,
        in_function: bool,
    ) -> Seq<Step> {
        if binds_closure(t, init.kind) {
            closure_steps(in_function, init.owned_closure)
        } else if self.in_current_scope(name) {
            redeclared_steps(init)
        } else if init.kind == ValueKind::Struct {
            struct_steps(var_type, in_function, init.rhs_owned)
        } else if in_function {
            self.local_steps(name, t)
        } else {
            self.toplevel_steps(name, t)
        }
    }

    /// The scopes behind a declaration.
    pub open spec fn scopes_with(&self, name: Seq<char>, t: TypeTerm, kind: ValueKind) -> Seq<
        Bindings,
    > {
        if self.binds_anew(name, t, kind) {
            bound(scopes_of(self.variables@), name, t)
        } else {
            scopes_of(self.variables@)
        }
    }

    /// Whether a declaration binds its name anew.
    pub open spec fn binds_anew(&self, name: Seq<char>, t: TypeTerm, kind: ValueKind) -> bool {
        binds_closure(t, kind) || !self.in_current_scope(name)
    }

    /// A constant's declaration, behind the evaluation of its value.
    pub open spec fn constant_steps(
        &self,
        name: Seq<char>,
        t: TypeTerm,
        in_function: bool,
        existing: Option<Storage>,
    ) -> Seq<Step> {
        let storage = self.binding_storage(name, t);
        (if self.own_slot(name, t) is Some {
            seq![Step::Coerce { value: Reg::Value, storage, into: Reg::Stored }]
        } else {
            seq![Step::Box { value: Reg::Value, into: Reg::Stored }, Step::Untrack(Reg::Stored)]
        }) + (if existing == Some(storage) {
            seq![Step::Store { value: Reg::Stored, to: Reg::Existing }]
        } else {
            seq![
                slot_step(in_function, storage),
                Step::Store { value: Reg::Stored, to: Reg::Slot },
            ] + (if in_function {
                seq![Step::TrackCounted(Reg::Slot)]
            } else {
                seq![]
            })
        })
    }

    /// The slot of a written type once its instances are made, or why it has
    /// none.
    pub open spec fn node_slot(&self, t: TypeTree) -> Result<SlotModel, Seq<char>> {
        declared_slot(
            self.params(),
            class_names(self.classes@),
            names_of(self.enum_variants@),
            self.structs_with(t),
            t.kind,
        )
    }

    /// The type of a declaration without one: what inference says, with type
    /// parameters resolved where that is possible.
    pub open spec fn auto_type(&self, name: Seq<char>, inferred: Result<TypeTerm, Seq<char>>) -> Result<
        TypeTerm,
        Seq<char>,
    > {
        match inferred {
            Err(e) => Err("Failed to get type for "@ + name + ": "@ + e),
            Ok(t) => match resolve(self.params(), t, seq![]) {
                Ok(c) => Ok(c),
                Err(_) => Ok(t),
            },
        }
    }
}

/// The kind of a slot's zero.
pub open spec fn kind_of_slot(slot: SlotModel) -> ValueKind {
    match slot {
        SlotModel::Int64 => ValueKind::Int(64),
        SlotModel::Bit => ValueKind::Int(1),
        SlotModel::Double => ValueKind::Float,
        SlotModel::Pointer => ValueKind::Pointer,
        SlotModel::Struct(_) => ValueKind::Struct,
    }
}

/// What is known of a slot's zero.
pub open spec fn zero_of(slot: SlotModel) -> Initial {
    Initial { kind: kind_of_slot(slot), owned_closure: false, rhs_owned: false }
}

/// Steps behind the evaluation of the declared value.
pub open spec fn evaluated(steps: Seq<Step>) -> Seq<Step> {
    seq![Step::Evaluate { part: Part::Expression, into: Reg::Value }] + steps
}

fn slot(in_function: bool, storage: Storage) -> (r: Step)
    ensures
        r == slot_step(in_function, storage),
{
    if in_function {
        Step::AllocateAtEntry { storage, name: SlotName::Declared, into: Reg::Slot }
    } else {
        Step::Allocate { storage, name: SlotName::Declared, into: Reg::Slot }
    }
}

/// Whether a type is a function's.
fn is_function(t: &Type) -> (r: bool)
    ensures
        r == (t.term() is Function),
{
    proof {
        type_variant(*t);
    }
    matches!(t, Type::Function { .. })
}

impl CodeGenerator {
    /// A closure's declaration, where the declaration binds one.
    fn try_declare_closure_variable(
        &self,
        t: &Type,
        kind: ValueKind,
        in_function: bool,
        owned_closure: bool,
    ) -> (r: Option<Vec<Step>>)
        ensures
            match r {
                Some(steps) => binds_closure(t.term(), kind) && steps@ == closure_steps(
                    in_function,
                    owned_closure,
                ),
                None => !binds_closure(t.term(), kind),
            },
    {
        if !is_function(t) || kind != ValueKind::Pointer {
            return None;
        }
        let mut out: Vec<Step> = Vec::new();
        out.push(slot(in_function, Storage::Pointer));
        if owned_closure {
            out.push(Step::UntrackClosure(Reg::Value));
            if in_function {
                out.push(
                    Step::Load {
                        storage: Storage::Pointer,
                        from: Reg::Slot,
                        name: "old_closure",
                        into: Reg::Previous,
                    },
                );
                out.push(
                    Step::Perform {
                        function: "mux_closure_release",
                        arg: Reg::Previous,
                        name: "release_old_closure",
                    },
                );
            }
        }
        out.push(Step::Store { value: Reg::Value, to: Reg::Slot });
        if owned_closure {
            out.push(Step::TrackClosure(Reg::Slot));
        }
        assert(out@ =~= closure_steps(in_function, owned_closure));
        Some(out)
    }

    /// A struct's declaration.
    fn declare_struct_variable(&self, var_type: Storage, in_function: bool, rhs_owned: bool) -> (r:
        Vec<Step>)
        ensures
            r@ == struct_steps(var_type, in_function, rhs_owned),
    {
        let mut out: Vec<Step> = Vec::new();
        out.push(slot(in_function, var_type));
        if !rhs_owned {
            out.push(Step::Clone { value: Reg::Value, into: Reg::Stored });
        }
        let value = if rhs_owned {
            Reg::Value
        } else {
            Reg::Stored
        };
        out.push(Step::StoreStruct { value, to: Reg::Slot, release: in_function });
        out.push(Step::TrackEnumPayload(Reg::Slot));
        assert(out@ =~= struct_steps(var_type, in_function, rhs_owned));
        out
    }

    /// A new value for the slot that the name already has.
    fn redeclare_variable(&self, init: Initial) -> (r: Vec<Step>)
        ensures
            r@ == redeclared_steps(init),
    {
        let mut out: Vec<Step> = Vec::new();
        if init.kind == ValueKind::Struct {
            if !init.rhs_owned {
                out.push(Step::Clone { value: Reg::Value, into: Reg::Stored });
            }
            let value = if init.rhs_owned {
                Reg::Value
            } else {
                Reg::Stored
            };
            out.push(Step::StoreStruct { value, to: Reg::Existing, release: true });
        } else {
            out.push(
                Step::Overwrite {
                    slot: Reg::Existing,
                    storage: Storage::OfSlot,
                    value: Reg::Value,
                },
            );
        }
        assert(out@ =~= redeclared_steps(init));
        out
    }

    /// A local's declaration inside of a function. Which slot it gets depends
    /// on the variable: a captured one shares a cell, a scalar lives in a slot
    /// of its own width, everything else behind a pointer.
    fn declare_local_in_function(&self, name: &str, t: &Type) -> (r: Vec<Step>)
        ensures
            r@ == self.local_steps(name@, t.term()),
    {
        let storage = self.storage_for_binding(name, t);
        let mut out: Vec<Step> = Vec::new();
        if has_name(&self.captured_names, name) {
            out.push(Step::AllocateCell { into: Reg::Slot });
            out.push(Step::TrackCell(Reg::Slot));
        } else {
            out.push(slot(true, storage));
            out.push(Step::TrackBoxed(Reg::Slot));
        }
        out.push(Step::Overwrite { slot: Reg::Slot, storage, value: Reg::Value });
        assert(out@ =~= self.local_steps(name@, t.term()));
        out
    }

    /// A local's declaration outside of functions. Its slot holds nothing that
    /// could be released.
    fn declare_local_without_function(&self, name: &str, t: &Type) -> (r: Vec<Step>)
        ensures
            r@ == self.toplevel_steps(name@, t.term()),
    {
        let own = self.scalar_slot_for_binding(name, t);
        let storage = storage_for(&own);
        let mut out: Vec<Step> = Vec::new();
        out.push(slot(false, storage));
        if own.is_some() {
            out.push(Step::Coerce { value: Reg::Value, storage, into: Reg::Stored });
        } else {
            out.push(Step::BoxOwned { value: Reg::Value, into: Reg::Stored });
        }
        out.push(Step::Store { value: Reg::Stored, to: Reg::Slot });
        assert(out@ =~= self.toplevel_steps(name@, t.term()));
        out
    }

    /// Declares a variable. Only a binding in this scope is the same variable
    /// declared again, and keeps its slot; a binding further out is another
    /// variable, which this one shadows.
    pub fn declare_variable(
        &mut self,
        name: &str,
        t: Type,
        init: Initial,
        var_type: Storage,
        in_function: bool,
    ) -> (r: Vec<Step>)
        requires
            old(self).variables@.len() > 0,
        ensures
            r@ == old(self).declaration_steps(name@, t.term(), init, var_type, in_function),
            scopes_of(final(self).variables@) == old(self).scopes_with(name@, t.term(), init.kind),
            *final(self) == (CodeGenerator { variables: final(self).variables, ..*old(self) }),
    {
        match self.try_declare_closure_variable(&t, init.kind, in_function, init.owned_closure) {
            Some(steps) => {
                self.bind(name, t);
                return steps;
            },
            None => {},
        }
        if self.get_in_current_scope(name).is_some() {
            return self.redeclare_variable(init);
        }
        let out = if init.kind == ValueKind::Struct {
            self.declare_struct_variable(var_type, in_function, init.rhs_owned)
        } else if in_function {
            self.declare_local_in_function(name, &t)
        } else {
            self.declare_local_without_function(name, &t)
        };
        self.bind(name, t);
        out
    }

    /// Declares a variable without a written type, where `inferred` is what
    /// inference says of its value and `init` what evaluating it gives.
    pub fn generate_auto_decl_statement(
        &mut self,
        name: &str,
        inferred: Result<Type, String>,
        init: Initial,
        in_function: bool,
    ) -> (r: Result<Vec<Step>, String>)
        requires
            old(self).variables@.len() > 0,
        ensures
            match old(self).auto_type(name@, resolved(inferred)) {
                Err(e) => r matches Err(m) && m@ == e && *final(self) == *old(self),
                Ok(t) => {
                    &&& r matches Ok(steps) && steps@ == evaluated(
                        old(self).declaration_steps(name@, t, init, Storage::OfValue, in_function),
                    )
                    &&& scopes_of(final(self).variables@) == old(self).scopes_with(
                        name@,
                        t,
                        init.kind,
                    )
                    &&& *final(self) == (CodeGenerator {
                        variables: final(self).variables,
                        ..*old(self)
                    })
                },
            },
    {
        let t = match inferred {
            Err(e) => {
                let mut out = cat("Failed to get type for ", name);
                out.append(": ");
                out.append(e.as_str());
                return Err(out);
            },
            Ok(t) => match self.resolve_type(&t) {
                Ok(c) => c,
                Err(_) => t,
            },
        };
        let mut out: Vec<Step> = Vec::new();
        out.push(Step::Evaluate { part: Part::Expression, into: Reg::Value });
        let mut steps = self.declare_variable(name, t, init, Storage::OfValue, in_function);
        let ghost rest = steps@;
        out.append(&mut steps);
        assert(out@ =~= evaluated(rest));
        Ok(out)
    }

    /// Declares a variable with a written type, where `declared` is what the
    /// analysis makes of the type and `init` what evaluating the value gives.
    /// The instances that the type calls for are made first.
    pub fn generate_typed_decl_statement(
        &mut self,
        name: &str,
        type_node: &TypeNode,
        declared: Result<Type, String>,
        init: Initial,
        in_function: bool,
    ) -> (r: Result<Vec<Step>, String>)
        requires
            old(self).variables@.len() > 0,
            kind_settles(old(self).params(), type_node.tree().kind),
        ensures
            names_of(final(self).type_map@) == old(self).structs_with(type_node.tree()),
            match old(self).node_slot(type_node.tree()) {
                Err(e) => {
                    &&& r matches Err(m) && m@ == e
                    &&& *final(self) == (CodeGenerator {
                        type_map: final(self).type_map,
                        ..*old(self)
                    })
                },
                Ok(_) => match resolved(declared) {
                    Err(e) => {
                        &&& r matches Err(m) && m@ == "Failed to resolve type for "@ + name@ + ": "@
                            + e
                        &&& *final(self) == (CodeGenerator {
                            type_map: final(self).type_map,
                            ..*old(self)
                        })
                    },
                    Ok(t) => {
                        &&& r matches Ok(steps) && steps@ == instance_steps(
                            old(self).node_instances(type_node.tree()),
                        ) + evaluated(old(self).declaration_steps(name@, t, init, Storage::OfDeclared, in_function))
                        &&& scopes_of(final(self).variables@) == old(self).scopes_with(
                            name@,
                            t,
                            init.kind,
                        )
                        &&& *final(self) == (CodeGenerator {
                            variables: final(self).variables,
                            type_map: final(self).type_map,
                            ..*old(self)
                        })
                    },
                },
            },
    {
        let mut out = self.instantiate_generic_types_in_type_node(type_node);
        let ghost front = out@;
        match self.llvm_type_from_mux_type(type_node) {
            Ok(_) => {},
            Err(e) => {
                return Err(e);
            },
        }
        let t = match declared {
            Err(e) => {
                let mut message = cat("Failed to resolve type for ", name);
                message.append(": ");
                message.append(e.as_str());
                return Err(message);
            },
            Ok(t) => t,
        };
        out.push(Step::Evaluate { part: Part::Expression, into: Reg::Value });
        let mut steps = self.declare_variable(name, t, init, Storage::OfDeclared, in_function);
        let ghost rest = steps@;
        out.append(&mut steps);
        assert(out@ =~= front + evaluated(rest));
        Ok(out)
    }

    /// Declares a variable without a value, where `declared` is what the
    /// analysis makes of its type. Its slot is set to zero: a counted value that
    /// is read too early is then no wild pointer. The instances that the type
    /// calls for are made first.
    pub fn generate_uninit_decl_statement(
        &mut self,
        name: &str,
        type_node: &TypeNode,
        declared: Result<Type, String>,
        in_function: bool,
    ) -> (r: Result<Vec<Step>, String>)
        requires
            old(self).variables@.len() > 0,
            kind_settles(old(self).params(), type_node.tree().kind),
        ensures
            names_of(final(self).type_map@) == old(self).structs_with(type_node.tree()),
            match old(self).node_slot(type_node.tree()) {
                Err(e) => {
                    &&& r matches Err(m) && m@ == e
                    &&& *final(self) == (CodeGenerator {
                        type_map: final(self).type_map,
                        ..*old(self)
                    })
                },
                Ok(slot) => match declared {
                    Err(e) => {
                        &&& r == Err::<Vec<Step>, String>(e)
                        &&& *final(self) == (CodeGenerator {
                            type_map: final(self).type_map,
                            ..*old(self)
                        })
                    },
                    Ok(t) => {
                        &&& r matches Ok(steps) && steps@ == instance_steps(
                            old(self).node_instances(type_node.tree()),
                        ) + seq![Step::Zero { into: Reg::Value }] + old(self).declaration_steps(
                            name@,
                            t.term(),
                            zero_of(slot),
                            Storage::OfDeclared,
                            in_function,
                        )
                        &&& scopes_of(final(self).variables@) == old(self).scopes_with(
                            name@,
                            t.term(),
                            kind_of_slot(slot),
                        )
                        &&& *final(self) == (CodeGenerator {
                            variables: final(self).variables,
                            type_map: final(self).type_map,
                            ..*old(self)
                        })
                    },
                },
            },
    {
        let mut out = self.instantiate_generic_types_in_type_node(type_node);
        let ghost front = out@;
        let slot = match self.llvm_type_from_mux_type(type_node) {
            Ok(slot) => slot,
            Err(e) => {
                return Err(e);
            },
        };
        let t = match declared {
            Ok(t) => t,
            Err(e) => {
                return Err(e);
            },
        };
        let kind = match slot {
            Slot::Int64 => ValueKind::Int(64),
            Slot::Bit => ValueKind::Int(1),
            Slot::Double => ValueKind::Float,
            Slot::Pointer => ValueKind::Pointer,
            Slot::Struct(_) => ValueKind::Struct,
        };
        out.push(Step::Zero { into: Reg::Value });
        let init = Initial { kind, owned_closure: false, rhs_owned: false };
        let mut steps = self.declare_variable(name, t, init, Storage::OfDeclared, in_function);
        let ghost rest = steps@;
        out.append(&mut steps);
        assert(out@ =~= front + seq![Step::Zero { into: Reg::Value }] + rest);
        Ok(out)
    }

    /// Declares a constant, where `inferred` is what inference says of its
    /// value and `existing` the slot that the innermost scope has for the name.
    /// That slot is used again where it has the constant's type.
    pub fn generate_const_decl_statement(
        &mut self,
        name: &str,
        inferred: Result<Type, String>,
        in_function: bool,
        existing: Option<Storage>,
    ) -> (r: Result<Vec<Step>, String>)
        requires
            old(self).variables@.len() > 0,
        ensures
            match resolved(inferred) {
                Err(e) => {
                    &&& r matches Err(message) && message@ == "Failed to get type for "@ + name@
                        + ": "@ + e
                    &&& *final(self) == *old(self)
                },
                Ok(t) => {
                    &&& r matches Ok(steps) && steps@ == evaluated(
                        old(self).constant_steps(name@, t, in_function, existing),
                    )
                    &&& scopes_of(final(self).variables@) == (if existing == Some(
                        old(self).binding_storage(name@, t),
                    ) {
                        scopes_of(old(self).variables@)
                    } else {
                        bound(scopes_of(old(self).variables@), name@, t)
                    })
                    &&& *final(self) == (CodeGenerator {
                        variables: final(self).variables,
                        ..*old(self)
                    })
                },
            },
    {
        let t = match inferred {
            Ok(t) => t,
            Err(e) => {
                let mut out = cat("Failed to get type for ", name);
                out.append(": ");
                out.append(e.as_str());
                return Err(out);
            },
        };
        let own = self.scalar_slot_for_binding(name, &t);
        let storage = storage_for(&own);
        let mut out: Vec<Step> = Vec::new();
        out.push(Step::Evaluate { part: Part::Expression, into: Reg::Value });
        if own.is_some() {
            out.push(Step::Coerce { value: Reg::Value, storage, into: Reg::Stored });
        } else {
            out.push(Step::Box { value: Reg::Value, into: Reg::Stored });
            out.push(Step::Untrack(Reg::Stored));
        }
        let again = match existing {
            Some(slot_type) => slot_type == storage,
            None => false,
        };
        if again {
            out.push(Step::Store { value: Reg::Stored, to: Reg::Existing });
            assert(out@ =~= evaluated(
                old(self).constant_steps(name@, t.term(), in_function, existing),
            ));
            return Ok(out);
        }
        out.push(slot(in_function, storage));
        out.push(Step::Store { value: Reg::Stored, to: Reg::Slot });
        if in_function {
            out.push(Step::TrackCounted(Reg::Slot));
        }
        assert(out@ =~= evaluated(
                old(self).constant_steps(name@, t.term(), in_function, existing),
            ));
        self.bind(name, t);
        Ok(out)
    }
}

/// A declaration leaves every other name as it was, and its own name stands
/// for a variable afterwards.
pub proof fn declaration_binds_its_name_only(
    g: &CodeGenerator,
    name: Seq<char>,
    t: TypeTerm,
    kind: ValueKind,
    other: Seq<char>,
)
    requires
        g.variables@.len() > 0,
        other != name,
    ensures
        ({
            let before = scopes_of(g.variables@);
            let after = g.scopes_with(name, t, kind);
            &&& crate::codegen::scopes::scoped(after, other) == crate::codegen::scopes::scoped(
                before,
                other,
            )
            &&& crate::codegen::scopes::scoped(after, name) is Some
        }),
{
    let before = scopes_of(g.variables@);
    let after = bound(before, name, t);
    assert(after.drop_last() =~= before.drop_last());
    let entry = seq![(name, t)] + before.last();
    assert(after.last() == entry);
    assert(entry[0] == (name, t));
    assert(entry.drop_first() =~= before.last());
}

/// The steps of a declaration inside a loop's body release what the pass
/// before left in the slot: an owned closure's slot is released in a function.
pub proof fn owned_closure_slot_is_released(owned: bool)
    ensures
        closure_steps(true, owned).contains(
            Step::Perform {
                function: "mux_closure_release",
                arg: Reg::Previous,
                name: "release_old_closure",
            },
        ) == owned,
        closure_steps(true, owned).contains(Step::TrackClosure(Reg::Slot)) == owned,
{
    let steps = closure_steps(true, owned);
    if owned {
        assert(steps[3] == Step::Perform {
            function: "mux_closure_release",
            arg: Reg::Previous,
            name: "release_old_closure",
        });
        assert(steps[5] == Step::TrackClosure(Reg::Slot));
    } else {
        assert(steps.len() == 2);
    }
}

/// A struct that is declared is copied exactly where its value is borrowed, so
/// that no two variables own the same payload.
pub proof fn borrowed_struct_is_copied(var_type: Storage, in_function: bool, rhs_owned: bool)
    ensures
        struct_steps(var_type, in_function, rhs_owned).contains(
            Step::Clone { value: Reg::Value, into: Reg::Stored },
        ) == !rhs_owned,
        redeclared_steps(
            Initial { kind: ValueKind::Struct, owned_closure: false, rhs_owned },
        ).contains(Step::Clone { value: Reg::Value, into: Reg::Stored }) == !rhs_owned,
{
    let clone = Step::Clone { value: Reg::Value, into: Reg::Stored };
    let fresh = struct_steps(var_type, in_function, rhs_owned);
    let again = redeclared_steps(
        Initial { kind: ValueKind::Struct, owned_closure: false, rhs_owned },
    );
    if !rhs_owned {
        assert(fresh[1] == clone);
        assert(again[0] == clone);
    } else {
        assert(fresh.len() == 3);
        assert(again.len() == 1);
    }
}

} // verus!
