//! In which form values are returned, and who owns them.

use crate::ast::PrimitiveType;
use crate::codegen::generator::CodeGenerator;
use crate::codegen::layout::{scalar, SlotModel};
use crate::codegen::patterns::raw_kind;
use crate::codegen::returning::typed_return;
use crate::codegen::steps::{RawKind, Reg, SlotName, Step, Storage, ValueKind};
use crate::semantics::types::TypeTerm;
use vstd::prelude::*;

verus! {

/// A value is taken out of its box in the form in which its slot holds it.
pub proof fn raw_values_fit_their_slots(t: TypeTerm)
    ensures
        raw_kind(t) is Some <==> scalar(t) is Some,
        raw_kind(t) == Some(RawKind::Int) <==> scalar(t) == Some(SlotModel::Int64),
        raw_kind(t) == Some(RawKind::Float) <==> scalar(t) == Some(SlotModel::Double),
        raw_kind(t) == Some(RawKind::Bool) <==> scalar(t) == Some(SlotModel::Bit),
{
}

/// A number is returned itself: it is taken out of its box, in the form of its
/// type, before the scopes are released.
pub proof fn numbers_are_returned_themselves(t: TypeTerm, rhs_owned: bool, kind: ValueKind)
    requires
        t == TypeTerm::Primitive(PrimitiveType::Int) || t == TypeTerm::Primitive(
            PrimitiveType::Float,
        ),
    ensures
        typed_return(t, false, rhs_owned, kind) matches Ok(s) && s.len() == 3 && s[0] == (Step::Raw {
            kind: raw_kind(t)->0,
            value: Reg::Value,
            into: Reg::Stored,
        }) && s[1] == Step::CleanUpScopes && s[2] == Step::Return(Reg::Stored),
{
}

/// A counted value is returned with one owner more, which it gets before the
/// scopes release theirs.
pub proof fn returned_boxes_outlive_the_scopes(t: TypeTerm, rhs_owned: bool, kind: ValueKind)
    requires
        t is MapOf || t is SetOf || t is Tuple || t is Optional || t is ResultOf || t is Named || (
        t is List && kind == ValueKind::Pointer) || t == TypeTerm::Primitive(PrimitiveType::Str),
    ensures
        typed_return(t, false, rhs_owned, kind) matches Ok(s) && s.len() >= 3 && s[s.len() - 2]
            == Step::CleanUpScopes && (s[s.len() - 1] matches Step::Return(r) && s[s.len() - 3]
            == Step::Retain(r)),
{
    let s = typed_return(t, false, rhs_owned, kind)->Ok_0;
    if kind == ValueKind::Pointer {
        assert(s[0] == Step::Retain(Reg::Value));
        assert(s[2] == Step::Return(Reg::Value));
    } else {
        assert(s[1] == Step::Retain(Reg::Stored));
        assert(s[3] == Step::Return(Reg::Stored));
    }
}

/// A closure is returned with one owner more.
pub proof fn returned_closures_outlive_the_scopes(t: TypeTerm, rhs_owned: bool, kind: ValueKind)
    requires
        t is Function,
    ensures
        typed_return(t, false, rhs_owned, kind) matches Ok(s) && s.len() == 3 && s[0]
            == Step::RetainClosure(Reg::Value) && s[1] == Step::CleanUpScopes && s[2]
            == Step::Return(Reg::Value),
{
}

/// A local that a closure captures lives in a cell; any other lives in a slot of
/// its function's frame. Both are released with their scope, and hold the value
/// in the form of their type.
pub proof fn locals_are_released_with_their_scope(g: CodeGenerator, name: Seq<char>, t: TypeTerm)
    ensures
        ({
            let s = g.local_steps(name, t);
            &&& s.len() == 3
            &&& g.is_captured(name) ==> s[0] == (Step::AllocateCell { into: Reg::Slot }) && s[1]
                == Step::TrackCell(Reg::Slot)
            &&& !g.is_captured(name) ==> s[0] == (Step::AllocateAtEntry {
                storage: g.binding_storage(name, t),
                name: SlotName::Declared,
                into: Reg::Slot,
            }) && s[1] == Step::TrackBoxed(Reg::Slot)
            &&& s[2] == (Step::Overwrite {
                slot: Reg::Slot,
                storage: g.binding_storage(name, t),
                value: Reg::Value,
            })
        }),
{
}

/// Outside of functions a scalar is stored itself, and anything else in a box.
pub proof fn globals_hold_scalars_themselves(g: CodeGenerator, name: Seq<char>, t: TypeTerm)
    ensures
        ({
            let s = g.toplevel_steps(name, t);
            &&& g.binding_storage(name, t) != Storage::Pointer ==> s[1] == (Step::Coerce {
                value: Reg::Value,
                storage: g.binding_storage(name, t),
                into: Reg::Stored,
            })
            &&& g.binding_storage(name, t) == Storage::Pointer ==> s[1] == (Step::BoxOwned {
                value: Reg::Value,
                into: Reg::Stored,
            })
            &&& s[2] == (Step::Store { value: Reg::Stored, to: Reg::Slot })
        }),
{
}

} // verus!
