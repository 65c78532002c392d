//! Return statements.

use crate::ast::nodes::{ExpressionKind, ExpressionNode, LiteralNode};
use crate::ast::PrimitiveType;
use crate::codegen::generator::CodeGenerator;
use crate::codegen::steps::{RawKind, Reg, Step, ValueKind};
use crate::semantics::types::{term_shapes, type_variant, TypeTerm};
use crate::semantics::Type;
use vstd::prelude::*;

verus! {

broadcast use term_shapes;

/// Steps, or why there are none.
pub type Planned = Result<Seq<Step>, Seq<char>>;

pub open spec fn planned(r: Result<Vec<Step>, String>) -> Planned {
    match r {
        Ok(steps) => Ok(steps@),
        Err(e) => Err(e@),
    }
}

/// Releases what the scopes hold, then returns a value.
pub open spec fn leave_with(value: Reg) -> Seq<Step> {
    seq![Step::CleanUpScopes, Step::Return(value)]
}

/// A scalar return: the raw value outlives the scopes.
pub open spec fn raw_return(kind: RawKind) -> Seq<Step> {
    seq![Step::Raw { kind, value: Reg::Value, into: Reg::Stored }] + leave_with(Reg::Stored)
}

/// The return of an enum by value. An owned one moves to the caller; of a
/// borrowed one the caller gets a copy.
pub open spec fn enum_return(rhs_owned: bool) -> Seq<Step> {
    if rhs_owned {
        seq![Step::UntrackEnum(Reg::Value)] + leave_with(Reg::Value)
    } else {
        seq![
            Step::Clone { value: Reg::Value, into: Reg::Stored },
            Step::UntrackEnum(Reg::Value),
        ] + leave_with(Reg::Stored)
    }
}

/// The return of a truth value, which is an integer or a box.
pub open spec fn bool_return(kind: ValueKind) -> Planned {
    match kind {
        ValueKind::Int(width) => if width == 1 {
            Ok(leave_with(Reg::Value))
        } else {
            Ok(
                seq![
                    Step::CleanUpScopes,
                    Step::Truncate { value: Reg::Value, name: "int_to_i1", into: Reg::Stored },
                    Step::Return(Reg::Stored),
                ],
            )
        },
        ValueKind::Pointer => Ok(
            seq![
                Step::Call1 {
                    function: "mux_value_get_bool",
                    arg: Reg::Value,
                    name: "get_bool",
                    into: Reg::Outcome,
                },
                Step::CleanUpScopes,
                Step::Truncate { value: Reg::Outcome, name: "i32_to_i1", into: Reg::Stored },
                Step::Return(Reg::Stored),
            ],
        ),
        _ => Err("Expected bool value or pointer"@),
    }
}

/// The return of a counted value: one owner more, which is the caller.
pub open spec fn boxed_return(kind: ValueKind) -> Seq<Step> {
    if kind == ValueKind::Pointer {
        seq![Step::Retain(Reg::Value)] + leave_with(Reg::Value)
    } else {
        seq![Step::Box { value: Reg::Value, into: Reg::Stored }, Step::Retain(Reg::Stored)]
            + leave_with(Reg::Stored)
    }
}

/// The return of a value as a function's return type asks for it.
pub open spec fn typed_return(
    t: TypeTerm,
    user_enum: bool,
    rhs_owned: bool,
    kind: ValueKind,
) -> Planned {
    if user_enum {
        Ok(enum_return(rhs_owned))
    } else {
        match t {
            TypeTerm::Primitive(PrimitiveType::Int) => Ok(raw_return(RawKind::Int)),
            TypeTerm::Primitive(PrimitiveType::Float) => Ok(raw_return(RawKind::Float)),
            TypeTerm::Primitive(PrimitiveType::Bool) => bool_return(kind),
            TypeTerm::List(_) => if kind == ValueKind::Pointer {
                Ok(boxed_return(kind))
            } else {
                Err("Expected pointer value for list return"@)
            },
            TypeTerm::Function { .. } => Ok(
                seq![Step::RetainClosure(Reg::Value)] + leave_with(Reg::Value),
            ),
            _ => Ok(boxed_return(kind)),
        }
    }
}

/// The truth literal that an expression is.
pub open spec fn bool_literal(e: ExpressionNode) -> Option<bool> {
    match e.kind {
        ExpressionKind::Literal(LiteralNode::Boolean(b)) => Some(b),
        _ => None,
    }
}

impl CodeGenerator {
    /// Whether the current function is declared to return a truth value.
    pub open spec fn gives_bool(&self) -> bool {
        self.current_function_return_type is Some
            && self.current_function_return_type->0.term() == TypeTerm::Primitive(
            PrimitiveType::Bool,
        )
    }

    /// The return of an evaluated value.
    pub open spec fn value_return(&self, user_enum: bool, rhs_owned: bool, kind: ValueKind) -> Planned {
        match self.current_function_return_type {
            Some(t) => match typed_return(t.term(), user_enum, rhs_owned, kind) {
                Ok(steps) => Ok(seq![Step::Inline { value: Reg::Value, into: Reg::Value }] + steps),
                Err(e) => Err(e),
            },
            None => Ok(
                seq![Step::Box { value: Reg::Value, into: Reg::Stored }, Step::Retain(Reg::Stored)]
                    + leave_with(Reg::Stored),
            ),
        }
    }

    /// The return of a truth literal from a function that is declared to return
    /// one needs no evaluation.
    pub fn try_generate_bool_literal_return(&self, expr: &ExpressionNode) -> (r: Option<Vec<Step>>)
        ensures
            match r {
                Some(steps) => {
                    &&& self.gives_bool()
                    &&& bool_literal(*expr) matches Some(b) && steps@ == seq![
                        Step::CleanUpScopes,
                        Step::ReturnBool(b),
                    ]
                },
                None => !self.gives_bool() || bool_literal(*expr) is None,
            },
    {
        let b = match &expr.kind {
            ExpressionKind::Literal(LiteralNode::Boolean(b)) => *b,
            _ => {
                return None;
            },
        };
        match &self.current_function_return_type {
            Some(t) => {
                proof {
                    type_variant(*t);
                }
                match t {
                    Type::Primitive(p) => {
                        assert(*t == Type::Primitive(*p));
                        if *p != PrimitiveType::Bool {
                            return None;
                        }
                    },
                    _ => {
                        return None;
                    },
                }
            },
            None => {
                return None;
            },
        }
        let mut out: Vec<Step> = Vec::new();
        out.push(Step::CleanUpScopes);
        out.push(Step::ReturnBool(b));
        assert(out@ =~= seq![Step::CleanUpScopes, Step::ReturnBool(b)]);
        Some(out)
    }

    fn leave(out: &mut Vec<Step>, value: Reg)
        ensures
            final(out)@ == old(out)@ + leave_with(value),
    {
        out.push(Step::CleanUpScopes);
        out.push(Step::Return(value));
        assert(out@ =~= old(out)@ + leave_with(value));
    }

    fn return_raw_value(kind: RawKind) -> (r: Vec<Step>)
        ensures
            r@ == raw_return(kind),
    {
        let mut out: Vec<Step> = Vec::new();
        out.push(Step::Raw { kind, value: Reg::Value, into: Reg::Stored });
        Self::leave(&mut out, Reg::Stored);
        assert(out@ =~= raw_return(kind));
        out
    }

    fn return_enum_value(rhs_owned: bool) -> (r: Vec<Step>)
        ensures
            r@ == enum_return(rhs_owned),
    {
        let mut out: Vec<Step> = Vec::new();
        if !rhs_owned {
            out.push(Step::Clone { value: Reg::Value, into: Reg::Stored });
        }
        out.push(Step::UntrackEnum(Reg::Value));
        Self::leave(&mut out, if rhs_owned { Reg::Value } else { Reg::Stored });
        assert(out@ =~= enum_return(rhs_owned));
        out
    }

    fn return_bool_int_value(width: u32) -> (r: Vec<Step>)
        ensures
            bool_return(ValueKind::Int(width)) == Ok::<Seq<Step>, Seq<char>>(r@),
    {
        let mut out: Vec<Step> = Vec::new();
        out.push(Step::CleanUpScopes);
        if width == 1 {
            out.push(Step::Return(Reg::Value));
            assert(out@ =~= leave_with(Reg::Value));
            return out;
        }
        out.push(Step::Truncate { value: Reg::Value, name: "int_to_i1", into: Reg::Stored });
        out.push(Step::Return(Reg::Stored));
        assert(out@ =~= seq![
            Step::CleanUpScopes,
            Step::Truncate { value: Reg::Value, name: "int_to_i1", into: Reg::Stored },
            Step::Return(Reg::Stored),
        ]);
        out
    }

    fn return_bool_ptr_value() -> (r: Vec<Step>)
        ensures
            bool_return(ValueKind::Pointer) == Ok::<Seq<Step>, Seq<char>>(r@),
    {
        let mut out: Vec<Step> = Vec::new();
        out.push(
            Step::Call1 {
                function: "mux_value_get_bool",
                arg: Reg::Value,
                name: "get_bool",
                into: Reg::Outcome,
            },
        );
        out.push(Step::CleanUpScopes);
        out.push(Step::Truncate { value: Reg::Outcome, name: "i32_to_i1", into: Reg::Stored });
        out.push(Step::Return(Reg::Stored));
        assert(out@ =~= bool_return(ValueKind::Pointer)->Ok_0);
        out
    }

    fn return_bool_value(kind: ValueKind) -> (r: Result<Vec<Step>, String>)
        ensures
            planned(r) == bool_return(kind),
    {
        match kind {
            ValueKind::Int(width) => Ok(Self::return_bool_int_value(width)),
            ValueKind::Pointer => Ok(Self::return_bool_ptr_value()),
            _ => Err("Expected bool value or pointer".to_owned()),
        }
    }

    fn return_boxed_complex_value(kind: ValueKind) -> (r: Vec<Step>)
        ensures
            r@ == boxed_return(kind),
    {
        let mut out: Vec<Step> = Vec::new();
        if kind == ValueKind::Pointer {
            out.push(Step::Retain(Reg::Value));
            Self::leave(&mut out, Reg::Value);
        } else {
            out.push(Step::Box { value: Reg::Value, into: Reg::Stored });
            out.push(Step::Retain(Reg::Stored));
            Self::leave(&mut out, Reg::Stored);
        }
        assert(out@ =~= boxed_return(kind));
        out
    }

    fn return_list_value(kind: ValueKind) -> (r: Result<Vec<Step>, String>)
        ensures
            planned(r) == (if kind == ValueKind::Pointer {
                Ok(boxed_return(kind))
            } else {
                Err("Expected pointer value for list return"@)
            }),
    {
        if kind != ValueKind::Pointer {
            return Err("Expected pointer value for list return".to_owned());
        }
        Ok(Self::return_boxed_complex_value(kind))
    }

    fn return_closure_value() -> (r: Vec<Step>)
        ensures
            r@ == seq![Step::RetainClosure(Reg::Value)] + leave_with(Reg::Value),
    {
        let mut out: Vec<Step> = Vec::new();
        out.push(Step::RetainClosure(Reg::Value));
        Self::leave(&mut out, Reg::Value);
        assert(out@ =~= seq![Step::RetainClosure(Reg::Value)] + leave_with(Reg::Value));
        out
    }

    /// The return of a value as a return type asks for it. `user_enum` says
    /// whether the type is a declared enum, `rhs_owned` whether the returned
    /// expression gives an enum that nothing else owns.
    pub fn generate_typed_return(
        &self,
        return_type: &Type,
        user_enum: bool,
        rhs_owned: bool,
        kind: ValueKind,
    ) -> (r: Result<Vec<Step>, String>)
        ensures
            planned(r) == typed_return(return_type.term(), user_enum, rhs_owned, kind),
    {
        if user_enum {
            return Ok(Self::return_enum_value(rhs_owned));
        }
        proof {
            type_variant(*return_type);
        }
        match return_type {
            Type::Primitive(p) => {
                assert(*return_type == Type::Primitive(*p));
                match p {
                    PrimitiveType::Int => Ok(Self::return_raw_value(RawKind::Int)),
                    PrimitiveType::Float => Ok(Self::return_raw_value(RawKind::Float)),
                    PrimitiveType::Bool => Self::return_bool_value(kind),
                    _ => Ok(Self::return_boxed_complex_value(kind)),
                }
            },
            Type::List(_) => Self::return_list_value(kind),
            Type::Function { .. } => Ok(Self::return_closure_value()),
            _ => Ok(Self::return_boxed_complex_value(kind)),
        }
    }

    /// The return of an evaluated value from the current function.
    pub fn generate_return_with_value(&self, user_enum: bool, rhs_owned: bool, kind: ValueKind) -> (r:
        Result<Vec<Step>, String>)
        ensures
            planned(r) == self.value_return(user_enum, rhs_owned, kind),
    {
        let mut out: Vec<Step> = Vec::new();
        match &self.current_function_return_type {
            Some(t) => {
                let mut rest = match self.generate_typed_return(t, user_enum, rhs_owned, kind) {
                    Ok(rest) => rest,
                    Err(e) => {
                        return Err(e);
                    },
                };
                let ghost steps = rest@;
                out.push(Step::Inline { value: Reg::Value, into: Reg::Value });
                out.append(&mut rest);
                assert(out@ =~= seq![Step::Inline { value: Reg::Value, into: Reg::Value }] + steps);
                Ok(out)
            },
            None => {
                out.push(Step::Box { value: Reg::Value, into: Reg::Stored });
                out.push(Step::Retain(Reg::Stored));
                Self::leave(&mut out, Reg::Stored);
                assert(out@ =~= seq![
                    Step::Box { value: Reg::Value, into: Reg::Stored },
                    Step::Retain(Reg::Stored),
                ] + leave_with(Reg::Stored));
                Ok(out)
            },
        }
    }
}

/// Every return releases what the open scopes hold, once, and then returns.
pub proof fn return_cleans_up_once(t: TypeTerm, user_enum: bool, rhs_owned: bool, kind: ValueKind)
    requires
        typed_return(t, user_enum, rhs_owned, kind) is Ok,
    ensures
        ({
            let steps = typed_return(t, user_enum, rhs_owned, kind)->Ok_0;
            &&& steps.last() is Return
            &&& exists|i: int|
                0 <= i < steps.len() - 1 && #[trigger] steps[i] == Step::CleanUpScopes
                    && forall|j: int|
                    0 <= j < steps.len() && j != i ==> #[trigger] steps[j] != Step::CleanUpScopes
        }),
{
    let steps = typed_return(t, user_enum, rhs_owned, kind)->Ok_0;
    let n = steps.len() as int;
    if !user_enum && t == TypeTerm::Primitive(PrimitiveType::Bool) {
        if kind matches ValueKind::Int(w) {
            assert(steps[0] == Step::CleanUpScopes);
        } else {
            assert(steps[1] == Step::CleanUpScopes);
        }
    } else {
        assert(steps[n - 2] == Step::CleanUpScopes);
    }
}

/// A returned enum is copied exactly where the returned expression borrows it.
pub proof fn borrowed_enum_is_copied(t: TypeTerm, rhs_owned: bool, kind: ValueKind)
    ensures
        typed_return(t, true, rhs_owned, kind)->Ok_0.contains(
            Step::Clone { value: Reg::Value, into: Reg::Stored },
        ) == !rhs_owned,
{
    let steps = typed_return(t, true, rhs_owned, kind)->Ok_0;
    if !rhs_owned {
        assert(steps[0] == Step::Clone { value: Reg::Value, into: Reg::Stored });
    } else {
        assert(steps.len() == 3);
    }
}

} // verus!
