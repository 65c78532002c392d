//! Matches on enums, and the arms of all matches.

use crate::ast::nodes::{EnumVariantField, ExpressionNode, MatchArm, PatternNode};
use crate::codegen::debug_text::{debug_of, debug_text};
use crate::codegen::generator::{
    class_names, bindings_of, has_name, names_of, Binding, Bindings, CodeGenerator,
};
use crate::codegen::instances::{
    instance_steps, matched_instance_has_struct, one_instance, with_names,
};
use crate::codegen::layout::{declared_slot, kind_settles, SlotModel};
use crate::codegen::loops::{block_returns, ends_with_return};
use crate::codegen::matching::{enum_at, named, variant_at, Named};
use crate::codegen::naming::{enum_name, enum_of};
use crate::codegen::patterns::{tested, PatternTest};
use crate::codegen::resolution::resolved;
use crate::codegen::returning::{planned, Planned};
use crate::codegen::scopes::{bound, scopes_of};
use crate::codegen::steps::{BlockLabel, Part, Reg, SlotName, Step, Storage, ValueKind};
use crate::semantics::types::{term_shapes, type_variant, TypeTerm};
use crate::semantics::Type;
use crate::text::{cat, decimal, decimal_string, same};
use vstd::prelude::*;

verus! {

broadcast use term_shapes;

/// The enums that the runtime implements.
pub open spec fn is_builtin(name: Seq<char>) -> bool {
    name == "optional"@ || name == "result"@
}

fn names_builtin(name: &str) -> (r: bool)
    ensures
        r == is_builtin(name@),
{
    same(name, "optional") || same(name, "result")
}

/// Whether a value of a kind can be an enum: behind a pointer, or as a struct.
pub open spec fn holds_enum(kind: ValueKind) -> bool {
    kind == ValueKind::Pointer || kind == ValueKind::Struct
}

/// Where generation goes on after an arm that does not match.
pub open spec fn next_label(id: usize, i: int, count: nat) -> BlockLabel {
    if i + 1 < count {
        BlockLabel::MatchNext(id, i as usize)
    } else {
        BlockLabel::MatchEnd(id)
    }
}

/// Where an arm's test stands.
pub open spec fn test_label(id: usize, i: int) -> BlockLabel {
    if i == 0 {
        BlockLabel::Entry
    } else {
        BlockLabel::MatchNext(id, (i - 1) as usize)
    }
}

/// One arm: its blocks, its test, and in a scope of its own its bindings, its
/// guard and its body.
pub open spec fn arm_steps(id: usize, i: int, count: nat) -> Seq<Step> {
    seq![Step::Append(BlockLabel::MatchArm(id, i as usize))] + (if i + 1 < count {
        seq![Step::Append(BlockLabel::MatchNext(id, i as usize))]
    } else {
        seq![]
    }) + seq![
        Step::Enter(test_label(id, i)),
        Step::TestArm(i as usize),
        Step::Branch {
            condition: Reg::Condition,
            yes: BlockLabel::MatchArm(id, i as usize),
            no: next_label(id, i, count),
        },
        Step::Enter(BlockLabel::MatchArm(id, i as usize)),
        Step::OpenScope,
        Step::BindArm(i as usize),
        Step::GuardAndBody(i as usize),
        Step::CloseScope,
    ]
}

/// The first `n` arms.
pub open spec fn arms_steps(id: usize, n: int, count: nat) -> Seq<Step>
    decreases n,
{
    if n <= 0 {
        seq![]
    } else {
        arms_steps(id, n - 1, count) + arm_steps(id, n - 1, count)
    }
}

/// All arms, and the block behind them. Where every arm returns, that block is
/// never reached.
pub open spec fn match_steps(id: usize, count: nat, all_return: bool) -> Seq<Step> {
    seq![Step::Append(BlockLabel::MatchEnd(id))] + arms_steps(id, count as int, count) + seq![
        Step::Enter(BlockLabel::MatchEnd(id)),
    ] + (if all_return {
        seq![Step::UnreachableIfOpen]
    } else {
        seq![]
    })
}

/// Whether the body of every arm ends with a return.
pub open spec fn all_arms_return(arms: Seq<MatchArm>) -> bool {
    forall|i: int| 0 <= i < arms.len() ==> ends_with_return((#[trigger] arms[i]).body@)
}

/// An arm's guard, its body, and the way behind the match.
pub open spec fn guard_and_body(id: usize, i: int, count: nat, has_guard: bool) -> Seq<Step> {
    (if has_guard {
        seq![
            Step::Evaluate { part: Part::Guard, into: Reg::Condition },
            Step::Append(BlockLabel::MatchGuardPass(i as usize)),
            Step::Branch {
                condition: Reg::Condition,
                yes: BlockLabel::MatchGuardPass(i as usize),
                no: next_label(id, i, count),
            },
            Step::Enter(BlockLabel::MatchGuardPass(i as usize)),
        ]
    } else {
        seq![]
    }) + seq![Step::Statements(Part::Body), Step::JumpIfOpen(BlockLabel::MatchEnd(id))]
}

/// The test of a variant.
pub open spec fn variant_test(index: usize) -> (Seq<Step>, Reg) {
    (seq![Step::IsVariant { index, into: Reg::Condition }], Reg::Condition)
}

/// The test of a pattern against an enum, where `variant` is the place of the
/// variant with the pattern's name. A name that is no variant's matches
/// everything.
pub open spec fn enum_test(pattern: PatternNode, variant: Result<usize, String>) -> Result<
    (Seq<Step>, Reg),
    Seq<char>,
> {
    match pattern {
        PatternNode::EnumVariant { .. } => match variant {
            Ok(index) => Ok(variant_test(index)),
            Err(e) => Err(e@),
        },
        PatternNode::Identifier(_) => match variant {
            Ok(index) => Ok(variant_test(index)),
            Err(_) => Ok((seq![], Reg::True)),
        },
        _ => Ok((seq![], Reg::True)),
    }
}

/// A pointer to the subject, for the payloads of built-in enums.
pub open spec fn payload_access(name: Seq<char>, kind: ValueKind) -> Seq<Step> {
    if !is_builtin(name) {
        seq![]
    } else if kind == ValueKind::Pointer {
        seq![Step::Point { value: Reg::Subject, into: Reg::SubjectPointer }]
    } else {
        seq![
            Step::Allocate {
                storage: Storage::OfValue,
                name: SlotName::Own("temp_enum"),
                into: Reg::SubjectPointer,
            },
            Step::Store { value: Reg::Subject, to: Reg::SubjectPointer },
        ]
    }
}

pub open spec fn no_struct(name: Seq<char>) -> Seq<char> {
    "Enum "@ + name + " not found in type map"@
}

/// The payload type of a built-in enum's variant.
pub open spec fn builtin_payload(name: Seq<char>, variant: Seq<char>, t: TypeTerm) -> Result<
    TypeTerm,
    Seq<char>,
> {
    if name == "optional"@ {
        match t {
            TypeTerm::Optional(inner) => Ok(*inner),
            _ => Err("Type mismatch: expected Optional, got "@ + debug_of(t)),
        }
    } else if name == "result"@ {
        match t {
            TypeTerm::ResultOf(ok, err) => Ok(
                if variant == "ok"@ {
                    *ok
                } else {
                    *err
                },
            ),
            _ => Err("Type mismatch: expected Result, got "@ + debug_of(t)),
        }
    } else {
        Err("Unknown enum "@ + name)
    }
}

/// Which payload of a built-in enum is read.
pub open spec fn payload_tag(name: Seq<char>, variant: Seq<char>) -> &'static str {
    if name == "optional"@ {
        "some"
    } else if variant == "ok"@ {
        "ok"
    } else {
        "err"
    }
}

pub open spec fn data_function(name: Seq<char>) -> &'static str {
    if name == "optional"@ {
        "mux_optional_data"
    } else {
        "mux_result_data"
    }
}

/// The name that a built-in variant pattern binds its payload to.
pub open spec fn builtin_binding(variant: Seq<char>, args: Seq<PatternNode>) -> Option<Seq<char>> {
    if (variant == "some"@ || variant == "ok"@ || variant == "err"@) && args.len() > 0 {
        match args[0] {
            PatternNode::Identifier(name) => Some(name@),
            _ => None,
        }
    } else {
        None
    }
}

/// The binding of a built-in enum's payload. The bound value is owned, and
/// released when the match ends.
pub open spec fn builtin_steps(name: Seq<char>, variant: Seq<char>) -> Seq<Step> {
    seq![
        Step::Call1 {
            function: data_function(name),
            arg: Reg::SubjectPointer,
            name: "data_call",
            into: Reg::PayloadPointer(0),
        },
        Step::Extract {
            of: Reg::PayloadPointer(0),
            variant: payload_tag(name, variant),
            into: Reg::Payload(0),
        },
        Step::Box { value: Reg::Payload(0), into: Reg::Stored },
        Step::AllocateAtEntry {
            storage: Storage::Pointer,
            name: SlotName::Bound(0),
            into: Reg::Slot,
        },
        Step::Store { value: Reg::Stored, to: Reg::Slot },
        Step::Register(Reg::Stored),
    ]
}

/// How a variant holds a payload field.
#[derive(Debug, Clone, Copy, PartialEq, Eq, Structural)]
pub enum PayloadKind {
    /// A nested enum that contains itself lives behind a box.
    Boxed,
    /// Another enum lives in the variant.
    Nested,
    /// Everything else.
    Plain,
}

/// What is known of a payload field: how the variant holds it, and what the
/// analysis makes of its written type.
#[derive(Debug)]
pub struct PayloadField {
    pub kind: PayloadKind,
    pub type_: Result<Type, String>,
}

/// The binding of the payload field at a place.
pub open spec fn payload_steps(i: int, kind: PayloadKind) -> Seq<Step> {
    let n = i as usize;
    seq![
        Step::FieldPointer {
            of: Reg::EnumPointer,
            index: (i + 1) as usize,
            name: "data_ptr",
            into: Reg::PayloadPointer(n),
        },
    ] + (match kind {
        PayloadKind::Boxed => seq![
            Step::Load {
                storage: Storage::Pointer,
                from: Reg::PayloadPointer(n),
                name: "boxed_ptr",
                into: Reg::Stored,
            },
            Step::Call1 {
                function: "mux_value_unbox_enum",
                arg: Reg::Stored,
                name: "unbox_match",
                into: Reg::Outcome,
            },
            Step::Load {
                storage: Storage::OfField(n),
                from: Reg::Outcome,
                name: "unboxed",
                into: Reg::Payload(n),
            },
            Step::Allocate {
                storage: Storage::OfField(n),
                name: SlotName::Bound(n),
                into: Reg::Slot,
            },
            Step::Store { value: Reg::Payload(n), to: Reg::Slot },
        ],
        PayloadKind::Nested => seq![
            Step::Load {
                storage: Storage::OfField(n),
                from: Reg::PayloadPointer(n),
                name: "data",
                into: Reg::Payload(n),
            },
            Step::Allocate {
                storage: Storage::OfField(n),
                name: SlotName::Bound(n),
                into: Reg::Slot,
            },
            Step::Store { value: Reg::Payload(n), to: Reg::Slot },
        ],
        PayloadKind::Plain => seq![
            Step::Load {
                storage: Storage::OfField(n),
                from: Reg::PayloadPointer(n),
                name: "data",
                into: Reg::Payload(n),
            },
            Step::Box { value: Reg::Payload(n), into: Reg::Stored },
            Step::Allocate {
                storage: Storage::Pointer,
                name: SlotName::Bound(n),
                into: Reg::Slot,
            },
            Step::Store { value: Reg::Stored, to: Reg::Slot },
        ],
    })
}

pub open spec fn no_field(
    index: int,
    enum_name: Seq<char>,
    variant: Seq<char>,
    count: nat,
) -> Seq<char> {
    "Field index "@ + decimal(index as nat) + " out of bounds for enum variant "@ + enum_name
        + "."@ + variant + " (has "@ + decimal(count) + " fields)"@
}

impl CodeGenerator {
    /// The name of the enum that a match is on: what the subject says, or else
    /// its type.
    pub open spec fn match_enum(&self, e: ExpressionNode, t: TypeTerm) -> Named {
        match self.subject_enum(e.tree()) {
            Ok(n) => Ok(n),
            Err(_) => match enum_of(t) {
                Some(n) => Ok(n),
                None => Err("Match expression must be an enum type"@),
            },
        }
    }

    pub open spec fn has_struct(&self, name: Seq<char>) -> bool {
        names_of(self.type_map@).contains(name)
    }

    /// The instance that a match on a type calls for.
    pub open spec fn match_instances(&self, t: TypeTerm) -> Seq<Seq<char>> {
        match t {
            TypeTerm::Named(base, args) => one_instance(base, args),
            _ => seq![],
        }
    }

    /// The structs that there are once a match's instance is made.
    pub open spec fn match_structs(&self, t: TypeTerm) -> Seq<Seq<char>> {
        with_names(names_of(self.type_map@), self.match_instances(t))
    }

    /// A boxed enum as its struct, where `structs` are the structs that there
    /// are.
    pub open spec fn unboxed(&self, structs: Seq<Seq<char>>, name: Seq<char>) -> Planned {
        if structs.contains(name) {
            Ok(
                seq![
                    Step::Call1 {
                        function: "mux_value_unbox_enum",
                        arg: Reg::Subject,
                        name: "unbox_subject",
                        into: Reg::SubjectPointer,
                    },
                    Step::Load {
                        storage: Storage::OfEnum,
                        from: Reg::SubjectPointer,
                        name: "unboxed_subject",
                        into: Reg::Subject,
                    },
                ],
            )
        } else {
            Err(no_struct(name))
        }
    }

    /// A pointer to the subject's struct.
    pub open spec fn struct_access(
        &self,
        structs: Seq<Seq<char>>,
        name: Seq<char>,
        kind: ValueKind,
    ) -> Planned {
        if kind == ValueKind::Pointer {
            Ok(seq![Step::Point { value: Reg::Subject, into: Reg::EnumPointer }])
        } else if structs.contains(name) {
            Ok(
                seq![
                    Step::Allocate {
                        storage: Storage::OfEnum,
                        name: SlotName::Own("temp_enum_struct"),
                        into: Reg::EnumPointer,
                    },
                    Step::Store { value: Reg::Subject, to: Reg::EnumPointer },
                ],
            )
        } else {
            Err(no_struct(name))
        }
    }

    /// What a match on an enum does in front of its arms.
    pub open spec fn enum_opening(&self, name: Seq<char>, t: TypeTerm, kind: ValueKind) -> Planned {
        let structs = self.match_structs(t);
        let instance = instance_steps(self.match_instances(t));
        let boxed = !is_builtin(name) && kind == ValueKind::Pointer;
        let inner = if boxed {
            ValueKind::Struct
        } else {
            kind
        };
        let subject = if boxed {
            self.unboxed(structs, name)
        } else {
            Ok(seq![])
        };
        match subject {
            Err(e) => Err(e),
            Ok(unbox) => match self.struct_access(structs, name, inner) {
                Err(e) => Err(e),
                Ok(access) => Ok(
                    instance + unbox + payload_access(name, inner) + seq![
                        Step::LoadDiscriminant { of: Reg::Subject, into: Reg::Discriminant },
                    ] + access,
                ),
            },
        }
    }

    /// The bindings of a built-in enum's variant.
    pub open spec fn builtin_bindings(
        &self,
        name: Seq<char>,
        variant: Seq<char>,
        args: Seq<PatternNode>,
        t: TypeTerm,
    ) -> Planned {
        if builtin_binding(variant, args) is None {
            Ok(seq![])
        } else {
            match builtin_payload(name, variant, t) {
                Err(e) => Err(e),
                Ok(_) => Ok(builtin_steps(name, variant)),
            }
        }
    }

    /// Whether following the parameters that payload fields name comes to an
    /// end.
    pub open spec fn fields_settle(&self, fields: Seq<EnumVariantField>) -> bool {
        forall|i: int|
            0 <= i < fields.len() ==> kind_settles(
                self.params(),
                (#[trigger] fields[i]).type_.tree().kind,
            )
    }

    /// Why a payload field cannot be bound.
    pub open spec fn field_fault(
        &self,
        enum_name: Seq<char>,
        variant: Seq<char>,
        fields: Seq<EnumVariantField>,
        i: int,
    ) -> Option<Seq<char>> {
        if i >= fields.len() {
            Some(no_field(i, enum_name, variant, fields.len()))
        } else {
            match declared_slot(
                self.params(),
                class_names(self.classes@),
                names_of(self.enum_variants@),
                names_of(self.type_map@),
                fields[i].type_.tree().kind,
            ) {
                Err(e) => Some(e),
                Ok(_) => None,
            }
        }
    }

    /// The bindings of the arguments from `i` on that are names.
    pub open spec fn payload_bindings(
        &self,
        enum_name: Seq<char>,
        variant: Seq<char>,
        fields: Seq<EnumVariantField>,
        payloads: Seq<PayloadField>,
        args: Seq<PatternNode>,
        i: int,
        done: Seq<Step>,
    ) -> Planned
        decreases args.len() - i,
    {
        if i < 0 || i >= args.len() {
            Ok(done)
        } else if args[i] is Identifier {
            match self.field_fault(enum_name, variant, fields, i) {
                Some(e) => Err(e),
                None => match resolved(payloads[i].type_) {
                    Err(e) => Err(e),
                    Ok(_) => self.payload_bindings(
                        enum_name,
                        variant,
                        fields,
                        payloads,
                        args,
                        i + 1,
                        done + payload_steps(i, payloads[i].kind),
                    ),
                },
            }
        } else {
            self.payload_bindings(enum_name, variant, fields, payloads, args, i + 1, done)
        }
    }

    /// The first argument from `i` on that is a name and cannot be bound, or
    /// how many arguments there are.
    pub open spec fn first_unbound(
        &self,
        enum_name: Seq<char>,
        variant: Seq<char>,
        fields: Seq<EnumVariantField>,
        payloads: Seq<PayloadField>,
        args: Seq<PatternNode>,
        i: int,
    ) -> int
        decreases args.len() - i,
    {
        if i < 0 || i >= args.len() {
            args.len() as int
        } else if args[i] is Identifier && (self.field_fault(enum_name, variant, fields, i) is Some
            || payloads[i].type_ is Err) {
            i
        } else {
            self.first_unbound(enum_name, variant, fields, payloads, args, i + 1)
        }
    }

    /// The scopes with the payload fields of a declared enum's variant bound: up
    /// to the first that cannot be.
    pub open spec fn with_custom(
        &self,
        scopes: Seq<Bindings>,
        enum_name: Seq<char>,
        variant: Seq<char>,
        payloads: Seq<PayloadField>,
        args: Seq<PatternNode>,
    ) -> Seq<Bindings> {
        match self.payload_fields(enum_name, variant) {
            Ok(fields) => if self.has_struct(enum_name) {
                with_payloads(
                    scopes,
                    payloads,
                    args,
                    self.first_unbound(enum_name, variant, fields, payloads, args, 0),
                )
            } else {
                scopes
            },
            Err(_) => scopes,
        }
    }

    /// The payload fields of a variant, or why there are none.
    pub open spec fn payload_fields(&self, enum_name: Seq<char>, variant: Seq<char>) -> Result<
        Seq<EnumVariantField>,
        Seq<char>,
    > {
        match enum_at(self.enum_variant_fields@, enum_name) {
            None => Err("No field information found for enum "@ + enum_name),
            Some(e) => match variant_at(e.variants@, variant) {
                None => Err("Variant "@ + variant + " not found in enum "@ + enum_name),
                Some(v) => Ok(v.fields@),
            },
        }
    }

    /// The bindings of a declared enum's variant.
    pub open spec fn custom_bindings(
        &self,
        enum_name: Seq<char>,
        variant: Seq<char>,
        payloads: Seq<PayloadField>,
        args: Seq<PatternNode>,
    ) -> Planned {
        if !self.has_struct(enum_name) {
            Err(no_struct(enum_name))
        } else {
            match self.payload_fields(enum_name, variant) {
                Err(e) => Err(e),
                Ok(fields) => self.payload_bindings(
                    enum_name,
                    variant,
                    fields,
                    payloads,
                    args,
                    0,
                    seq![],
                ),
            }
        }
    }
}

fn next_of(id: usize, i: usize, count: usize) -> (r: BlockLabel)
    requires
        i < count,
    ensures
        r == next_label(id, i as int, count as nat),
{
    if i + 1 < count {
        BlockLabel::MatchNext(id, i)
    } else {
        BlockLabel::MatchEnd(id)
    }
}

fn push_arm(out: &mut Vec<Step>, id: usize, i: usize, count: usize)
    requires
        i < count,
    ensures
        final(out)@ == old(out)@ + arm_steps(id, i as int, count as nat),
{
    out.push(Step::Append(BlockLabel::MatchArm(id, i)));
    if i + 1 < count {
        out.push(Step::Append(BlockLabel::MatchNext(id, i)));
    }
    out.push(
        Step::Enter(
            if i == 0 {
                BlockLabel::Entry
            } else {
                BlockLabel::MatchNext(id, i - 1)
            },
        ),
    );
    out.push(Step::TestArm(i));
    out.push(
        Step::Branch {
            condition: Reg::Condition,
            yes: BlockLabel::MatchArm(id, i),
            no: next_of(id, i, count),
        },
    );
    out.push(Step::Enter(BlockLabel::MatchArm(id, i)));
    out.push(Step::OpenScope);
    out.push(Step::BindArm(i));
    out.push(Step::GuardAndBody(i));
    out.push(Step::CloseScope);
    assert(out@ =~= old(out)@ + arm_steps(id, i as int, count as nat));
}

fn push_match(out: &mut Vec<Step>, id: usize, arms: &Vec<MatchArm>)
    ensures
        final(out)@ == old(out)@ + match_steps(id, arms@.len(), all_arms_return(arms@)),
{
    let ghost start = old(out)@ + seq![Step::Append(BlockLabel::MatchEnd(id))];
    out.push(Step::Append(BlockLabel::MatchEnd(id)));
    let count: usize = arms.len();
    let mut all = true;
    let mut i: usize = 0;
    assert(out@ =~= start + arms_steps(id, 0, count as nat));
    while i < count
        invariant
            i <= count == arms@.len(),
            out@ == start + arms_steps(id, i as int, count as nat),
            all == (forall|j: int| 0 <= j < i ==> ends_with_return((#[trigger] arms@[j]).body@)),
        decreases count - i,
    {
        let ghost before = out@;
        push_arm(out, id, i, count);
        assert(out@ =~= start + arms_steps(id, i + 1, count as nat)) by {
            assert(arms_steps(id, i + 1, count as nat) == arms_steps(id, i as int, count as nat)
                + arm_steps(id, i as int, count as nat));
        }
        if !block_returns(&arms[i].body) {
            assert(!ends_with_return(arms@[i as int].body@));
            all = false;
        }
        i += 1;
    }
    out.push(Step::Enter(BlockLabel::MatchEnd(id)));
    if all {
        out.push(Step::UnreachableIfOpen);
    }
    assert(all == all_arms_return(arms@));
    assert(out@ =~= old(out)@ + match_steps(id, arms@.len(), all_arms_return(arms@)));
}

fn missing_struct(name: &str) -> (r: String)
    ensures
        r@ == no_struct(name@),
{
    let mut out = cat("Enum ", name);
    out.append(" not found in type map");
    out
}

fn push_payload(out: &mut Vec<Step>, i: usize, kind: PayloadKind)
    requires
        i < usize::MAX,
    ensures
        final(out)@ == old(out)@ + payload_steps(i as int, kind),
{
    out.push(
        Step::FieldPointer {
            of: Reg::EnumPointer,
            index: i + 1,
            name: "data_ptr",
            into: Reg::PayloadPointer(i),
        },
    );
    match kind {
        PayloadKind::Boxed => {
            bind_boxed_recursive_payload(out, i);
        },
        PayloadKind::Nested => {
            out.push(
                Step::Load {
                    storage: Storage::OfField(i),
                    from: Reg::PayloadPointer(i),
                    name: "data",
                    into: Reg::Payload(i),
                },
            );
            out.push(
                Step::Allocate {
                    storage: Storage::OfField(i),
                    name: SlotName::Bound(i),
                    into: Reg::Slot,
                },
            );
            out.push(Step::Store { value: Reg::Payload(i), to: Reg::Slot });
        },
        PayloadKind::Plain => {
            out.push(
                Step::Load {
                    storage: Storage::OfField(i),
                    from: Reg::PayloadPointer(i),
                    name: "data",
                    into: Reg::Payload(i),
                },
            );
            out.push(Step::Box { value: Reg::Payload(i), into: Reg::Stored });
            out.push(
                Step::Allocate {
                    storage: Storage::Pointer,
                    name: SlotName::Bound(i),
                    into: Reg::Slot,
                },
            );
            out.push(Step::Store { value: Reg::Stored, to: Reg::Slot });
        },
    }
    assert(out@ =~= old(out)@ + payload_steps(i as int, kind));
}

/// Binds a nested enum behind a box. The binding is a borrow: the matched enum
/// still owns the box.
fn bind_boxed_recursive_payload(out: &mut Vec<Step>, i: usize)
    ensures
        final(out)@ == old(out)@ + payload_steps(i as int, PayloadKind::Boxed).drop_first(),
{
    out.push(
        Step::Load {
            storage: Storage::Pointer,
            from: Reg::PayloadPointer(i),
            name: "boxed_ptr",
            into: Reg::Stored,
        },
    );
    out.push(
        Step::Call1 {
            function: "mux_value_unbox_enum",
            arg: Reg::Stored,
            name: "unbox_match",
            into: Reg::Outcome,
        },
    );
    out.push(
        Step::Load {
            storage: Storage::OfField(i),
            from: Reg::Outcome,
            name: "unboxed",
            into: Reg::Payload(i),
        },
    );
    out.push(
        Step::Allocate { storage: Storage::OfField(i), name: SlotName::Bound(i), into: Reg::Slot },
    );
    out.push(Step::Store { value: Reg::Payload(i), to: Reg::Slot });
    assert(out@ =~= old(out)@ + payload_steps(i as int, PayloadKind::Boxed).drop_first());
}

impl CodeGenerator {
    /// The guard and the body of an arm.
    pub fn emit_match_guard_and_body(&self, id: usize, i: usize, count: usize, has_guard: bool) -> (r:
        Vec<Step>)
        requires
            i < count,
        ensures
            r@ == guard_and_body(id, i as int, count as nat, has_guard),
    {
        let mut out: Vec<Step> = Vec::new();
        if has_guard {
            out.push(Step::Evaluate { part: Part::Guard, into: Reg::Condition });
            out.push(Step::Append(BlockLabel::MatchGuardPass(i)));
            out.push(
                Step::Branch {
                    condition: Reg::Condition,
                    yes: BlockLabel::MatchGuardPass(i),
                    no: next_of(id, i, count),
                },
            );
            out.push(Step::Enter(BlockLabel::MatchGuardPass(i)));
        }
        out.push(Step::Statements(Part::Body));
        out.push(Step::JumpIfOpen(BlockLabel::MatchEnd(id)));
        assert(out@ =~= guard_and_body(id, i as int, count as nat, has_guard));
        out
    }

    /// A match that compares values.
    pub fn generate_switch_match(&mut self, arms: &Vec<MatchArm>) -> (r: Vec<Step>)
        requires
            old(self).label_counter < usize::MAX,
        ensures
            r@ == match_steps(old(self).label_counter, arms@.len(), all_arms_return(arms@)),
            *final(self) == (CodeGenerator {
                label_counter: (old(self).label_counter + 1) as usize,
                ..*old(self)
            }),
    {
        let id: usize = self.label_counter;
        self.label_counter = id + 1;
        let mut out: Vec<Step> = Vec::new();
        push_match(&mut out, id, arms);
        assert(out@ =~= match_steps(id, arms@.len(), all_arms_return(arms@)));
        out
    }

    /// The enum that a match is on.
    pub fn enum_of_match(&self, match_expr: &ExpressionNode, match_type: &Type) -> (r: Result<
        String,
        String,
    >)
        ensures
            named(r) == self.match_enum(*match_expr, match_type.term()),
    {
        match self.resolve_enum_match_name(match_expr) {
            Ok(n) => Ok(n),
            Err(_) => self.enum_name_from_type(match_type, "Match expression must be an enum type"),
        }
    }

    /// A boxed enum as its struct.
    pub fn unbox_enum_subject_value(&self, enum_name: &str) -> (r: Result<Vec<Step>, String>)
        ensures
            planned(r) == self.unboxed(names_of(self.type_map@), enum_name@),
    {
        if !has_name(&self.type_map, enum_name) {
            return Err(missing_struct(enum_name));
        }
        let mut out: Vec<Step> = Vec::new();
        out.push(
            Step::Call1 {
                function: "mux_value_unbox_enum",
                arg: Reg::Subject,
                name: "unbox_subject",
                into: Reg::SubjectPointer,
            },
        );
        out.push(
            Step::Load {
                storage: Storage::OfEnum,
                from: Reg::SubjectPointer,
                name: "unboxed_subject",
                into: Reg::Subject,
            },
        );
        assert(out@ =~= self.unboxed(names_of(self.type_map@), enum_name@)->Ok_0);
        Ok(out)
    }

    /// A pointer to the subject, for the payloads of built-in enums.
    pub fn enum_expr_ptr_for_payload_access(&self, enum_name: &str, kind: ValueKind) -> (r: Vec<
        Step,
    >)
        requires
            is_builtin(enum_name@) ==> holds_enum(kind),
        ensures
            r@ == payload_access(enum_name@, kind),
    {
        let mut out: Vec<Step> = Vec::new();
        if names_builtin(enum_name) {
            if kind == ValueKind::Pointer {
                out.push(Step::Point { value: Reg::Subject, into: Reg::SubjectPointer });
            } else {
                out.push(
                    Step::Allocate {
                        storage: Storage::OfValue,
                        name: SlotName::Own("temp_enum"),
                        into: Reg::SubjectPointer,
                    },
                );
                out.push(Step::Store { value: Reg::Subject, to: Reg::SubjectPointer });
            }
        }
        assert(out@ =~= payload_access(enum_name@, kind));
        out
    }

    /// A pointer to the subject's struct.
    pub fn enum_temp_struct_ptr(&self, enum_name: &str, kind: ValueKind) -> (r: Result<
        Vec<Step>,
        String,
    >)
        ensures
            planned(r) == self.struct_access(names_of(self.type_map@), enum_name@, kind),
    {
        let mut out: Vec<Step> = Vec::new();
        if kind == ValueKind::Pointer {
            out.push(Step::Point { value: Reg::Subject, into: Reg::EnumPointer });
            assert(out@ =~= self.struct_access(names_of(self.type_map@), enum_name@, kind)->Ok_0);
            return Ok(out);
        }
        if !has_name(&self.type_map, enum_name) {
            return Err(missing_struct(enum_name));
        }
        out.push(
            Step::Allocate {
                storage: Storage::OfEnum,
                name: SlotName::Own("temp_enum_struct"),
                into: Reg::EnumPointer,
            },
        );
        out.push(Step::Store { value: Reg::Subject, to: Reg::EnumPointer });
        assert(out@ =~= self.struct_access(names_of(self.type_map@), enum_name@, kind)->Ok_0);
        Ok(out)
    }

    /// A match on an enum, by the subject's discriminant. `kind` is the kind of
    /// the subject's value: a declared enum that arrives as a pointer is boxed.
    pub fn generate_enum_match(
        &mut self,
        match_expr: &ExpressionNode,
        match_type: &Type,
        kind: ValueKind,
        arms: &Vec<MatchArm>,
    ) -> (r: Result<Vec<Step>, String>)
        requires
            old(self).label_counter < usize::MAX,
            old(self).match_enum(*match_expr, match_type.term()) matches Ok(name) && is_builtin(name)
                ==> holds_enum(kind),
        ensures
            match old(self).match_enum(*match_expr, match_type.term()) {
                Err(e) => r matches Err(message) && message@ == e && *final(self) == *old(self),
                Ok(name) => match old(self).enum_opening(name, match_type.term(), kind) {
                    Err(e) => {
                        &&& r matches Err(message) && message@ == e
                        &&& names_of(final(self).type_map@) == old(self).match_structs(
                            match_type.term(),
                        )
                        &&& *final(self) == (CodeGenerator {
                            type_map: final(self).type_map,
                            ..*old(self)
                        })
                    },
                    Ok(opening) => {
                        &&& r matches Ok(steps) && steps@ == opening + match_steps(
                            old(self).label_counter,
                            arms@.len(),
                            all_arms_return(arms@),
                        )
                        &&& names_of(final(self).type_map@) == old(self).match_structs(
                            match_type.term(),
                        )
                        &&& *final(self) == (CodeGenerator {
                            label_counter: (old(self).label_counter + 1) as usize,
                            type_map: final(self).type_map,
                            ..*old(self)
                        })
                    },
                },
            },
    {
        let name = match self.enum_of_match(match_expr, match_type) {
            Ok(name) => name,
            Err(e) => {
                return Err(e);
            },
        };
        let mut out: Vec<Step> = Vec::new();
        proof {
            type_variant(*match_type);
        }
        match match_type {
            Type::Named(base, args) => {
                assert(*match_type == Type::Named(*base, *args));
                out = self.ensure_enum_instantiated(base.as_str(), args);
            },
            _ => {},
        }
        assert(names_of(self.type_map@) == old(self).match_structs(match_type.term()));
        let ghost instance = out@;
        let boxed = !names_builtin(name.as_str()) && kind == ValueKind::Pointer;
        let ghost mut unbox: Seq<Step> = seq![];
        let inner = if boxed {
            match self.unbox_enum_subject_value(name.as_str()) {
                Ok(steps) => {
                    let mut steps = steps;
                    proof {
                        unbox = steps@;
                    }
                    out.append(&mut steps);
                },
                Err(e) => {
                    return Err(e);
                },
            }
            ValueKind::Struct
        } else {
            kind
        };
        assert(out@ =~= instance + unbox);
        let mut access = self.enum_expr_ptr_for_payload_access(name.as_str(), inner);
        out.append(&mut access);
        out.push(Step::LoadDiscriminant { of: Reg::Subject, into: Reg::Discriminant });
        let ghost mut last: Seq<Step> = seq![];
        match self.enum_temp_struct_ptr(name.as_str(), inner) {
            Ok(steps) => {
                let mut steps = steps;
                proof {
                    last = steps@;
                }
                out.append(&mut steps);
            },
            Err(e) => {
                return Err(e);
            },
        }
        assert(instance =~= instance_steps(old(self).match_instances(match_type.term())));
        assert(out@ =~= instance + unbox + payload_access(name@, inner) + seq![
            Step::LoadDiscriminant { of: Reg::Subject, into: Reg::Discriminant },
        ] + last);
        let id: usize = self.label_counter;
        self.label_counter = id + 1;
        push_match(&mut out, id, arms);
        Ok(out)
    }

    /// The test of a pattern against an enum, where `variant` is the place of
    /// the variant with the pattern's name.
    pub fn enum_pattern_matches(&self, pattern: &PatternNode, variant: Result<usize, String>) -> (r:
        Result<PatternTest, String>)
        ensures
            tested(r) == enum_test(*pattern, variant),
    {
        let mut out: Vec<Step> = Vec::new();
        let index: usize = match pattern {
            PatternNode::EnumVariant { .. } => match variant {
                Ok(index) => index,
                Err(e) => {
                    return Err(e);
                },
            },
            PatternNode::Identifier(_) => match variant {
                Ok(index) => index,
                Err(_) => {
                    assert(out@ =~= seq![]);
                    return Ok(PatternTest { steps: out, condition: Reg::True });
                },
            },
            PatternNode::Literal(_) | PatternNode::Wildcard | PatternNode::List { .. } => {
                assert(out@ =~= seq![]);
                return Ok(PatternTest { steps: out, condition: Reg::True });
            },
        };
        out.push(Step::IsVariant { index, into: Reg::Condition });
        assert(out@ =~= variant_test(index).0);
        Ok(PatternTest { steps: out, condition: Reg::Condition })
    }

    /// The payload type of a built-in enum's variant.
    pub fn extract_builtin_enum_variant_value(
        &self,
        enum_name: &str,
        variant_name: &str,
        match_type: &Type,
    ) -> (r: Result<Type, String>)
        ensures
            resolved(r) == builtin_payload(enum_name@, variant_name@, match_type.term()),
    {
        if same(enum_name, "optional") {
            return self.extract_optional_variant_value(match_type);
        }
        if same(enum_name, "result") {
            return self.extract_result_variant_value(variant_name, match_type);
        }
        Err(cat("Unknown enum ", enum_name))
    }

    fn extract_optional_variant_value(&self, match_type: &Type) -> (r: Result<Type, String>)
        ensures
            resolved(r) == builtin_payload("optional"@, seq![], match_type.term()),
    {
        proof {
            type_variant(*match_type);
        }
        match match_type {
            Type::Optional(inner) => {
                assert(*match_type == Type::Optional(*inner));
                Ok(inner.copy())
            },
            _ => Err(
                cat(
                    "Type mismatch: expected Optional, got ",
                    debug_text(match_type).as_str(),
                ),
            ),
        }
    }

    fn extract_result_variant_value(&self, variant_name: &str, match_type: &Type) -> (r: Result<
        Type,
        String,
    >)
        ensures
            resolved(r) == builtin_payload("result"@, variant_name@, match_type.term()),
    {
        proof {
            reveal_strlit("optional");
            reveal_strlit("result");
            assert("result"@.len() != "optional"@.len());
            type_variant(*match_type);
        }
        match match_type {
            Type::ResultOf(ok, err) => {
                assert(*match_type == Type::ResultOf(*ok, *err));
                if same(variant_name, "ok") {
                    Ok(ok.copy())
                } else {
                    Ok(err.copy())
                }
            },
            _ => Err(
                cat(
                    "Type mismatch: expected Result, got ",
                    debug_text(match_type).as_str(),
                ),
            ),
        }
    }

    /// Binds the payload of a built-in enum's variant.
    pub fn bind_builtin_enum_variant_args(
        &mut self,
        enum_name: &str,
        variant_name: &str,
        args: &Vec<PatternNode>,
        match_type: &Type,
    ) -> (r: Result<Vec<Step>, String>)
        requires
            old(self).variables@.len() > 0,
        ensures
            planned(r) == old(self).builtin_bindings(
                enum_name@,
                variant_name@,
                args@,
                match_type.term(),
            ),
            scopes_of(final(self).variables@) == (match (
                builtin_binding(variant_name@, args@),
                builtin_payload(enum_name@, variant_name@, match_type.term()),
            ) {
                (Some(name), Ok(t)) => bound(scopes_of(old(self).variables@), name, t),
                _ => scopes_of(old(self).variables@),
            }),
            *final(self) == (CodeGenerator { variables: final(self).variables, ..*old(self) }),
    {
        let mut out: Vec<Step> = Vec::new();
        assert(out@ =~= seq![]);
        if !(same(variant_name, "some") || same(variant_name, "ok") || same(variant_name, "err"))
            || args.len() == 0 {
            return Ok(out);
        }
        let var = match &args[0] {
            PatternNode::Identifier(var) => var,
            _ => {
                return Ok(out);
            },
        };
        let function = match self.enum_data_function_name(enum_name) {
            Ok(f) => f,
            Err(e) => {
                return Err(e);
            },
        };
        let payload = match self.extract_builtin_enum_variant_value(
            enum_name,
            variant_name,
            match_type,
        ) {
            Ok(t) => t,
            Err(e) => {
                return Err(e);
            },
        };
        let variant = if same(enum_name, "optional") {
            "some"
        } else if same(variant_name, "ok") {
            "ok"
        } else {
            "err"
        };
        out.push(
            Step::Call1 {
                function,
                arg: Reg::SubjectPointer,
                name: "data_call",
                into: Reg::PayloadPointer(0),
            },
        );
        out.push(Step::Extract { of: Reg::PayloadPointer(0), variant, into: Reg::Payload(0) });
        out.push(Step::Box { value: Reg::Payload(0), into: Reg::Stored });
        out.push(
            Step::AllocateAtEntry {
                storage: Storage::Pointer,
                name: SlotName::Bound(0),
                into: Reg::Slot,
            },
        );
        out.push(Step::Store { value: Reg::Stored, to: Reg::Slot });
        out.push(Step::Register(Reg::Stored));
        assert(out@ =~= builtin_steps(enum_name@, variant_name@));
        self.bind(var.as_str(), payload);
        Ok(out)
    }

    /// Whether a payload field can be bound.
    pub fn variant_field_llvm_type(
        &self,
        enum_name: &str,
        variant_name: &str,
        fields: &Vec<EnumVariantField>,
        index: usize,
    ) -> (r: Result<crate::codegen::layout::Slot, String>)
        requires
            index < fields@.len() ==> kind_settles(
                self.params(),
                fields@[index as int].type_.tree().kind,
            ),
        ensures
            match r {
                Ok(slot) => {
                    &&& self.field_fault(enum_name@, variant_name@, fields@, index as int) is None
                    &&& declared_slot(
                        self.params(),
                        class_names(self.classes@),
                        names_of(self.enum_variants@),
                        names_of(self.type_map@),
                        fields@[index as int].type_.tree().kind,
                    ) == Ok::<SlotModel, Seq<char>>(slot@)
                },
                Err(e) => self.field_fault(enum_name@, variant_name@, fields@, index as int)
                    == Some(e@),
            },
    {
        if index >= fields.len() {
            let mut out = cat("Field index ", decimal_string(index).as_str());
            out.append(" out of bounds for enum variant ");
            out.append(enum_name);
            out.append(".");
            out.append(variant_name);
            out.append(" (has ");
            out.append(decimal_string(fields.len()).as_str());
            out.append(" fields)");
            return Err(out);
        }
        self.llvm_type_from_mux_type(&fields[index].type_)
    }

    /// The steps and the bindings for the payload fields of a declared enum's
    /// variant. `payloads` says what is known of each of its fields. The names in
    /// front of one that cannot be bound are among the bindings.
    fn payload_plan(
        &self,
        enum_name: &str,
        variant_name: &str,
        fields: &Vec<EnumVariantField>,
        payloads: &Vec<PayloadField>,
        args: &Vec<PatternNode>,
    ) -> (r: (Result<Vec<Step>, String>, Vec<Binding>))
        requires
            self.fields_settle(fields@),
            payloads@.len() == fields@.len(),
        ensures
            planned(r.0) == self.payload_bindings(
                enum_name@,
                variant_name@,
                fields@,
                payloads@,
                args@,
                0,
                seq![],
            ),
            forall|scopes: Seq<Bindings>| #[trigger]
                with_all(scopes, bindings_of(r.1@)) == with_payloads(
                    scopes,
                    payloads@,
                    args@,
                    self.first_unbound(
                        enum_name@,
                        variant_name@,
                        fields@,
                        payloads@,
                        args@,
                        0,
                    ),
                ),
    {
        let mut out: Vec<Step> = Vec::new();
        let mut names: Vec<Binding> = Vec::new();
        let mut i: usize = 0;
        proof {
            reveal(bindings_of);
            assert(out@ =~= seq![]);
            assert(bindings_of(names@) =~= seq![]);
        }
        while i < args.len()
            invariant
                i <= args@.len(),
                self.fields_settle(fields@),
                payloads@.len() == fields@.len(),
                forall|scopes: Seq<Bindings>| #[trigger]
                    with_all(scopes, bindings_of(names@)) == with_payloads(
                        scopes,
                        payloads@,
                        args@,
                        i as int,
                    ),
                self.first_unbound(enum_name@, variant_name@, fields@, payloads@, args@, 0)
                    == self.first_unbound(
                    enum_name@,
                    variant_name@,
                    fields@,
                    payloads@,
                    args@,
                    i as int,
                ),
                self.payload_bindings(
                    enum_name@,
                    variant_name@,
                    fields@,
                    payloads@,
                    args@,
                    0,
                    seq![],
                ) == self.payload_bindings(
                    enum_name@,
                    variant_name@,
                    fields@,
                    payloads@,
                    args@,
                    i as int,
                    out@,
                ),
            decreases args@.len() - i,
        {
            let ghost before = bindings_of(names@);
            match &args[i] {
                PatternNode::Identifier(var) => {
                    match self.variant_field_llvm_type(enum_name, variant_name, fields, i) {
                        Ok(_) => {},
                        Err(e) => {
                            return (Err(e), names);
                        },
                    }
                    let t = match self.variant_field_resolved_type(
                        enum_name,
                        variant_name,
                        fields,
                        i,
                        &payloads[i].type_,
                    ) {
                        Ok(t) => t,
                        Err(e) => {
                            return (Err(e), names);
                        },
                    };
                    push_payload(&mut out, i, payloads[i].kind);
                    let ghost entry = (var@, t.term());
                    names.push(Binding { name: var.clone(), type_: t });
                    proof {
                        reveal(bindings_of);
                        assert(bindings_of(names@) =~= before.push(entry));
                        assert(before.push(entry).drop_last() =~= before);
                    }
                },
                _ => {},
            }
            assert forall|scopes: Seq<Bindings>| #[trigger]
                with_all(scopes, bindings_of(names@)) == with_payloads(
                    scopes,
                    payloads@,
                    args@,
                    i + 1,
                ) by {
                assert(with_all(scopes, before) == with_payloads(
                    scopes,
                    payloads@,
                    args@,
                    i as int,
                ));
            }
            i += 1;
        }
        (Ok(out), names)
    }

    /// Binds names in the innermost scope, one after the other.
    pub fn bind_all(&mut self, names: Vec<Binding>)
        requires
            old(self).variables@.len() > 0,
        ensures
            scopes_of(final(self).variables@) == with_all(
                scopes_of(old(self).variables@),
                bindings_of(names@),
            ),
            *final(self) == (CodeGenerator { variables: final(self).variables, ..*old(self) }),
    {
        let ghost all = bindings_of(names@);
        let mut i: usize = 0;
        proof {
            reveal(bindings_of);
            assert(all.take(0) =~= seq![]);
        }
        while i < names.len()
            invariant
                i <= names@.len(),
                all == bindings_of(names@),
                all.len() == names@.len(),
                self.variables@.len() > 0,
                scopes_of(self.variables@) == with_all(
                    scopes_of(old(self).variables@),
                    all.take(i as int),
                ),
                *self == (CodeGenerator { variables: self.variables, ..*old(self) }),
            decreases names@.len() - i,
        {
            proof {
                reveal(bindings_of);
                assert(all.take(i + 1).drop_last() =~= all.take(i as int));
                assert(all.take(i + 1).last() == all[i as int]);
            }
            self.bind(names[i].name.as_str(), names[i].type_.copy());
            assert(scopes_of(self.variables@).len() == self.variables@.len());
            i += 1;
        }
        assert(all.take(i as int) =~= all);
    }

    /// Binds the payload fields of a declared enum's variant. `payloads`
    /// says what is known of each field. Where one cannot be bound, those in
    /// front of it are.
    pub fn bind_custom_enum_variant_args(
        &mut self,
        enum_name: &str,
        variant_name: &str,
        payloads: &Vec<PayloadField>,
        args: &Vec<PatternNode>,
    ) -> (r: Result<Vec<Step>, String>)
        requires
            old(self).variables@.len() > 0,
            old(self).payload_fields(enum_name@, variant_name@) matches Ok(fields) ==> payloads@.len()
                == fields.len() && old(self).fields_settle(fields),
        ensures
            planned(r) == old(self).custom_bindings(enum_name@, variant_name@, payloads@, args@),
            scopes_of(final(self).variables@) == old(self).with_custom(
                scopes_of(old(self).variables@),
                enum_name@,
                variant_name@,
                payloads@,
                args@,
            ),
            *final(self) == (CodeGenerator { variables: final(self).variables, ..*old(self) }),
    {
        if !has_name(&self.type_map, enum_name) {
            return Err(missing_struct(enum_name));
        }
        let plan = match self.variant_field_types(enum_name, variant_name) {
            Ok(fields) => self.payload_plan(enum_name, variant_name, fields, payloads, args),
            Err(e) => {
                return Err(e);
            },
        };
        let (steps, names) = plan;
        self.bind_all(names);
        steps
    }
}

impl CodeGenerator {
    /// The bindings of an arm of a match on an enum.
    pub open spec fn arm_bindings(
        &self,
        pattern: PatternNode,
        enum_name: Seq<char>,
        t: TypeTerm,
        payloads: Seq<PayloadField>,
    ) -> Planned {
        match pattern {
            PatternNode::EnumVariant { name, args } => if is_builtin(enum_name) {
                self.builtin_bindings(enum_name, name@, args@, t)
            } else {
                self.custom_bindings(enum_name, name@, payloads, args@)
            },
            _ => Ok(seq![]),
        }
    }

    /// The scopes with the names of an arm bound.
    pub open spec fn with_arm(
        &self,
        scopes: Seq<Bindings>,
        pattern: PatternNode,
        enum_name: Seq<char>,
        t: TypeTerm,
        payloads: Seq<PayloadField>,
    ) -> Seq<Bindings> {
        match pattern {
            PatternNode::EnumVariant { name, args } => if is_builtin(enum_name) {
                match (builtin_binding(name@, args@), builtin_payload(enum_name, name@, t)) {
                    (Some(var), Ok(payload)) => bound(scopes, var, payload),
                    _ => scopes,
                }
            } else {
                self.with_custom(scopes, enum_name, name@, payloads, args@)
            },
            _ => scopes,
        }
    }

    /// Binds the names of an arm of a match on an enum. `payloads` says
    /// what is known of each field of the pattern's variant.
    pub fn bind_enum_arm_variables(
        &mut self,
        pattern: &PatternNode,
        enum_name: &str,
        match_type: &Type,
        payloads: &Vec<PayloadField>,
    ) -> (r: Result<Vec<Step>, String>)
        requires
            old(self).variables@.len() > 0,
            *pattern matches PatternNode::EnumVariant { name, args } ==> (old(
                self,
            ).payload_fields(enum_name@, name@) matches Ok(fields) ==> payloads@.len() == fields.len()
                && old(self).fields_settle(fields)),
        ensures
            planned(r) == old(self).arm_bindings(
                *pattern,
                enum_name@,
                match_type.term(),
                payloads@,
            ),
            scopes_of(final(self).variables@) == old(self).with_arm(
                scopes_of(old(self).variables@),
                *pattern,
                enum_name@,
                match_type.term(),
                payloads@,
            ),
            *final(self) == (CodeGenerator { variables: final(self).variables, ..*old(self) }),
    {
        match pattern {
            PatternNode::EnumVariant { name, args } => {
                if names_builtin(enum_name) {
                    self.bind_builtin_enum_variant_args(enum_name, name.as_str(), args, match_type)
                } else {
                    self.bind_custom_enum_variant_args(enum_name, name.as_str(), payloads, args)
                }
            },
            _ => {
                let out: Vec<Step> = Vec::new();
                assert(out@ =~= seq![]);
                Ok(out)
            },
        }
    }

    /// A match: on an enum by its discriminant, on everything else by
    /// comparing values.
    pub fn generate_match_body(
        &mut self,
        match_expr: &ExpressionNode,
        match_type: &Type,
        kind: ValueKind,
        arms: &Vec<MatchArm>,
    ) -> (r: Result<Vec<Step>, String>)
        requires
            old(self).label_counter < usize::MAX,
            old(self).match_enum(*match_expr, match_type.term()) matches Ok(name) && is_builtin(name)
                ==> holds_enum(kind),
        ensures
            planned(r) == old(self).match_plan(
                *match_expr,
                match_type.term(),
                kind,
                arms@,
            ),
            names_of(final(self).type_map@) == (if old(self).matches_as_enum(match_type.term())
                && old(self).match_enum(*match_expr, match_type.term()) is Ok {
                old(self).match_structs(match_type.term())
            } else {
                names_of(old(self).type_map@)
            }),
            *final(self) == (CodeGenerator {
                type_map: final(self).type_map,
                label_counter: if r is Ok {
                    (old(self).label_counter + 1) as usize
                } else {
                    old(self).label_counter
                },
                ..*old(self)
            }),
    {
        if self.is_enum_match_type(match_type) {
            self.generate_enum_match(match_expr, match_type, kind, arms)
        } else {
            Ok(self.generate_switch_match(arms))
        }
    }

    /// A match's steps.
    pub open spec fn match_plan(
        &self,
        e: ExpressionNode,
        t: TypeTerm,
        kind: ValueKind,
        arms: Seq<MatchArm>,
    ) -> Planned {
        let body = match_steps(self.label_counter, arms.len(), all_arms_return(arms));
        if !self.matches_as_enum(t) {
            Ok(body)
        } else {
            match self.match_enum(e, t) {
                Err(message) => Err(message),
                Ok(name) => match self.enum_opening(name, t, kind) {
                    Err(message) => Err(message),
                    Ok(opening) => Ok(opening + body),
                },
            }
        }
    }
}

/// The scopes with the first `n` arguments that are names bound.
pub open spec fn with_payloads(
    scopes: Seq<Bindings>,
    payloads: Seq<PayloadField>,
    args: Seq<PatternNode>,
    n: int,
) -> Seq<Bindings>
    decreases n,
{
    if n <= 0 || n > args.len() {
        scopes
    } else {
        let before = with_payloads(scopes, payloads, args, n - 1);
        match (args[n - 1], resolved(payloads[n - 1].type_)) {
            (PatternNode::Identifier(name), Ok(t)) => bound(before, name@, t),
            _ => before,
        }
    }
}

/// Scopes with names bound in the innermost one, one after the other.
pub open spec fn with_all(scopes: Seq<Bindings>, names: Bindings) -> Seq<Bindings>
    decreases names.len(),
{
    if names.len() == 0 {
        scopes
    } else {
        bound(with_all(scopes, names.drop_last()), names.last().0, names.last().1)
    }
}

/// A match on a generic enum opens, whether or not the instance for the
/// subject's type arguments was made before.
pub proof fn generic_match_opens(
    g: &CodeGenerator,
    base: Seq<char>,
    args: Seq<TypeTerm>,
    kind: ValueKind,
)
    requires
        args.len() > 0,
    ensures
        g.enum_opening(enum_name(base, args), TypeTerm::Named(base, args), kind) is Ok,
{
    matched_instance_has_struct(names_of(g.type_map@), base, args);
}

} // verus!
