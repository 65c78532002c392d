//! What matches on enums do when the program runs.

use crate::ast::nodes::PatternNode;
use crate::codegen::enum_matching::{
    builtin_steps, enum_test, is_builtin, payload_access, payload_steps, payload_tag, PayloadField,
    PayloadKind,
};
use crate::codegen::generator::CodeGenerator;
use crate::codegen::instances::instance_steps;
use crate::codegen::meaning::{
    carried_on, carried_out, carried_out_adds, field, holds, is_straight, runtime_functions,
    Machine, Value, World,
};
use crate::codegen::steps::{Reg, SlotName, Step, ValueKind};
use crate::semantics::types::TypeTerm;
use vstd::prelude::*;

verus! {

/// The place of an enum's variant.
pub open spec fn variant_of(v: Value) -> int {
    match v {
        Value::Variant(n, _) => n,
        Value::Built(_, n, _, _) => n,
        _ => -1,
    }
}

/// Whether a value is an enum.
pub open spec fn is_enum(v: Value) -> bool {
    v is Variant || v is Built
}

proof fn straight_adds(a: Seq<Step>, b: Seq<Step>)
    requires
        is_straight(a),
        is_straight(b),
    ensures
        is_straight(a + b),
{
}

/// What stands in front of an enum's arms reads the variant of the subject, and
/// keeps the subject where its payload is read.
pub proof fn enum_opening_reads_the_variant(
    g: &CodeGenerator,
    name: Seq<char>,
    t: TypeTerm,
    kind: ValueKind,
    w: World,
    m: Machine,
)
    requires
        g.enum_opening(name, t, kind) is Ok,
        is_enum(m.read(Reg::Subject)),
    ensures
        ({
            let steps = g.enum_opening(name, t, kind)->Ok_0;
            let after = carried_out(m, w, steps);
            let v = m.read(Reg::Subject);
            &&& is_straight(steps)
            &&& after.read(Reg::Discriminant) == Value::Num(variant_of(v))
            &&& after.read(Reg::Subject) == v
            &&& after.slots[Reg::EnumPointer] == v
            &&& is_builtin(name) ==> after.read(Reg::SubjectPointer) == v
        }),
{
    let v = m.read(Reg::Subject);
    let steps = g.enum_opening(name, t, kind)->Ok_0;
    let structs = g.match_structs(t);
    let instance = instance_steps(g.match_instances(t));
    let boxed = !is_builtin(name) && kind == ValueKind::Pointer;
    let inner = if boxed {
        ValueKind::Struct
    } else {
        kind
    };
    let unbox = if boxed {
        g.unboxed(structs, name)->Ok_0
    } else {
        seq![]
    };
    let reach = payload_access(name, inner);
    let load = seq![Step::LoadDiscriminant { of: Reg::Subject, into: Reg::Discriminant }];
    let access = g.struct_access(structs, name, inner)->Ok_0;
    assert(steps == instance + unbox + reach + load + access);
    let a = carried_out(m, w, instance);
    let b = carried_out(a, w, unbox);
    let c = carried_out(b, w, reach);
    let d = carried_out(c, w, load);
    let e = carried_out(d, w, access);
    carried_out_adds(m, w, instance, unbox);
    carried_out_adds(m, w, instance + unbox, reach);
    carried_out_adds(m, w, instance + unbox + reach, load);
    carried_out_adds(m, w, instance + unbox + reach + load, access);
    assert(a.read(Reg::Subject) == v) by {
        reveal(Machine::does);
        if instance.len() > 0 {
            carried_on(m, w, instance, 0);
        }
    }
    assert(b.read(Reg::Subject) == v) by {
        reveal(Machine::does);
        runtime_functions(v, Value::Nothing, Value::Nothing);
        if boxed {
            carried_on(a, w, unbox, 0);
            carried_on(a, w, unbox, 1);
        }
    }
    assert(c.read(Reg::Subject) == v && (is_builtin(name) ==> c.read(Reg::SubjectPointer) == v)) by {
        reveal(Machine::does);
        if reach.len() == 1 {
            carried_on(b, w, reach, 0);
        } else if reach.len() == 2 {
            carried_on(b, w, reach, 0);
            carried_on(b, w, reach, 1);
        }
    }
    assert(d.read(Reg::Subject) == v && d.read(Reg::Discriminant) == Value::Num(variant_of(v))
        && d.read(Reg::SubjectPointer) == c.read(Reg::SubjectPointer)) by {
        reveal(Machine::does);
        carried_on(c, w, load, 0);
    }
    assert(e.read(Reg::Subject) == v && e.slots[Reg::EnumPointer] == v && e.read(Reg::Discriminant)
        == d.read(Reg::Discriminant) && e.read(Reg::SubjectPointer) == d.read(
        Reg::SubjectPointer,
    )) by {
        reveal(Machine::does);
        carried_on(d, w, access, 0);
        if access.len() == 2 {
            carried_on(d, w, access, 1);
        }
    }
    straight_adds(instance, unbox);
    straight_adds(instance + unbox, reach);
    straight_adds(instance + unbox + reach, load);
    straight_adds(instance + unbox + reach + load, access);
}

/// Whether an enum's variant fits a pattern: the variant that the pattern names
/// is the enum's; a name that is no variant's and the wildcard fit all.
pub open spec fn variant_fits(pattern: PatternNode, variant: Result<usize, String>, v: Value) -> bool {
    match pattern {
        PatternNode::EnumVariant { .. } => variant is Ok && variant_of(v) == variant->Ok_0,
        PatternNode::Identifier(_) => variant is Ok ==> variant_of(v) == variant->Ok_0,
        _ => true,
    }
}

/// The test of a pattern against an enum, behind what stands in front of the
/// arms, holds exactly for the enums whose variant fits the pattern.
pub proof fn enum_test_tells_variants(
    g: &CodeGenerator,
    name: Seq<char>,
    t: TypeTerm,
    kind: ValueKind,
    pattern: PatternNode,
    variant: Result<usize, String>,
    w: World,
    m: Machine,
)
    requires
        g.enum_opening(name, t, kind) is Ok,
        enum_test(pattern, variant) is Ok,
        is_enum(m.read(Reg::Subject)),
    ensures
        ({
            let opening = g.enum_opening(name, t, kind)->Ok_0;
            let (test, condition) = enum_test(pattern, variant)->Ok_0;
            let after = carried_out(m, w, opening + test);
            &&& is_straight(opening + test)
            &&& holds(after.read(condition)) <==> variant_fits(
                pattern,
                variant,
                m.read(Reg::Subject),
            )
        }),
{
    let opening = g.enum_opening(name, t, kind)->Ok_0;
    let (test, condition) = enum_test(pattern, variant)->Ok_0;
    enum_opening_reads_the_variant(g, name, t, kind, w, m);
    carried_out_adds(m, w, opening, test);
    let before = carried_out(m, w, opening);
    if test.len() > 0 {
        reveal(Machine::does);
        carried_on(before, w, test, 0);
    }
}

/// What the name at a place stands for.
spec fn bound_at(m: Machine, i: int) -> Value {
    m.vars[SlotName::Bound(i as usize)]
}

proof fn payload_is_bound(i: int, kind: PayloadKind, w: World, m: Machine)
    requires
        0 <= i < usize::MAX,
        m.slots[Reg::EnumPointer] is Variant,
        i < m.slots[Reg::EnumPointer]->Variant_1.len(),
    ensures
        ({
            let steps = payload_steps(i, kind);
            let after = carried_out(m, w, steps);
            &&& is_straight(steps)
            &&& after.vars == m.vars.insert(
                SlotName::Bound(i as usize),
                m.slots[Reg::EnumPointer]->Variant_1[i],
            )
            &&& after.slots[Reg::EnumPointer] == m.slots[Reg::EnumPointer]
        }),
{
    reveal(Machine::does);
    let steps = payload_steps(i, kind);
    let v = m.slots[Reg::EnumPointer]->Variant_1[i];
    assert(field(m.slots[Reg::EnumPointer], i + 1) == v);
    runtime_functions(v, Value::Nothing, Value::Nothing);
    carried_on(m, w, steps, 0);
    carried_on(m, w, steps, 1);
    carried_on(m, w, steps, 2);
    carried_on(m, w, steps, 3);
    if steps.len() > 4 {
        carried_on(m, w, steps, 4);
    }
    if steps.len() > 5 {
        carried_on(m, w, steps, 5);
    }
}

proof fn payloads_are_bound(
    g: &CodeGenerator,
    enum_name: Seq<char>,
    variant: Seq<char>,
    fields: Seq<crate::ast::nodes::EnumVariantField>,
    payloads: Seq<PayloadField>,
    args: Seq<PatternNode>,
    i: int,
    done: Seq<Step>,
    w: World,
    m: Machine,
)
    requires
        0 <= i <= args.len() < usize::MAX,
        g.payload_bindings(enum_name, variant, fields, payloads, args, i, done) is Ok,
        is_straight(done),
        carried_out(m, w, done).slots[Reg::EnumPointer] is Variant,
        args.len() <= carried_out(m, w, done).slots[Reg::EnumPointer]->Variant_1.len(),
    ensures
        ({
            let before = carried_out(m, w, done);
            let steps = g.payload_bindings(
                enum_name,
                variant,
                fields,
                payloads,
                args,
                i,
                done,
            )->Ok_0;
            let after = carried_out(m, w, steps);
            &&& is_straight(steps)
            &&& forall|j: int|
                i <= j < args.len() && (#[trigger] args[j]) is Identifier
                    ==> after.vars[SlotName::Bound(j as usize)]
                    == before.slots[Reg::EnumPointer]->Variant_1[j]
            &&& forall|j: int|
                0 <= j < i ==> #[trigger] bound_at(after, j) == bound_at(before, j)
        }),
    decreases args.len() - i,
{
    if i < args.len() {
        let before = carried_out(m, w, done);
        if args[i] is Identifier {
            let one = payload_steps(i, payloads[i].kind);
            payload_is_bound(i, payloads[i].kind, w, before);
            carried_out_adds(m, w, done, one);
            let next = carried_out(m, w, done + one);
            payloads_are_bound(
                g,
                enum_name,
                variant,
                fields,
                payloads,
                args,
                i + 1,
                done + one,
                w,
                m,
            );
            assert(next.vars[SlotName::Bound(i as usize)]
                == before.slots[Reg::EnumPointer]->Variant_1[i]);
            let steps = g.payload_bindings(
                enum_name,
                variant,
                fields,
                payloads,
                args,
                i,
                done,
            )->Ok_0;
            let after = carried_out(m, w, steps);
            assert(bound_at(after, i) == bound_at(next, i));
            assert forall|j: int| 0 <= j < i implies #[trigger] bound_at(after, j) == bound_at(
                before,
                j,
            ) by {
                assert(bound_at(after, j) == bound_at(next, j));
                assert(SlotName::Bound(j as usize) != SlotName::Bound(i as usize));
            }
        } else {
            payloads_are_bound(
                g,
                enum_name,
                variant,
                fields,
                payloads,
                args,
                i + 1,
                done,
                w,
                m,
            );
        }
    }
}

/// Each name in the pattern of a declared enum's variant stands for the payload
/// field at its place.
pub proof fn variant_pattern_binds_payload(
    g: &CodeGenerator,
    enum_name: Seq<char>,
    variant: Seq<char>,
    payloads: Seq<PayloadField>,
    args: Seq<PatternNode>,
    w: World,
    m: Machine,
)
    requires
        args.len() < usize::MAX,
        g.custom_bindings(enum_name, variant, payloads, args) is Ok,
        m.slots[Reg::EnumPointer] is Variant,
        args.len() <= m.slots[Reg::EnumPointer]->Variant_1.len(),
    ensures
        ({
            let steps = g.custom_bindings(enum_name, variant, payloads, args)->Ok_0;
            let after = carried_out(m, w, steps);
            &&& is_straight(steps)
            &&& forall|j: int|
                0 <= j < args.len() && (#[trigger] args[j]) is Identifier
                    ==> after.vars[SlotName::Bound(j as usize)]
                    == m.slots[Reg::EnumPointer]->Variant_1[j]
        }),
{
    let fields = g.payload_fields(enum_name, variant)->Ok_0;
    assert(carried_out(m, w, seq![]) == m);
    payloads_are_bound(g, enum_name, variant, fields, payloads, args, 0, seq![], w, m);
}

/// The name in the pattern of a built-in enum's variant stands for the payload
/// of that variant.
pub proof fn builtin_pattern_binds_payload(
    name: Seq<char>,
    variant: Seq<char>,
    place: int,
    payload: Value,
    w: World,
    m: Machine,
)
    requires
        (name == "optional"@ && variant == "some"@) || (name == "result"@ && (variant == "ok"@
            || variant == "err"@)),
        m.read(Reg::SubjectPointer) == Value::Built(name, place, variant, seq![payload]),
    ensures
        ({
            let steps = builtin_steps(name, variant);
            let after = carried_out(m, w, steps);
            &&& is_straight(steps)
            &&& after.vars[SlotName::Bound(0)] == payload
        }),
{
    reveal(Machine::does);
    let v = m.read(Reg::SubjectPointer);
    let steps = builtin_steps(name, variant);
    runtime_functions(v, Value::Nothing, Value::Nothing);
    reveal_strlit("optional");
    reveal_strlit("result");
    assert("optional"@.len() == 8 && "result"@.len() == 6);
    assert(payload_tag(name, variant)@ == variant);
    carried_on(m, w, steps, 0);
    carried_on(m, w, steps, 1);
    carried_on(m, w, steps, 2);
    carried_on(m, w, steps, 3);
    carried_on(m, w, steps, 4);
    carried_on(m, w, steps, 5);
}

} // verus!
