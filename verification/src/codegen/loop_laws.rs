//! What branches and loops do when the program runs.

use crate::codegen::generator::CodeGenerator;
use crate::codegen::loops::{
    bounds_steps, condition_steps, if_steps, items_steps, while_steps,
};
use crate::codegen::meaning::{
    branch_step, characters, comes_on, comes_to, entered_at, holds, items, jump_step, none_yet,
    plain_step, runs_add, runtime_functions, statements_step, Event, Machine, Place, Value, World,
};
use crate::codegen::steps::{BlockLabel, Comparison, Part, Reg, Step};
use crate::semantics::types::TypeTerm;
use vstd::prelude::*;

verus! {

/// Where a machine is behind statements: outside where they leave, and else
/// behind all steps.
pub open spec fn behind(steps: Seq<Step>, w: World, part: Part, trace: Seq<Event>) -> Place {
    if w.left_by(part, trace) {
        Place::Left
    } else {
        Place::At(steps.len() as int)
    }
}

/// A branch evaluates its condition once. Where it holds, the first side runs
/// once and the other does not; where it does not hold, the other side runs
/// once, if there is one, and the first does not. A side that ends with a
/// return leaves.
pub proof fn branch_runs_the_right_side(
    id: usize,
    then_returns: bool,
    has_else: bool,
    else_returns: bool,
    w: World,
    m: Machine,
)
    requires
        else_returns ==> has_else,
        then_returns ==> w.always_left_by(Part::ThenBlock),
        else_returns ==> w.always_left_by(Part::ElseBlock),
        m.place == Place::At(0),
    ensures
        ({
            let steps = condition_steps() + if_steps(id, then_returns, has_else, else_returns);
            let c = w.value(Part::Condition, m.trace);
            let seen = m.trace.push(Event::Evaluated(Part::Condition, c));
            let var = m.slots[Reg::VarSlot];
            if holds(c) {
                comes_to(
                    m,
                    steps,
                    w,
                    behind(steps, w, Part::ThenBlock, seen),
                    seen.push(Event::Ran(Part::ThenBlock, var)),
                )
            } else if has_else {
                comes_to(
                    m,
                    steps,
                    w,
                    behind(steps, w, Part::ElseBlock, seen),
                    seen.push(Event::Ran(Part::ElseBlock, var)),
                )
            } else {
                comes_to(m, steps, w, Place::At(steps.len() as int), seen)
            }
        }),
{
    let steps = condition_steps() + if_steps(id, then_returns, has_else, else_returns);
    let merge = !then_returns || !else_returns;
    let o: int = if merge {
        4
    } else {
        3
    };
    let t = o + 1;
    let e = if then_returns {
        t + 2
    } else {
        t + 3
    };
    let n = steps.len() as int;
    assert(steps[0] == Step::Evaluate { part: Part::Condition, into: Reg::Condition });
    assert(steps[1] == Step::Append(BlockLabel::IfThen(id)));
    assert(steps[2] == Step::Append(BlockLabel::IfElse(id)));
    assert(merge ==> steps[3] == Step::Append(BlockLabel::IfMerge(id)));
    assert(steps[o] is Branch);
    assert(steps[t] == Step::Enter(BlockLabel::IfThen(id)));
    assert(steps[t + 1] == Step::Statements(Part::ThenBlock));
    assert(!then_returns ==> steps[t + 2] == Step::Jump(BlockLabel::IfMerge(id)));
    assert(steps[e] == Step::Enter(BlockLabel::IfElse(id)));
    assert(has_else ==> steps[e + 1] == Step::Statements(Part::ElseBlock));
    entered_at(steps, BlockLabel::IfThen(id), 0, t);
    entered_at(steps, BlockLabel::IfElse(id), 0, e);
    if merge {
        assert(steps[n - 1] == Step::Enter(BlockLabel::IfMerge(id)));
        entered_at(steps, BlockLabel::IfMerge(id), 0, n - 1);
    }
    reveal(Machine::does);
    none_yet(m, steps, w);
    plain_step(m, steps, w, 0, 0, steps[0]);
    plain_step(m, steps, w, 1, 1, steps[1]);
    plain_step(m, steps, w, 2, 2, steps[2]);
    if merge {
        plain_step(m, steps, w, 3, 3, steps[3]);
    }
    let at = o as nat;
    let c = w.value(Part::Condition, m.trace);
    let seen = m.trace.push(Event::Evaluated(Part::Condition, c));
    assert(m.runs(steps, w, at).trace == seen);
    assert(m.runs(steps, w, at).read(Reg::Condition) == c);
    assert(m.runs(steps, w, at).slots == m.slots);
    branch_step(
        m,
        steps,
        w,
        at,
        o,
        Reg::Condition,
        BlockLabel::IfThen(id),
        BlockLabel::IfElse(id),
    );
    if holds(c) {
        statements_step(m, steps, w, at + 1, t + 1, Part::ThenBlock);
        if !then_returns && !w.left_by(Part::ThenBlock, seen) {
            jump_step(m, steps, w, at + 2, t + 2, BlockLabel::IfMerge(id));
            assert(m.runs(steps, w, at + 3).place == Place::At(n));
        } else {
            assert(m.runs(steps, w, at + 2).place == Place::Left);
        }
    } else if has_else {
        statements_step(m, steps, w, at + 1, e + 1, Part::ElseBlock);
        if !else_returns && !w.left_by(Part::ElseBlock, seen) {
            jump_step(m, steps, w, at + 2, e + 2, BlockLabel::IfMerge(id));
            assert(m.runs(steps, w, at + 3).place == Place::At(n));
        } else {
            assert(m.runs(steps, w, at + 2).place == Place::Left);
        }
    } else {
        jump_step(m, steps, w, at + 1, e + 1, BlockLabel::IfMerge(id));
        assert(m.runs(steps, w, at + 2).place == Place::At(n));
    }
}

/// What has happened, and what the loop's variable holds, behind one more round
/// of a loop while a condition holds.
pub open spec fn round(w: World, before: (Seq<Event>, Value)) -> (Seq<Event>, Value) {
    let c = w.value(Part::Condition, before.0);
    let seen = before.0.push(Event::Evaluated(Part::Condition, c));
    (seen.push(Event::Ran(Part::Body, before.1)), (w.assigned)(Part::Body, seen))
}

/// The same behind some rounds.
pub open spec fn rounds(w: World, before: (Seq<Event>, Value), k: nat) -> (Seq<Event>, Value)
    decreases k,
{
    if k == 0 {
        before
    } else {
        rounds(w, round(w, before), (k - 1) as nat)
    }
}

/// What the condition yields in front of a round.
pub open spec fn condition_at(w: World, before: (Seq<Event>, Value), k: nat) -> Value {
    w.value(Part::Condition, rounds(w, before, k).0)
}

proof fn while_goes_on(w: World, m: Machine, k: nat)
    requires
        m.place == Place::At(5),
        w.never_left_by(Part::Body),
        forall|j: nat| j < k ==> holds(#[trigger] condition_at(w, (m.trace, m.slots[Reg::VarSlot]), j)),
        !holds(condition_at(w, (m.trace, m.slots[Reg::VarSlot]), k)),
    ensures
        ({
            let before = (m.trace, m.slots[Reg::VarSlot]);
            comes_to(
                m,
                while_steps(),
                w,
                Place::At(11),
                rounds(w, before, k).0.push(
                    Event::Evaluated(Part::Condition, condition_at(w, before, k)),
                ),
            )
        }),
    decreases k,
{
    reveal(Machine::does);
    let steps = while_steps();
    let before = (m.trace, m.slots[Reg::VarSlot]);
    entered_at(steps, BlockLabel::WhileHeader, 0, 4);
    entered_at(steps, BlockLabel::WhileBody, 0, 7);
    entered_at(steps, BlockLabel::WhileExit, 0, 10);
    none_yet(m, steps, w);
    plain_step(m, steps, w, 0, 5, steps[5]);
    branch_step(
        m,
        steps,
        w,
        1,
        6,
        Reg::Condition,
        BlockLabel::WhileBody,
        BlockLabel::WhileExit,
    );
    if k == 0 {
        assert(condition_at(w, before, 0) == w.value(Part::Condition, m.trace));
        assert(m.runs(steps, w, 2).place == Place::At(11));
    } else {
        assert(holds(condition_at(w, before, 0)));
        statements_step(m, steps, w, 2, 8, Part::Body);
        jump_step(m, steps, w, 3, 9, BlockLabel::WhileHeader);
        let next = m.runs(steps, w, 4);
        assert((next.trace, next.slots[Reg::VarSlot]) == round(w, before));
        assert forall|j: nat| j < k - 1 implies holds(
            #[trigger] condition_at(w, (next.trace, next.slots[Reg::VarSlot]), j),
        ) by {
            assert(holds(condition_at(w, before, j + 1)));
        }
        while_goes_on(w, next, (k - 1) as nat);
        comes_on(
            m,
            steps,
            w,
            4,
            Place::At(11),
            rounds(w, before, k).0.push(
                Event::Evaluated(Part::Condition, condition_at(w, before, k)),
            ),
        );
    }
}

/// A loop runs its body as long as its condition holds: the condition is
/// evaluated in front of every round, the body runs once in each, and the first
/// time that the condition does not hold the loop is over.
pub proof fn while_repeats_its_body(w: World, m: Machine, k: nat)
    requires
        m.place == Place::At(0),
        w.never_left_by(Part::Body),
        forall|j: nat|
            j < k ==> holds(#[trigger] condition_at(w, (m.trace, m.slots[Reg::VarSlot]), j)),
        !holds(condition_at(w, (m.trace, m.slots[Reg::VarSlot]), k)),
    ensures
        ({
            let before = (m.trace, m.slots[Reg::VarSlot]);
            comes_to(
                m,
                while_steps(),
                w,
                Place::At(while_steps().len() as int),
                rounds(w, before, k).0.push(
                    Event::Evaluated(Part::Condition, condition_at(w, before, k)),
                ),
            )
        }),
{
    reveal(Machine::does);
    let steps = while_steps();
    let before = (m.trace, m.slots[Reg::VarSlot]);
    entered_at(steps, BlockLabel::WhileHeader, 0, 4);
    none_yet(m, steps, w);
    plain_step(m, steps, w, 0, 0, steps[0]);
    plain_step(m, steps, w, 1, 1, steps[1]);
    plain_step(m, steps, w, 2, 2, steps[2]);
    jump_step(m, steps, w, 3, 3, BlockLabel::WhileHeader);
    let next = m.runs(steps, w, 4);
    assert((next.trace, next.slots[Reg::VarSlot]) == before);
    while_goes_on(w, next, k);
    comes_on(
        m,
        steps,
        w,
        4,
        Place::At(11),
        rounds(w, before, k).0.push(
            Event::Evaluated(Part::Condition, condition_at(w, before, k)),
        ),
    );
}

/// A body that runs once for each of some values, in their order.
pub open spec fn ran_for(values: Seq<Value>) -> Seq<Event> {
    Seq::new(values.len(), |i: int| Event::Ran(Part::Body, values[i]))
}

/// The integers from one on up to another, which is left out.
pub open spec fn counted(from: int, to: int) -> Seq<Value> {
    Seq::new(
        if from < to {
            (to - from) as nat
        } else {
            0
        },
        |i: int| Value::Num(from + i),
    )
}

/// The steps of a counting loop, with its bounds.
#[verifier::opaque]
spec fn range_steps(g: &CodeGenerator, var: Seq<char>) -> Seq<Step> {
    bounds_steps() + g.range_loop_steps(var)
}

/// What stands where in the steps of a counting loop.
proof fn range_layout(g: &CodeGenerator, var: Seq<char>)
    ensures
        ({
            let s = range_steps(g, var);
            let id = g.label_counter;
            &&& s.len() == 22
            &&& s[0] == Step::Evaluate { part: Part::RangeStart, into: Reg::Start }
            &&& s[1] == Step::Evaluate { part: Part::RangeEnd, into: Reg::End }
            &&& s[2] matches Step::Allocate { storage, name, into } && into == Reg::IndexSlot
            &&& s[3] == Step::Store { value: Reg::Start, to: Reg::IndexSlot }
            &&& (s[4] matches Step::AllocateCell { into } && into == Reg::VarSlot)
                || (s[4] matches Step::AllocateAtEntry { storage, name, into } && into
                == Reg::VarSlot)
            &&& s[5] == Step::TrackCell(Reg::VarSlot) || s[5] == Step::TrackBoxed(Reg::VarSlot)
            &&& s[6] == Step::Append(BlockLabel::ForHeader(id))
            &&& s[7] == Step::Append(BlockLabel::ForBody(id))
            &&& s[8] == Step::Append(BlockLabel::ForExit(id))
            &&& s[9] == Step::Jump(BlockLabel::ForHeader(id))
            &&& s[10] == Step::Enter(BlockLabel::ForHeader(id))
            &&& s[11] matches Step::Load { storage, from, name, into } && from == Reg::IndexSlot
                && into == Reg::HeaderIndex
            &&& s[12] matches Step::Compare { by, left, right, name, into } && by
                == Comparison::SignedLess && left == Reg::HeaderIndex && right == Reg::End
                && into == Reg::Condition
            &&& s[13] == Step::Branch {
                condition: Reg::Condition,
                yes: BlockLabel::ForBody(id),
                no: BlockLabel::ForExit(id),
            }
            &&& s[14] == Step::Enter(BlockLabel::ForBody(id))
            &&& s[15] matches Step::Load { storage, from, name, into } && from == Reg::IndexSlot
                && into == Reg::BodyIndex
            &&& s[16] matches Step::Overwrite { slot, storage, value } && slot == Reg::VarSlot
                && value == Reg::BodyIndex
            &&& s[17] == Step::Statements(Part::Body)
            &&& s[18] matches Step::Add { left, right, name, into } && left == Reg::BodyIndex
                && right == Reg::Number(1) && into == Reg::NextIndex
            &&& s[19] == Step::Store { value: Reg::NextIndex, to: Reg::IndexSlot }
            &&& s[20] == Step::Jump(BlockLabel::ForHeader(id))
            &&& s[21] == Step::Enter(BlockLabel::ForExit(id))
        }),
{
    reveal(range_steps);
}

proof fn range_goes_on(g: &CodeGenerator, var: Seq<char>, w: World, m: Machine, from: int, to: int)
    requires
        m.place == Place::At(11),
        w.never_left_by(Part::Body),
        m.slots[Reg::IndexSlot] == Value::Num(from),
        m.regs[Reg::End] == Value::Num(to),
    ensures
        comes_to(
            m,
            range_steps(g, var),
            w,
            Place::At(22),
            m.trace + ran_for(counted(from, to)),
        ),
    decreases to - from,
{
    reveal(Machine::does);
    let steps = range_steps(g, var);
    let id = g.label_counter;
    range_layout(g, var);
    entered_at(steps, BlockLabel::ForHeader(id), 0, 10);
    entered_at(steps, BlockLabel::ForBody(id), 0, 14);
    entered_at(steps, BlockLabel::ForExit(id), 0, 21);
    none_yet(m, steps, w);
    plain_step(m, steps, w, 0, 11, steps[11]);
    plain_step(m, steps, w, 1, 12, steps[12]);
    branch_step(
        m,
        steps,
        w,
        2,
        13,
        Reg::Condition,
        BlockLabel::ForBody(id),
        BlockLabel::ForExit(id),
    );
    if from >= to {
        assert(m.trace + ran_for(counted(from, to)) =~= m.trace);
        assert(m.runs(steps, w, 3).place == Place::At(22));
    } else {
        assert(m.runs(steps, w, 3).place == Place::At(15));
        plain_step(m, steps, w, 3, 15, steps[15]);
        plain_step(m, steps, w, 4, 16, steps[16]);
        statements_step(m, steps, w, 5, 17, Part::Body);
        plain_step(m, steps, w, 6, 18, steps[18]);
        plain_step(m, steps, w, 7, 19, steps[19]);
        jump_step(m, steps, w, 8, 20, BlockLabel::ForHeader(id));
        let next = m.runs(steps, w, 9);
        assert(next.trace == m.trace.push(Event::Ran(Part::Body, Value::Num(from))));
        range_goes_on(g, var, w, next, from + 1, to);
        assert(next.trace + ran_for(counted(from + 1, to)) =~= m.trace + ran_for(
            counted(from, to),
        ));
        comes_on(m, steps, w, 9, Place::At(22), m.trace + ran_for(counted(from, to)));
    }
}

/// A counting loop evaluates its two bounds, and then runs its body once for
/// each integer from the first bound on, in rising order, up to the second
/// bound, which it leaves out. The loop's variable holds the integer, whatever
/// the body assigned to it the round before.
pub proof fn range_loop_counts(
    g: &CodeGenerator,
    var: Seq<char>,
    w: World,
    m: Machine,
    from: int,
    to: int,
)
    requires
        m.place == Place::At(0),
        w.never_left_by(Part::Body),
        w.value(Part::RangeStart, m.trace) == Value::Num(from),
        w.value(
            Part::RangeEnd,
            m.trace.push(Event::Evaluated(Part::RangeStart, Value::Num(from))),
        ) == Value::Num(to),
    ensures
        ({
            let steps = bounds_steps() + g.range_loop_steps(var);
            comes_to(
                m,
                steps,
                w,
                Place::At(steps.len() as int),
                m.trace + seq![
                    Event::Evaluated(Part::RangeStart, Value::Num(from)),
                    Event::Evaluated(Part::RangeEnd, Value::Num(to)),
                ] + ran_for(counted(from, to)),
            )
        }),
{
    reveal(range_steps);
    reveal(Machine::does);
    let steps = range_steps(g, var);
    let id = g.label_counter;
    range_layout(g, var);
    entered_at(steps, BlockLabel::ForHeader(id), 0, 10);
    none_yet(m, steps, w);
    plain_step(m, steps, w, 0, 0, steps[0]);
    plain_step(m, steps, w, 1, 1, steps[1]);
    plain_step(m, steps, w, 2, 2, steps[2]);
    plain_step(m, steps, w, 3, 3, steps[3]);
    plain_step(m, steps, w, 4, 4, steps[4]);
    plain_step(m, steps, w, 5, 5, steps[5]);
    plain_step(m, steps, w, 6, 6, steps[6]);
    plain_step(m, steps, w, 7, 7, steps[7]);
    plain_step(m, steps, w, 8, 8, steps[8]);
    jump_step(m, steps, w, 9, 9, BlockLabel::ForHeader(id));
    let next = m.runs(steps, w, 10);
    let seen = m.trace + seq![
        Event::Evaluated(Part::RangeStart, Value::Num(from)),
        Event::Evaluated(Part::RangeEnd, Value::Num(to)),
    ];
    assert(next.trace =~= seen);
    range_goes_on(g, var, w, next, from, to);
    comes_on(m, steps, w, 10, Place::At(22), seen + ran_for(counted(from, to)));
}

/// The values that a loop goes through: the elements of a list, or the
/// characters of a string.
pub open spec fn gone_through(string: bool, v: Value) -> Seq<Value> {
    if string {
        characters(v)
    } else {
        items(v)
    }
}

/// The steps of a loop over a list, with the list.
#[verifier::opaque]
spec fn list_steps(g: &CodeGenerator, string: bool, var: Seq<char>, t: TypeTerm) -> Seq<Step> {
    items_steps(string) + g.list_loop_steps(var, t)
}

/// What stands where in the steps of a loop over a list, where `o` steps give
/// the list and its length.
proof fn list_layout(g: &CodeGenerator, string: bool, var: Seq<char>, t: TypeTerm, o: int)
    requires
        o == (if string {
            6int
        } else {
            2int
        }),
    ensures
        ({
            let s = list_steps(g, string, var, t);
            let id = g.label_counter;
            &&& s.len() == o + 25
            &&& s[0] == Step::Evaluate { part: Part::Expression, into: Reg::Items }
            &&& s[o - 1] matches Step::Call1 { function, arg, name, into } && function@
                == "mux_value_list_length"@ && arg == Reg::Items && into == Reg::Length
            &&& s[o] matches Step::Allocate { storage, name, into } && into == Reg::IndexSlot
            &&& s[o + 1] == Step::Store { value: Reg::Number(0), to: Reg::IndexSlot }
            &&& (s[o + 2] matches Step::AllocateCell { into } && into == Reg::VarSlot)
                || (s[o + 2] matches Step::AllocateAtEntry { storage, name, into } && into
                == Reg::VarSlot)
            &&& s[o + 3] == Step::TrackCell(Reg::VarSlot) || s[o + 3] == Step::TrackBoxed(
                Reg::VarSlot,
            )
            &&& s[o + 4] == Step::Append(BlockLabel::ForHeader(id))
            &&& s[o + 5] == Step::Append(BlockLabel::ForBody(id))
            &&& s[o + 6] == Step::Append(BlockLabel::ForExit(id))
            &&& s[o + 7] == Step::Jump(BlockLabel::ForHeader(id))
            &&& s[o + 8] == Step::Enter(BlockLabel::ForHeader(id))
            &&& s[o + 9] matches Step::Load { storage, from, name, into } && from
                == Reg::IndexSlot && into == Reg::HeaderIndex
            &&& s[o + 10] matches Step::Compare { by, left, right, name, into } && by
                == Comparison::SignedLess && left == Reg::HeaderIndex && right == Reg::Length
                && into == Reg::Condition
            &&& s[o + 11] == Step::Branch {
                condition: Reg::Condition,
                yes: BlockLabel::ForBody(id),
                no: BlockLabel::ForExit(id),
            }
            &&& s[o + 12] == Step::Enter(BlockLabel::ForBody(id))
            &&& s[o + 13] matches Step::Load { storage, from, name, into } && from
                == Reg::IndexSlot && into == Reg::BodyIndex
            &&& s[o + 14] matches Step::Call2 { function, left, right, name, into } && function@
                == "mux_value_list_get_value"@ && left == Reg::Items && right == Reg::BodyIndex
                && into == Reg::Current
            &&& s[o + 15] == Step::Register(Reg::Current)
            &&& s[o + 16] matches Step::Overwrite { slot, storage, value } && slot
                == Reg::VarSlot && value == Reg::Current
            &&& s[o + 17] == Step::Statements(Part::Body)
            &&& s[o + 18] matches Step::Add { left, right, name, into } && left == Reg::BodyIndex
                && right == Reg::Number(1) && into == Reg::NextIndex
            &&& s[o + 19] == Step::Store { value: Reg::NextIndex, to: Reg::IndexSlot }
            &&& s[o + 20] == Step::Jump(BlockLabel::ForHeader(id))
            &&& s[o + 21] == Step::Append(BlockLabel::ForContinue(id))
            &&& s[o + 22] == Step::Enter(BlockLabel::ForExit(id))
            &&& s[o + 23] == Step::Jump(BlockLabel::ForContinue(id))
            &&& s[o + 24] == Step::Enter(BlockLabel::ForContinue(id))
            &&& forall|j: int| 0 <= j < o ==> !(#[trigger] s[j] is Enter)
            &&& string ==> {
                &&& s[1] == Step::Text { value: Reg::Items, into: Reg::LeftText }
                &&& s[2] matches Step::Call1 { function, arg, name, into } && function@
                    == "mux_string_to_list"@ && arg == Reg::LeftText && into == Reg::Items
                &&& s[3] == Step::FreeText(Reg::LeftText)
                &&& s[4] == Step::Register(Reg::Items)
            }
        }),
{
    reveal(list_steps);
}

/// One round of a loop over a list.
proof fn list_round(
    g: &CodeGenerator,
    string: bool,
    var: Seq<char>,
    t: TypeTerm,
    w: World,
    m: Machine,
    o: int,
    from: int,
)
    requires
        o == (if string {
            6int
        } else {
            2int
        }),
        m.place == Place::At(o + 13),
        w.never_left_by(Part::Body),
        m.regs[Reg::Items] is Items,
        0 <= from < items(m.regs[Reg::Items]).len(),
        m.slots[Reg::IndexSlot] == Value::Num(from),
    ensures
        ({
            let after = m.runs(list_steps(g, string, var, t), w, 8);
            &&& after.place == Place::At(o + 9)
            &&& after.slots[Reg::IndexSlot] == Value::Num(from + 1)
            &&& after.regs[Reg::Items] == m.regs[Reg::Items]
            &&& after.regs[Reg::Length] == m.regs[Reg::Length]
            &&& after.trace == m.trace.push(
                Event::Ran(Part::Body, items(m.regs[Reg::Items])[from]),
            )
        }),
{
    reveal(Machine::does);
    let steps = list_steps(g, string, var, t);
    let id = g.label_counter;
    list_layout(g, string, var, t, o);
    entered_at(steps, BlockLabel::ForHeader(id), 0, o + 8);
    none_yet(m, steps, w);
    plain_step(m, steps, w, 0, o + 13, steps[o + 13]);
    plain_step(m, steps, w, 1, o + 14, steps[o + 14]);
    runtime_functions(m.regs[Reg::Items], Value::Num(from), Value::Nothing);
    assert(m.runs(steps, w, 2).regs[Reg::Current] == items(m.regs[Reg::Items])[from]);
    plain_step(m, steps, w, 2, o + 15, steps[o + 15]);
    plain_step(m, steps, w, 3, o + 16, steps[o + 16]);
    statements_step(m, steps, w, 4, o + 17, Part::Body);
    plain_step(m, steps, w, 5, o + 18, steps[o + 18]);
    plain_step(m, steps, w, 6, o + 19, steps[o + 19]);
    jump_step(m, steps, w, 7, o + 20, BlockLabel::ForHeader(id));
}

proof fn list_goes_on(
    g: &CodeGenerator,
    string: bool,
    var: Seq<char>,
    t: TypeTerm,
    w: World,
    m: Machine,
    o: int,
    from: int,
)
    requires
        o == (if string {
            6int
        } else {
            2int
        }),
        m.place == Place::At(o + 9),
        w.never_left_by(Part::Body),
        m.regs[Reg::Items] is Items,
        0 <= from <= items(m.regs[Reg::Items]).len(),
        m.slots[Reg::IndexSlot] == Value::Num(from),
        m.regs[Reg::Length] == Value::Num(items(m.regs[Reg::Items]).len() as int),
    ensures
        comes_to(
            m,
            list_steps(g, string, var, t),
            w,
            Place::At(o + 25),
            m.trace + ran_for(items(m.regs[Reg::Items]).skip(from)),
        ),
    decreases items(m.regs[Reg::Items]).len() - from,
{
    reveal(Machine::does);
    let steps = list_steps(g, string, var, t);
    let id = g.label_counter;
    let all = items(m.regs[Reg::Items]);
    let n = all.len() as int;
    list_layout(g, string, var, t, o);
    entered_at(steps, BlockLabel::ForHeader(id), 0, o + 8);
    entered_at(steps, BlockLabel::ForBody(id), 0, o + 12);
    entered_at(steps, BlockLabel::ForExit(id), 0, o + 22);
    entered_at(steps, BlockLabel::ForContinue(id), 0, o + 24);
    none_yet(m, steps, w);
    plain_step(m, steps, w, 0, o + 9, steps[o + 9]);
    plain_step(m, steps, w, 1, o + 10, steps[o + 10]);
    branch_step(
        m,
        steps,
        w,
        2,
        o + 11,
        Reg::Condition,
        BlockLabel::ForBody(id),
        BlockLabel::ForExit(id),
    );
    if from >= n {
        assert(m.runs(steps, w, 3).place == Place::At(o + 23));
        jump_step(m, steps, w, 3, o + 23, BlockLabel::ForContinue(id));
        assert(m.trace + ran_for(all.skip(from)) =~= m.trace);
        assert(m.runs(steps, w, 4).place == Place::At(o + 25));
    } else {
        let inside = m.runs(steps, w, 3);
        assert(inside.place == Place::At(o + 13));
        list_round(g, string, var, t, w, inside, o, from);
        runs_add(m, steps, w, 3, 8);
        let next = m.runs(steps, w, 11);
        assert(next.trace == m.trace.push(Event::Ran(Part::Body, all[from])));
        list_goes_on(g, string, var, t, w, next, o, from + 1);
        assert(next.trace + ran_for(all.skip(from + 1)) =~= m.trace + ran_for(all.skip(from)));
        comes_on(m, steps, w, 11, Place::At(o + 25), m.trace + ran_for(all.skip(from)));
    }
}

/// The list of a loop is ready, with its length.
proof fn list_is_ready(
    g: &CodeGenerator,
    string: bool,
    var: Seq<char>,
    t: TypeTerm,
    w: World,
    m: Machine,
    o: nat,
)
    requires
        o == (if string {
            6nat
        } else {
            2nat
        }),
        m.place == Place::At(0),
        ({
            let v = w.value(Part::Expression, m.trace);
            if string {
                v is Text
            } else {
                v is Items
            }
        }),
    ensures
        ({
            let v = w.value(Part::Expression, m.trace);
            let after = m.runs(list_steps(g, string, var, t), w, o);
            &&& after.place == Place::At(o as int)
            &&& after.regs[Reg::Items] == Value::Items(gone_through(string, v))
            &&& after.regs[Reg::Length] == Value::Num(gone_through(string, v).len() as int)
            &&& after.trace == m.trace.push(Event::Evaluated(Part::Expression, v))
        }),
{
    reveal(Machine::does);
    let steps = list_steps(g, string, var, t);
    let v = w.value(Part::Expression, m.trace);
    list_layout(g, string, var, t, o as int);
    none_yet(m, steps, w);
    plain_step(m, steps, w, 0, 0, steps[0]);
    runtime_functions(v, Value::Nothing, Value::Nothing);
    runtime_functions(Value::Items(gone_through(string, v)), Value::Nothing, Value::Nothing);
    if string {
        plain_step(m, steps, w, 1, 1, steps[1]);
        plain_step(m, steps, w, 2, 2, steps[2]);
        plain_step(m, steps, w, 3, 3, steps[3]);
        plain_step(m, steps, w, 4, 4, steps[4]);
        plain_step(m, steps, w, 5, 5, steps[5]);
    } else {
        plain_step(m, steps, w, 1, 1, steps[1]);
    }
}

/// The index of a loop over a list starts at its first element.
proof fn list_begins(
    g: &CodeGenerator,
    string: bool,
    var: Seq<char>,
    t: TypeTerm,
    w: World,
    m: Machine,
    o: int,
)
    requires
        o == (if string {
            6int
        } else {
            2int
        }),
        m.place == Place::At(o),
    ensures
        ({
            let after = m.runs(list_steps(g, string, var, t), w, 8);
            &&& after.place == Place::At(o + 9)
            &&& after.regs[Reg::Items] == m.regs[Reg::Items]
            &&& after.regs[Reg::Length] == m.regs[Reg::Length]
            &&& after.slots[Reg::IndexSlot] == Value::Num(0)
            &&& after.trace == m.trace
        }),
{
    reveal(Machine::does);
    let steps = list_steps(g, string, var, t);
    let id = g.label_counter;
    list_layout(g, string, var, t, o);
    entered_at(steps, BlockLabel::ForHeader(id), 0, o + 8);
    none_yet(m, steps, w);
    plain_step(m, steps, w, 0, o, steps[o]);
    plain_step(m, steps, w, 1, o + 1, steps[o + 1]);
    plain_step(m, steps, w, 2, o + 2, steps[o + 2]);
    plain_step(m, steps, w, 3, o + 3, steps[o + 3]);
    plain_step(m, steps, w, 4, o + 4, steps[o + 4]);
    plain_step(m, steps, w, 5, o + 5, steps[o + 5]);
    plain_step(m, steps, w, 6, o + 6, steps[o + 6]);
    jump_step(m, steps, w, 7, o + 7, BlockLabel::ForHeader(id));
}

/// A loop over a list runs its body once for each element, in the order of the
/// list, with the element in the loop's variable; a loop over a string does so
/// for each of its characters. What is gone through is evaluated once, in
/// front.
pub proof fn list_loop_visits_every_element(
    g: &CodeGenerator,
    string: bool,
    var: Seq<char>,
    t: TypeTerm,
    w: World,
    m: Machine,
)
    requires
        m.place == Place::At(0),
        w.never_left_by(Part::Body),
        ({
            let v = w.value(Part::Expression, m.trace);
            if string {
                v is Text
            } else {
                v is Items
            }
        }),
    ensures
        ({
            let steps = items_steps(string) + g.list_loop_steps(var, t);
            let v = w.value(Part::Expression, m.trace);
            comes_to(
                m,
                steps,
                w,
                Place::At(steps.len() as int),
                m.trace.push(Event::Evaluated(Part::Expression, v)) + ran_for(
                    gone_through(string, v),
                ),
            )
        }),
{
    reveal(list_steps);
    let steps = list_steps(g, string, var, t);
    let id = g.label_counter;
    let o: nat = if string {
        6
    } else {
        2
    };
    let v = w.value(Part::Expression, m.trace);
    let all = gone_through(string, v);
    let seen = m.trace.push(Event::Evaluated(Part::Expression, v));
    list_is_ready(g, string, var, t, w, m, o);
    let ready = m.runs(steps, w, o);
    list_begins(g, string, var, t, w, ready, o as int);
    let next = ready.runs(steps, w, 8);
    list_goes_on(g, string, var, t, w, next, o as int, 0);
    assert(all.skip(0) =~= all);
    comes_on(ready, steps, w, 8, Place::At(o as int + 25), seen + ran_for(all));
    comes_on(m, steps, w, o, Place::At(o as int + 25), seen + ran_for(all));
}

} // verus!
