//! Which arm of a match runs.

use crate::codegen::enum_matching::{arm_steps, arms_steps, guard_and_body, match_steps};
use crate::codegen::meaning::{
    branch_step, entered, entered_at, holds, jump_step, leads_on, never_entered, none_yet,
    plain_step, runs_add, statements_step, target, Event, Machine, Place, World,
};
use crate::codegen::steps::{BlockLabel, Part, Reg, Step};
use vstd::prelude::*;

verus! {

/// One step of a match: the guard and body of an arm are steps of their own,
/// and lead to blocks of the match.
pub open spec fn acts(m: Machine, steps: Seq<Step>, w: World) -> Machine {
    match m.place {
        Place::At(p) => if 0 <= p < steps.len() && steps[p] is GuardAndBody {
            let inner = w.arm_at(steps[p]->GuardAndBody_0);
            let after = m.at(Place::At(0)).runs(inner, w, inner.len());
            match after.place {
                Place::Block(label) => after.at(target(steps, label)),
                _ => after,
            }
        } else {
            m.moves(steps, w)
        },
        _ => m,
    }
}

/// Some steps of a match.
#[verifier::opaque]
pub open spec fn acts_on(m: Machine, steps: Seq<Step>, w: World, n: nat) -> Machine
    decreases n,
{
    if n == 0 {
        m
    } else {
        acts(acts_on(m, steps, w, (n - 1) as nat), steps, w)
    }
}

/// Whether a match comes to a place, with a trace.
pub open spec fn match_comes_to(
    m: Machine,
    steps: Seq<Step>,
    w: World,
    place: Place,
    trace: Seq<Event>,
) -> bool {
    exists|n: nat|
        {
            let after = #[trigger] acts_on(m, steps, w, n);
            after.place == place && after.trace == trace
        }
}

/// What happens from an arm on: patterns are tested in their order. Where one
/// matches, its names are bound, and its guard is evaluated, if it has one. The
/// body of the first arm whose pattern matches and whose guard holds runs, and
/// no later arm is looked at.
pub open spec fn arms_from(
    w: World,
    guards: Seq<bool>,
    trace: Seq<Event>,
    i: int,
) -> (Seq<Event>, bool)
    decreases guards.len() - i,
{
    if i < 0 || i >= guards.len() {
        (trace, false)
    } else {
        let matches = (w.test)(i as usize);
        let tested = trace.push(Event::Tested(i as usize, matches));
        if !matches {
            arms_from(w, guards, tested, i + 1)
        } else {
            let bound = tested.push(Event::Bound(i as usize));
            if !guards[i] {
                (bound, true)
            } else {
                let g = w.value(Part::Guard, bound);
                let guarded = bound.push(Event::Evaluated(Part::Guard, g));
                if holds(g) {
                    (guarded, true)
                } else {
                    arms_from(w, guards, guarded, i + 1)
                }
            }
        }
    }
}

/// A match whose arms have guards or not.
pub open spec fn is_match(w: World, id: usize, guards: Seq<bool>) -> bool {
    &&& guards.len() <= usize::MAX
    &&& forall|i: int|
        0 <= i < guards.len() ==> #[trigger] w.arm_at(i as usize) == guard_and_body(
            id,
            i,
            guards.len(),
            guards[i],
        )
}

proof fn acts_add(m: Machine, steps: Seq<Step>, w: World, a: nat, b: nat)
    ensures
        acts_on(acts_on(m, steps, w, a), steps, w, b) == acts_on(m, steps, w, a + b),
    decreases b,
{
    reveal(acts_on);
    if b > 0 {
        acts_add(m, steps, w, a, (b - 1) as nat);
    }
}

proof fn match_comes_on(
    m: Machine,
    steps: Seq<Step>,
    w: World,
    n: nat,
    place: Place,
    trace: Seq<Event>,
)
    requires
        match_comes_to(acts_on(m, steps, w, n), steps, w, place, trace),
    ensures
        match_comes_to(m, steps, w, place, trace),
{
    let k = choose|k: nat|
        {
            let after = #[trigger] acts_on(acts_on(m, steps, w, n), steps, w, k);
            after.place == place && after.trace == trace
        };
    acts_add(m, steps, w, n, k);
    assert(acts_on(m, steps, w, n + k).place == place);
}

proof fn no_act(m: Machine, steps: Seq<Step>, w: World)
    ensures
        acts_on(m, steps, w, 0) == m,
{
    reveal(acts_on);
}

proof fn one_act(m: Machine, steps: Seq<Step>, w: World, n: nat)
    ensures
        acts_on(m, steps, w, n + 1) == acts(acts_on(m, steps, w, n), steps, w),
{
    reveal(acts_on);
}

proof fn plain_act(m: Machine, steps: Seq<Step>, w: World, n: nat, p: int, s: Step)
    requires
        acts_on(m, steps, w, n).place == Place::At(p),
        0 <= p < steps.len(),
        steps[p] == s,
        leads_on(s),
        !(s is GuardAndBody),
    ensures
        acts_on(m, steps, w, n + 1) == acts_on(m, steps, w, n).does(w, s).at(Place::At(p + 1)),
{
    one_act(m, steps, w, n);
    let before = acts_on(m, steps, w, n);
    none_yet(before, steps, w);
    plain_step(before, steps, w, 0, p, s);
    crate::codegen::meaning::one_more(before, steps, w, 0);
}

proof fn entry_act(m: Machine, steps: Seq<Step>, w: World, n: nat, p: int)
    requires
        acts_on(m, steps, w, n).place == Place::At(p),
        0 <= p < steps.len(),
        steps[p] == Step::Enter(BlockLabel::Entry),
    ensures
        acts_on(m, steps, w, n + 1) == acts_on(m, steps, w, n).at(Place::At(p + 1)),
{
    one_act(m, steps, w, n);
    reveal(Machine::performs);
}

proof fn branch_act(
    m: Machine,
    steps: Seq<Step>,
    w: World,
    n: nat,
    p: int,
    yes: BlockLabel,
    no: BlockLabel,
)
    requires
        acts_on(m, steps, w, n).place == Place::At(p),
        0 <= p < steps.len(),
        steps[p] == (Step::Branch { condition: Reg::Condition, yes, no }),
    ensures
        acts_on(m, steps, w, n + 1) == acts_on(m, steps, w, n).at(
            if holds(acts_on(m, steps, w, n).read(Reg::Condition)) {
                target(steps, yes)
            } else {
                target(steps, no)
            },
        ),
{
    one_act(m, steps, w, n);
    let before = acts_on(m, steps, w, n);
    none_yet(before, steps, w);
    branch_step(before, steps, w, 0, p, Reg::Condition, yes, no);
    crate::codegen::meaning::one_more(before, steps, w, 0);
}

/// The place where the next arm's test stands, or the end of the match.
pub open spec fn label_behind(id: usize, i: int, count: nat) -> BlockLabel {
    if i + 1 < count {
        BlockLabel::MatchNext(id, i as usize)
    } else {
        BlockLabel::MatchEnd(id)
    }
}

/// A machine that is at no step stays.
proof fn over_is_over(m: Machine, steps: Seq<Step>, w: World, n: nat)
    requires
        !(m.place is At),
    ensures
        m.runs(steps, w, n) == m,
    decreases n,
{
    reveal_with_fuel(Machine::runs, 2);
    if n > 0 {
        over_is_over(m, steps, w, (n - 1) as nat);
    }
}

/// An arm without a guard, or whose guard holds, runs its body once, and goes on
/// behind the match unless the body leaves. An arm whose guard does not hold
/// runs nothing, and goes on where the next arm is tested, or behind the match.
pub proof fn guard_decides_about_the_body(
    id: usize,
    i: int,
    count: nat,
    has_guard: bool,
    w: World,
    m: Machine,
)
    requires
        0 <= i < count <= usize::MAX,
        m.place == Place::At(0),
    ensures
        ({
            let steps = guard_and_body(id, i, count, has_guard);
            let after = m.runs(steps, w, steps.len());
            let g = w.value(Part::Guard, m.trace);
            let seen = if has_guard {
                m.trace.push(Event::Evaluated(Part::Guard, g))
            } else {
                m.trace
            };
            if has_guard && !holds(g) {
                &&& after.trace == seen
                &&& after.place == Place::Block(label_behind(id, i, count))
                &&& after.slots == m.slots
            } else {
                &&& after.trace == seen.push(Event::Ran(Part::Body, m.slots[Reg::VarSlot]))
                &&& after.place == if w.left_by(Part::Body, seen) {
                    Place::Left
                } else {
                    Place::Block(BlockLabel::MatchEnd(id))
                }
            }
        }),
{
    reveal(Machine::does);
    let steps = guard_and_body(id, i, count, has_guard);
    let n = steps.len();
    let g = w.value(Part::Guard, m.trace);
    none_yet(m, steps, w);
    never_entered(steps, BlockLabel::MatchEnd(id), 0);
    if has_guard {
        assert(n == 6);
        never_entered(steps, label_behind(id, i, count), 0);
        let pass = BlockLabel::MatchGuardPass(i as usize);
        entered_at(steps, pass, 0, 3);
        plain_step(m, steps, w, 0, 0, steps[0]);
        plain_step(m, steps, w, 1, 1, steps[1]);
        branch_step(m, steps, w, 2, 2, Reg::Condition, pass, label_behind(id, i, count));
        if holds(g) {
            statements_step(m, steps, w, 3, 4, Part::Body);
            let seen = m.trace.push(Event::Evaluated(Part::Guard, g));
            if w.left_by(Part::Body, seen) {
                over_is_over(m.runs(steps, w, 4), steps, w, 2);
                runs_add(m, steps, w, 4, 2);
            } else {
                jump_step(m, steps, w, 4, 5, BlockLabel::MatchEnd(id));
                over_is_over(m.runs(steps, w, 5), steps, w, 1);
                runs_add(m, steps, w, 5, 1);
            }
        } else {
            over_is_over(m.runs(steps, w, 3), steps, w, 3);
            runs_add(m, steps, w, 3, 3);
        }
    } else {
        assert(n == 2);
        statements_step(m, steps, w, 0, 0, Part::Body);
        if w.left_by(Part::Body, m.trace) {
            over_is_over(m.runs(steps, w, 1), steps, w, 1);
            runs_add(m, steps, w, 1, 1);
        } else {
            jump_step(m, steps, w, 1, 1, BlockLabel::MatchEnd(id));
        }
    }
}

/// Where an arm's steps start.
spec fn base(i: int) -> int {
    1 + 10 * i
}

/// How many steps of an arm stand in front of the block of its test.
spec fn front(i: int, count: nat) -> int {
    if i + 1 < count {
        2
    } else {
        1
    }
}

proof fn arms_layout(id: usize, n: int, count: nat)
    requires
        0 <= n <= count,
    ensures
        arms_steps(id, n, count).len() == 10 * n - if n > 0 && n == count {
            1int
        } else {
            0int
        },
        forall|i: int, k: int|
            #![trigger arm_steps(id, i, count)[k]]
            0 <= i < n && 0 <= k < arm_steps(id, i, count).len() ==> arms_steps(
                id,
                n,
                count,
            )[10 * i + k] == arm_steps(id, i, count)[k],
    decreases n,
{
    if n > 0 {
        arms_layout(id, n - 1, count);
        let before = arms_steps(id, n - 1, count);
        let all = arms_steps(id, n, count);
        assert(arm_steps(id, n - 1, count).len() == 8 + front(n - 1, count));
        assert forall|i: int, k: int|
            #![trigger arm_steps(id, i, count)[k]]
            0 <= i < n && 0 <= k < arm_steps(id, i, count).len() implies all[10 * i + k]
            == arm_steps(id, i, count)[k] by {
            if i < n - 1 {
                assert(arm_steps(id, i, count).len() == 10);
                assert(before[10 * i + k] == arm_steps(id, i, count)[k]);
            }
        }
    }
}

/// What stands where in an arm of a match.
proof fn arm_layout(id: usize, count: nat, all_return: bool, i: int)
    requires
        0 <= i < count <= usize::MAX,
    ensures
        ({
            let s = match_steps(id, count, all_return);
            let b = base(i);
            let f = front(i, count);
            let arm = BlockLabel::MatchArm(id, i as usize);
            &&& 0 < b
            &&& b + 8 + f < s.len()
            &&& s[0] == Step::Append(BlockLabel::MatchEnd(id))
            &&& s[b] == Step::Append(arm)
            &&& f == 2 ==> s[b + 1] == Step::Append(BlockLabel::MatchNext(id, i as usize))
            &&& s[b + f] == Step::Enter(
                if i == 0 {
                    BlockLabel::Entry
                } else {
                    BlockLabel::MatchNext(id, (i - 1) as usize)
                },
            )
            &&& s[b + f + 1] == Step::TestArm(i as usize)
            &&& s[b + f + 2] == Step::Branch {
                condition: Reg::Condition,
                yes: arm,
                no: label_behind(id, i, count),
            }
            &&& s[b + f + 3] == Step::Enter(arm)
            &&& s[b + f + 4] == Step::OpenScope
            &&& s[b + f + 5] == Step::BindArm(i as usize)
            &&& s[b + f + 6] == Step::GuardAndBody(i as usize)
            &&& s[b + f + 7] == Step::CloseScope
        }),
{
    let s = match_steps(id, count, all_return);
    let b = base(i);
    let f = front(i, count);
    let one = arm_steps(id, i, count);
    let arms = arms_steps(id, count as int, count);
    arms_layout(id, count as int, count);
    assert(one.len() == 8 + f);
    assert(10 * i + 10 <= 10 * count);
    assert forall|k: int| 0 <= k < 8 + f implies s[b + k] == #[trigger] one[k] by {
        assert(arms[10 * i + k] == one[k]);
        assert(s[1 + (10 * i + k)] == arms[10 * i + k]);
    }
    assert(s[b + 0] == one[0]);
    assert(f == 2 ==> s[b + 1] == one[1]);
    assert(s[b + f] == one[f]);
    assert(s[b + (f + 1)] == one[f + 1]);
    assert(s[b + (f + 2)] == one[f + 2]);
    assert(s[b + (f + 3)] == one[f + 3]);
    assert(s[b + (f + 4)] == one[f + 4]);
    assert(s[b + (f + 5)] == one[f + 5]);
    assert(s[b + (f + 6)] == one[f + 6]);
    assert(s[b + (f + 7)] == one[f + 7]);
}

/// Where the block behind the match is entered.
spec fn end_of(count: nat) -> int {
    if count == 0 {
        1
    } else {
        10 * count as int
    }
}

proof fn end_layout(id: usize, count: nat, all_return: bool)
    ensures
        ({
            let s = match_steps(id, count, all_return);
            &&& s[end_of(count)] == Step::Enter(BlockLabel::MatchEnd(id))
            &&& end_of(count) < s.len()
            &&& s[0] == Step::Append(BlockLabel::MatchEnd(id))
        }),
{
    arms_layout(id, count as int, count);
}

/// Whether an arm enters a block.
spec fn is_entered_by(id: usize, label: BlockLabel, j: int) -> bool {
    label == BlockLabel::MatchArm(id, j as usize) || (j > 0 && label == BlockLabel::MatchNext(
        id,
        (j - 1) as usize,
    ))
}

/// Steps that do not enter a block are passed in the search for it.
proof fn search_passes_steps(s: Seq<Step>, label: BlockLabel, p: int, q: int)
    requires
        0 <= p <= q <= s.len(),
        forall|k: int| p <= k < q ==> #[trigger] s[k] != Step::Enter(label),
    ensures
        entered(s, label, p) == entered(s, label, q),
    decreases q - p,
{
    if p < q {
        assert(s[p] != Step::Enter(label));
        search_passes_steps(s, label, p + 1, q);
    }
}

/// A block is not looked for in the arms that do not hold it.
proof fn search_passes_arms(
    id: usize,
    count: nat,
    all_return: bool,
    label: BlockLabel,
    a: int,
    b: int,
)
    requires
        0 <= a <= b <= count <= usize::MAX,
        b < count || count == 0 || b == count,
        label != BlockLabel::Entry,
        forall|j: int| a <= j < b ==> !#[trigger] is_entered_by(id, label, j),
    ensures
        ({
            let s = match_steps(id, count, all_return);
            let to = if b == count && count > 0 && a < b {
                end_of(count)
            } else {
                base(b)
            };
            entered(s, label, base(a)) == entered(s, label, to)
        }),
    decreases b - a,
{
    let s = match_steps(id, count, all_return);
    if a < b {
        arm_layout(id, count, all_return, a);
        assert(!is_entered_by(id, label, a));
        let p = base(a);
        let f = front(a, count);
        let q = p + f + 8;
        assert forall|k: int| p <= k < q implies #[trigger] s[k] != Step::Enter(label) by {
            if k == p || (f == 2 && k == p + 1) {
            } else if k == p + f || k == p + f + 1 || k == p + f + 2 || k == p + f + 3 {
            } else if k == p + f + 4 || k == p + f + 5 || k == p + f + 6 || k == p + f + 7 {
            }
        }
        search_passes_steps(s, label, p, q);
        if a + 1 < b {
            search_passes_arms(id, count, all_return, label, a + 1, b);
        }
    }
}

proof fn arm_is_found(id: usize, count: nat, all_return: bool, i: int)
    requires
        0 <= i < count <= usize::MAX,
    ensures
        entered(
            match_steps(id, count, all_return),
            BlockLabel::MatchArm(id, i as usize),
            0,
        ) == Some(base(i) + front(i, count) + 3),
{
    let s = match_steps(id, count, all_return);
    let label = BlockLabel::MatchArm(id, i as usize);
    arm_layout(id, count, all_return, i);
    search_passes_arms(id, count, all_return, label, 0, i);
    reveal_with_fuel(entered, 7);
}

proof fn next_is_found(id: usize, count: nat, all_return: bool, i: int)
    requires
        0 <= i,
        i + 1 < count <= usize::MAX,
    ensures
        entered(
            match_steps(id, count, all_return),
            BlockLabel::MatchNext(id, i as usize),
            0,
        ) == Some(base(i + 1) + front(i + 1, count)),
{
    let s = match_steps(id, count, all_return);
    let label = BlockLabel::MatchNext(id, i as usize);
    arm_layout(id, count, all_return, i + 1);
    search_passes_arms(id, count, all_return, label, 0, i + 1);
    reveal_with_fuel(entered, 4);
}

proof fn end_is_found(id: usize, count: nat, all_return: bool)
    requires
        count <= usize::MAX,
    ensures
        entered(match_steps(id, count, all_return), BlockLabel::MatchEnd(id), 0) == Some(
            end_of(count),
        ),
{
    let s = match_steps(id, count, all_return);
    let label = BlockLabel::MatchEnd(id);
    end_layout(id, count, all_return);
    search_passes_arms(id, count, all_return, label, 0, count as int);
    reveal_with_fuel(entered, 3);
}

/// Where a match ends up behind its arms.
spec fn outcome(w: World, guards: Seq<bool>, trace: Seq<Event>, i: int, var: crate::codegen::meaning::Value) -> (Place, Seq<Event>) {
    let (seen, chosen) = arms_from(w, guards, trace, i);
    if !chosen {
        (Place::At(end_of(guards.len()) + 1), seen)
    } else {
        (
            if w.left_by(Part::Body, seen) {
                Place::Left
            } else {
                Place::At(end_of(guards.len()) + 1)
            },
            seen.push(Event::Ran(Part::Body, var)),
        )
    }
}

proof fn arms_go_on(
    id: usize,
    guards: Seq<bool>,
    all_return: bool,
    w: World,
    m: Machine,
    i: int,
)
    requires
        is_match(w, id, guards),
        0 <= i < guards.len(),
        m.place == Place::At(base(i) + front(i, guards.len()) + 1),
    ensures
        ({
            let steps = match_steps(id, guards.len(), all_return);
            let (place, trace) = outcome(w, guards, m.trace, i, m.slots[Reg::VarSlot]);
            match_comes_to(m, steps, w, place, trace)
        }),
    decreases guards.len() - i,
{
    reveal(Machine::does);
    let count = guards.len();
    let steps = match_steps(id, count, all_return);
    let at = base(i) + front(i, count);
    let n = i as usize;
    let var = m.slots[Reg::VarSlot];
    let (place, trace) = outcome(w, guards, m.trace, i, var);
    arm_layout(id, count, all_return, i);
    arm_is_found(id, count, all_return, i);
    end_is_found(id, count, all_return);
    if i + 1 < count {
        next_is_found(id, count, all_return, i);
    }
    no_act(m, steps, w);
    plain_act(m, steps, w, 0, at + 1, steps[at + 1]);
    branch_act(
        m,
        steps,
        w,
        1,
        at + 2,
        BlockLabel::MatchArm(id, n),
        label_behind(id, i, count),
    );
    let two = acts_on(m, steps, w, 2);
    let tested = m.trace.push(Event::Tested(n, (w.test)(n)));
    assert(two.trace == tested);
    assert(two.slots == m.slots);
    if !(w.test)(n) {
        if i + 1 < count {
            arms_go_on(id, guards, all_return, w, two, i + 1);
            match_comes_on(m, steps, w, 2, place, trace);
        } else {
            assert(arms_from(w, guards, tested, i + 1) == (tested, false));
        }
    } else {
        plain_act(m, steps, w, 2, at + 4, steps[at + 4]);
        plain_act(m, steps, w, 3, at + 5, steps[at + 5]);
        one_act(m, steps, w, 4);
        let four = acts_on(m, steps, w, 4);
        let bound = tested.push(Event::Bound(n));
        assert(four.trace == bound);
        assert(four.place == Place::At(at + 6));
        assert(w.arm_at(i as usize) == guard_and_body(id, i, count, guards[i]));
        guard_decides_about_the_body(id, i, count, guards[i], w, four.at(Place::At(0)));
        let five = acts_on(m, steps, w, 5);
        let g = w.value(Part::Guard, bound);
        if guards[i] && !holds(g) {
            if i + 1 < count {
                arms_go_on(id, guards, all_return, w, five, i + 1);
                match_comes_on(m, steps, w, 5, place, trace);
            } else {
                let guarded = bound.push(Event::Evaluated(Part::Guard, g));
                assert(arms_from(w, guards, guarded, i + 1) == (guarded, false));
                assert(five.place == place && five.trace == trace);
            }
        } else {
            assert(five.place == place && five.trace == trace);
        }
    }
}

/// A match tests its arms in their order, and runs the body of the first whose
/// pattern matches and whose guard, if it has one, holds. That body runs once,
/// behind the bindings of its own pattern, and no other body runs; behind it the
/// match is over. Where no arm is chosen, no body runs.
pub proof fn first_fitting_arm_runs(
    id: usize,
    guards: Seq<bool>,
    all_return: bool,
    w: World,
    m: Machine,
)
    requires
        is_match(w, id, guards),
        guards.len() > 0,
        m.place == Place::At(0),
    ensures
        ({
            let steps = match_steps(id, guards.len(), all_return);
            let behind = if all_return {
                steps.len() - 1
            } else {
                steps.len() as int
            };
            let (seen, chosen) = arms_from(w, guards, m.trace, 0);
            if chosen {
                match_comes_to(
                    m,
                    steps,
                    w,
                    if w.left_by(Part::Body, seen) {
                        Place::Left
                    } else {
                        Place::At(behind)
                    },
                    seen.push(Event::Ran(Part::Body, m.slots[Reg::VarSlot])),
                )
            } else {
                match_comes_to(m, steps, w, Place::At(behind), seen)
            }
        }),
{
    reveal(Machine::does);
    let count = guards.len();
    let steps = match_steps(id, count, all_return);
    arm_layout(id, count, all_return, 0);
    arms_layout(id, count as int, count);
    let f = front(0, count);
    no_act(m, steps, w);
    plain_act(m, steps, w, 0, 0, steps[0]);
    plain_act(m, steps, w, 1, 1, steps[1]);
    if f == 2 {
        plain_act(m, steps, w, 2, 2, steps[2]);
    }
    let k = (1 + f) as nat;
    entry_act(m, steps, w, k, 1 + f);
    let next = acts_on(m, steps, w, k + 1);
    arms_go_on(id, guards, all_return, w, next, 0);
    let (place, trace) = outcome(w, guards, m.trace, 0, m.slots[Reg::VarSlot]);
    match_comes_on(m, steps, w, k + 1, place, trace);
}

} // verus!
