//! What declarations, returns and checks do when the program runs.

use crate::codegen::declare::{evaluated, Initial};
use crate::codegen::generator::CodeGenerator;
use crate::codegen::meaning::{
    branch_step, carried_on, carried_out, carried_out_adds, comes_on, comes_to, entered, holds,
    is_straight, none_yet, one_more, plain_step, returns_at_the_end, runtime_functions, Event,
    Machine, Place, Value, World,
};
use crate::codegen::returning::typed_return;
use crate::codegen::steps::{BlockLabel, CheckSite, Part, Reg, SlotName, Step, Storage, ValueKind};
use crate::codegen::where_clause::{check_steps, checks_at};
use crate::semantics::types::TypeTerm;
use vstd::prelude::*;

verus! {

/// A declaration gives the name the value that it is declared with, whether the
/// name gets a slot of its own or has one already. The name's existing slot is
/// the one that goes by the declared name.
pub proof fn declared_name_holds_the_value(
    g: &CodeGenerator,
    name: Seq<char>,
    t: TypeTerm,
    init: Initial,
    var_type: Storage,
    in_function: bool,
    w: World,
    m: Machine,
)
    requires
        m.names[Reg::Existing] == SlotName::Declared,
    ensures
        ({
            let steps = g.declaration_steps(name, t, init, var_type, in_function);
            let after = carried_out(m, w, steps);
            &&& is_straight(steps)
            &&& after.vars[SlotName::Declared] == m.read(Reg::Value)
            &&& after.trace == m.trace
        }),
{
    reveal(Machine::does);
    let steps = g.declaration_steps(name, t, init, var_type, in_function);
    let n = steps.len() as int;
    assert(1 <= n <= 6);
    carried_on(m, w, steps, 0);
    if n > 1 {
        carried_on(m, w, steps, 1);
    }
    if n > 2 {
        carried_on(m, w, steps, 2);
    }
    if n > 3 {
        carried_on(m, w, steps, 3);
    }
    if n > 4 {
        carried_on(m, w, steps, 4);
    }
    if n > 5 {
        carried_on(m, w, steps, 5);
    }
}

/// A declaration evaluates its value once, and gives it to the name.
pub proof fn declaration_evaluates_once(
    g: &CodeGenerator,
    name: Seq<char>,
    t: TypeTerm,
    init: Initial,
    var_type: Storage,
    in_function: bool,
    w: World,
    m: Machine,
)
    requires
        m.names[Reg::Existing] == SlotName::Declared,
    ensures
        ({
            let steps = evaluated(g.declaration_steps(name, t, init, var_type, in_function));
            let after = carried_out(m, w, steps);
            let v = w.value(Part::Expression, m.trace);
            &&& is_straight(steps)
            &&& after.vars[SlotName::Declared] == v
            &&& after.trace == m.trace.push(Event::Evaluated(Part::Expression, v))
        }),
{
    let front = seq![Step::Evaluate { part: Part::Expression, into: Reg::Value }];
    let back = g.declaration_steps(name, t, init, var_type, in_function);
    carried_out_adds(m, w, front, back);
    let a = carried_out(m, w, front);
    assert(a.names == m.names && a.read(Reg::Value) == w.value(Part::Expression, m.trace)
        && a.trace == m.trace.push(
        Event::Evaluated(Part::Expression, w.value(Part::Expression, m.trace)),
    )) by {
        reveal(Machine::does);
        carried_on(m, w, front, 0);
    }
    declared_name_holds_the_value(g, name, t, init, var_type, in_function, w, a);
    let steps = evaluated(back);
    assert forall|i: int| 0 <= i < steps.len() implies crate::codegen::meaning::leads_on(
        #[trigger] steps[i],
    ) by {
        if i > 0 {
            assert(steps[i] == back[i - 1]);
        }
    }
}

/// A constant's declaration evaluates its value once, and gives it to the name.
pub proof fn constant_holds_its_value(
    g: &CodeGenerator,
    name: Seq<char>,
    t: TypeTerm,
    in_function: bool,
    existing: Option<Storage>,
    w: World,
    m: Machine,
)
    requires
        m.names[Reg::Existing] == SlotName::Declared,
    ensures
        ({
            let steps = evaluated(g.constant_steps(name, t, in_function, existing));
            let after = carried_out(m, w, steps);
            let v = w.value(Part::Expression, m.trace);
            &&& is_straight(steps)
            &&& after.vars[SlotName::Declared] == v
            &&& after.trace == m.trace.push(Event::Evaluated(Part::Expression, v))
        }),
{
    reveal(Machine::does);
    let steps = evaluated(g.constant_steps(name, t, in_function, existing));
    let n = steps.len() as int;
    assert(3 <= n <= 6);
    carried_on(m, w, steps, 0);
    carried_on(m, w, steps, 1);
    carried_on(m, w, steps, 2);
    if n > 3 {
        carried_on(m, w, steps, 3);
    }
    if n > 4 {
        carried_on(m, w, steps, 4);
    }
    if n > 5 {
        carried_on(m, w, steps, 5);
    }
}

/// The register that a return gives back.
spec fn returned_reg(steps: Seq<Step>) -> Reg {
    steps.last()->Return_0
}

proof fn typed_return_shape(
    t: TypeTerm,
    user_enum: bool,
    rhs_owned: bool,
    kind: ValueKind,
    w: World,
    m: Machine,
)
    requires
        typed_return(t, user_enum, rhs_owned, kind) is Ok,
    ensures
        ({
            let steps = typed_return(t, user_enum, rhs_owned, kind)->Ok_0;
            let front = steps.drop_last();
            let before = carried_out(m, w, front);
            &&& steps.len() > 0
            &&& steps.last() is Return
            &&& is_straight(front)
            &&& before.read(returned_reg(steps)) == m.read(Reg::Value)
            &&& before.trace == m.trace
        }),
{
    reveal(Machine::does);
    let steps = typed_return(t, user_enum, rhs_owned, kind)->Ok_0;
    let n = steps.len() as int;
    assert(2 <= n <= 4);
    let front = steps.drop_last();
    runtime_functions(m.read(Reg::Value), Value::Nothing, Value::Nothing);
    carried_on(m, w, front, 0);
    if n > 2 {
        carried_on(m, w, front, 1);
    }
    if n > 3 {
        carried_on(m, w, front, 2);
    }
}

/// A return gives back the value that was evaluated, once, and leaves the
/// function, whatever the function's return type is.
pub proof fn return_gives_the_value_back(
    g: &CodeGenerator,
    user_enum: bool,
    rhs_owned: bool,
    kind: ValueKind,
    w: World,
    m: Machine,
)
    requires
        m.place == Place::At(0),
        g.value_return(user_enum, rhs_owned, kind) is Ok,
    ensures
        ({
            let steps = g.value_return(user_enum, rhs_owned, kind)->Ok_0;
            comes_to(
                m,
                steps,
                w,
                Place::Left,
                m.trace.push(Event::Returned(m.read(Reg::Value))),
            )
        }),
{
    let steps = g.value_return(user_enum, rhs_owned, kind)->Ok_0;
    let v = m.read(Reg::Value);
    match g.current_function_return_type {
        Some(t) => {
            let first = seq![Step::Inline { value: Reg::Value, into: Reg::Value }];
            let rest = typed_return(t.term(), user_enum, rhs_owned, kind)->Ok_0;
            let a = carried_out(m, w, first);
            assert(a.read(Reg::Value) == v && a.trace == m.trace) by {
                reveal(Machine::does);
                carried_on(m, w, first, 0);
            }
            typed_return_shape(t.term(), user_enum, rhs_owned, kind, w, a);
            carried_out_adds(m, w, first, rest.drop_last());
            assert(steps.drop_last() =~= first + rest.drop_last());
            assert(steps.last() == rest.last());
            assert forall|i: int| 0 <= i < steps.drop_last().len() implies
                crate::codegen::meaning::leads_on(#[trigger] steps.drop_last()[i]) by {
                if i > 0 {
                    assert(steps.drop_last()[i] == rest.drop_last()[i - 1]);
                }
            }
            returns_at_the_end(m, w, steps, returned_reg(rest));
        },
        None => {
            reveal(Machine::does);
            let front = steps.drop_last();
            assert(steps.len() == 4);
            carried_on(m, w, front, 0);
            carried_on(m, w, front, 1);
            carried_on(m, w, front, 2);
            returns_at_the_end(m, w, steps, Reg::Stored);
        },
    }
    assert(m.runs(steps, w, steps.len()).place == Place::Left);
}

/// What happens when predicates are checked from one on: each that is not known
/// to be true is evaluated, in their order, and the first that does not hold
/// ends the program.
pub open spec fn checked_from(
    w: World,
    known: Seq<bool>,
    places: Seq<usize>,
    trace: Seq<Event>,
    k: int,
) -> (Seq<Event>, bool)
    decreases places.len() - k,
{
    if k < 0 || k >= places.len() {
        (trace, true)
    } else if known[places[k] as int] {
        checked_from(w, known, places, trace, k + 1)
    } else {
        let part = Part::Predicate(places[k]);
        let v = w.value(part, trace);
        let seen = trace.push(Event::Evaluated(part, v));
        if holds(v) {
            checked_from(w, known, places, seen, k + 1)
        } else {
            (seen.push(Event::Failed(places[k])), false)
        }
    }
}

/// Where a check starts.
spec fn start_of(known: Seq<bool>, places: Seq<usize>, site: CheckSite, k: int) -> int {
    checks_at(known, places, site, k).len() as int
}

proof fn checks_start_alike(known: Seq<bool>, places: Seq<usize>, site: CheckSite, k: int, n: int)
    requires
        0 <= k <= n <= places.len(),
    ensures
        start_of(known, places, site, k) <= start_of(known, places, site, n),
        forall|i: int|
            0 <= i < start_of(known, places, site, k) ==> #[trigger] checks_at(
                known,
                places,
                site,
                n,
            )[i] == checks_at(known, places, site, k)[i],
    decreases n - k,
{
    if k < n {
        checks_start_alike(known, places, site, k, n - 1);
    }
}

/// A check stands where it starts.
proof fn check_layout(known: Seq<bool>, places: Seq<usize>, site: CheckSite, k: int)
    requires
        0 <= k < places.len() <= usize::MAX,
    ensures
        ({
            let s = checks_at(known, places, site, places.len() as int);
            let b = start_of(known, places, site, k);
            let one = check_steps(site, k as usize, places[k]);
            if known[places[k] as int] {
                start_of(known, places, site, k + 1) == b
            } else {
                &&& start_of(known, places, site, k + 1) == b + 8
                &&& b + 8 <= s.len()
                &&& s[b] == one[0]
                &&& s[b + 1] == one[1]
                &&& s[b + 2] == one[2]
                &&& s[b + 3] == one[3]
                &&& s[b + 4] == one[4]
                &&& s[b + 5] == one[5]
                &&& s[b + 6] == one[6]
                &&& s[b + 7] == one[7]
            }
        }),
{
    let n = places.len() as int;
    let s = checks_at(known, places, site, n);
    let b = start_of(known, places, site, k);
    let next = checks_at(known, places, site, k + 1);
    checks_start_alike(known, places, site, k + 1, n);
    if !known[places[k] as int] {
        let one = check_steps(site, k as usize, places[k]);
        assert(next == checks_at(known, places, site, k) + one);
        assert forall|j: int| 0 <= j < 8 implies s[b + j] == #[trigger] one[j] by {
            assert(s[b + j] == next[b + j]);
        }
        assert(s[b + 0] == one[0]);
        assert(s[b + 1] == one[1]);
        assert(s[b + 2] == one[2]);
        assert(s[b + 3] == one[3]);
        assert(s[b + 4] == one[4]);
        assert(s[b + 5] == one[5]);
        assert(s[b + 6] == one[6]);
        assert(s[b + 7] == one[7]);
    }
}

proof fn search_passes_checks(
    known: Seq<bool>,
    places: Seq<usize>,
    site: CheckSite,
    label: BlockLabel,
    a: int,
    b: int,
)
    requires
        0 <= a <= b < places.len() <= usize::MAX,
        label == BlockLabel::CheckFail(site, b as usize) || label == BlockLabel::CheckOk(
            site,
            b as usize,
        ),
    ensures
        ({
            let s = checks_at(known, places, site, places.len() as int);
            entered(s, label, start_of(known, places, site, a)) == entered(
                s,
                label,
                start_of(known, places, site, b),
            )
        }),
    decreases b - a,
{
    if a < b {
        check_layout(known, places, site, a);
        reveal_with_fuel(entered, 9);
        search_passes_checks(known, places, site, label, a + 1, b);
    }
}

proof fn checks_go_on(
    known: Seq<bool>,
    places: Seq<usize>,
    site: CheckSite,
    w: World,
    m: Machine,
    k: int,
)
    requires
        0 <= k <= places.len() <= usize::MAX,
        m.place == Place::At(start_of(known, places, site, k)),
    ensures
        ({
            let steps = checks_at(known, places, site, places.len() as int);
            let (trace, passed) = checked_from(w, known, places, m.trace, k);
            comes_to(
                m,
                steps,
                w,
                if passed {
                    Place::At(steps.len() as int)
                } else {
                    Place::Left
                },
                trace,
            )
        }),
    decreases places.len() - k,
{
    let n = places.len() as int;
    let steps = checks_at(known, places, site, n);
    let (trace, passed) = checked_from(w, known, places, m.trace, k);
    let place = if passed {
        Place::At(steps.len() as int)
    } else {
        Place::Left
    };
    none_yet(m, steps, w);
    if k < n {
        check_layout(known, places, site, k);
        if known[places[k] as int] {
            checks_go_on(known, places, site, w, m, k + 1);
        } else {
            let b = start_of(known, places, site, k);
            let fail = BlockLabel::CheckFail(site, k as usize);
            let ok = BlockLabel::CheckOk(site, k as usize);
            let part = Part::Predicate(places[k]);
            let v = w.value(part, m.trace);
            search_passes_checks(known, places, site, fail, 0, k);
            search_passes_checks(known, places, site, ok, 0, k);
            assert(entered(steps, fail, b) == Some(b + 5)) by {
                reveal_with_fuel(entered, 9);
            }
            assert(entered(steps, ok, b) == Some(b + 7)) by {
                reveal_with_fuel(entered, 9);
            }
            assert(start_of(known, places, site, 0) == 0);
            reveal(Machine::does);
            plain_step(m, steps, w, 0, b, steps[b]);
            plain_step(m, steps, w, 1, b + 1, steps[b + 1]);
            plain_step(m, steps, w, 2, b + 2, steps[b + 2]);
            plain_step(m, steps, w, 3, b + 3, steps[b + 3]);
            branch_step(m, steps, w, 4, b + 4, Reg::Condition, ok, fail);
            let five = m.runs(steps, w, 5);
            assert(five.trace == m.trace.push(Event::Evaluated(part, v)));
            if holds(v) {
                checks_go_on(known, places, site, w, five, k + 1);
                comes_on(m, steps, w, 5, place, trace);
            } else {
                one_more(m, steps, w, 5);
                reveal(Machine::performs);
                assert(m.runs(steps, w, 6).place == Place::Left);
            }
        }
    }
}

/// Constraints are checked one after the other. The first that does not hold
/// ends the program, and names its predicate; where all hold, the program goes
/// on. Only predicates that are known to be true go unchecked.
pub proof fn constraints_are_enforced(
    known: Seq<bool>,
    places: Seq<usize>,
    site: CheckSite,
    w: World,
    m: Machine,
)
    requires
        places.len() <= usize::MAX,
        m.place == Place::At(0),
    ensures
        ({
            let steps = checks_at(known, places, site, places.len() as int);
            let (trace, passed) = checked_from(w, known, places, m.trace, 0);
            comes_to(
                m,
                steps,
                w,
                if passed {
                    Place::At(steps.len() as int)
                } else {
                    Place::Left
                },
                trace,
            )
        }),
{
    checks_go_on(known, places, site, w, m, 0);
}

} // verus!
