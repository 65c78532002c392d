//! What generated steps do when the program runs.
//!
//! A machine carries out the steps of a statement one by one. Registers and
//! slots hold values, and a trace records what the program has evaluated and
//! which statements have run. What expressions yield and whether statements
//! leave their function is the world's to say.

use crate::codegen::steps::{BlockLabel, Comparison, Part, Reg, SlotName, Step};
use vstd::prelude::*;

verus! {

/// What registers and slots hold. Numbers stand for integers, characters and
/// truth values too.
pub enum Value {
    Num(int),
    /// A float that is not a number.
    NotANumber,
    Text(Seq<char>),
    Items(Seq<Value>),
    /// An enum: the place of its variant, and its payload.
    Variant(int, Seq<Value>),
    /// A built-in enum: its name, the place and the name of its variant, and its
    /// payload.
    Built(Seq<char>, int, Seq<char>, Seq<Value>),
    Nothing,
}

/// What a program is seen to do.
pub enum Event {
    Evaluated(Part, Value),
    /// Statements run, with what the loop's variable holds then.
    Ran(Part, Value),
    /// An arm's pattern is tested, with the outcome.
    Tested(usize, bool),
    /// An arm's names are bound.
    Bound(usize),
    /// A check fails, for a predicate.
    Failed(usize),
    Returned(Value),
}

/// What steps leave open.
pub struct World {
    /// What an expression yields, after what has happened so far.
    pub eval: spec_fn(Part, Seq<Event>) -> Value,
    /// Whether statements leave their function or loop.
    pub leaves: spec_fn(Part, Seq<Event>) -> bool,
    /// What statements leave in the loop's variable.
    pub assigned: spec_fn(Part, Seq<Event>) -> Value,
    /// What the constant of a pattern holds.
    pub constant: Value,
    /// Whether an arm's pattern matches.
    pub test: spec_fn(usize) -> bool,
    /// The steps of an arm's guard and body.
    pub arm: spec_fn(usize) -> Seq<Step>,
}

impl World {
    /// What an expression yields, after what has happened so far.
    pub open spec fn value(self, part: Part, trace: Seq<Event>) -> Value {
        (self.eval)(part, trace)
    }

    /// Whether an expression always yields the same value.
    pub open spec fn always(self, part: Part, v: Value) -> bool {
        forall|trace: Seq<Event>| #[trigger] self.value(part, trace) == v
    }

    /// The steps of an arm's guard and body.
    pub open spec fn arm_at(self, i: usize) -> Seq<Step> {
        (self.arm)(i)
    }

    /// Whether statements leave, after what has happened so far.
    pub open spec fn left_by(self, part: Part, trace: Seq<Event>) -> bool {
        (self.leaves)(part, trace)
    }

    /// Whether statements always leave.
    pub open spec fn always_left_by(self, part: Part) -> bool {
        forall|trace: Seq<Event>| #[trigger] self.left_by(part, trace)
    }

    /// Whether statements never leave.
    pub open spec fn never_left_by(self, part: Part) -> bool {
        forall|trace: Seq<Event>| !#[trigger] self.left_by(part, trace)
    }
}

/// Where a machine is: at a step, or behind the last one; at a block that the
/// steps do not hold; outside, because the statement was left; or at a place
/// that no sound program reaches.
pub enum Place {
    At(int),
    Block(BlockLabel),
    Left,
    Stuck,
}

/// A machine: where it is, what its registers and slots hold, the names of its
/// slots with what was stored under each, and what has happened.
pub struct Machine {
    pub place: Place,
    pub regs: Map<Reg, Value>,
    pub slots: Map<Reg, Value>,
    pub names: Map<Reg, SlotName>,
    pub vars: Map<SlotName, Value>,
    pub trace: Seq<Event>,
}

pub open spec fn bit(b: bool) -> Value {
    Value::Num(
        if b {
            1
        } else {
            0
        },
    )
}

/// Whether a value counts as true.
pub open spec fn holds(v: Value) -> bool {
    v != Value::Num(0)
}

pub open spec fn number(v: Value) -> int {
    match v {
        Value::Num(n) => n,
        _ => 0,
    }
}

pub open spec fn items(v: Value) -> Seq<Value> {
    match v {
        Value::Items(s) => s,
        _ => seq![],
    }
}

/// The characters of a text, each as a text of its own.
pub open spec fn characters(v: Value) -> Seq<Value> {
    match v {
        Value::Text(s) => Seq::new(s.len(), |i: int| Value::Text(seq![s[i]])),
        _ => seq![],
    }
}

/// A part of an enum's struct: the place of its variant, and behind it the
/// payload.
pub open spec fn field(v: Value, index: int) -> Value {
    match v {
        Value::Variant(n, payload) => if index == 0 {
            Value::Num(n)
        } else if 0 < index <= payload.len() {
            payload[index - 1]
        } else {
            Value::Nothing
        },
        Value::Built(_, n, _, _) => if index == 0 {
            Value::Num(n)
        } else {
            Value::Nothing
        },
        _ => Value::Nothing,
    }
}

/// The payload of a built-in enum, where it has the variant.
pub open spec fn payload(v: Value, variant: Seq<char>) -> Value {
    match v {
        Value::Built(_, _, of, payload) => if of == variant && payload.len() > 0 {
            payload[0]
        } else {
            Value::Nothing
        },
        _ => Value::Nothing,
    }
}

/// A built-in enum of a name, as the runtime hands its payload out.
pub open spec fn payload_of(v: Value, name: Seq<char>) -> Value {
    match v {
        Value::Built(of, _, _, _) => if of == name {
            v
        } else {
            Value::Nothing
        },
        _ => Value::Nothing,
    }
}

pub open spec fn compared(by: Comparison, a: Value, b: Value) -> bool {
    match by {
        Comparison::Equal => a == b,
        Comparison::OrderedEqual => a == b && a != Value::NotANumber,
        Comparison::SignedLess => number(a) < number(b),
        Comparison::SignedAtLeast => number(a) >= number(b),
    }
}

/// What the runtime's functions of one argument yield.
pub open spec fn called1(function: Seq<char>, a: Value) -> Value {
    if function == "mux_value_list_length"@ {
        Value::Num(items(a).len() as int)
    } else if function == "mux_string_to_list"@ {
        Value::Items(characters(a))
    } else if function == "mux_optional_data"@ {
        payload_of(a, "optional"@)
    } else if function == "mux_result_data"@ {
        payload_of(a, "result"@)
    } else {
        a
    }
}

/// What the runtime's functions of two arguments yield.
pub open spec fn called2(function: Seq<char>, a: Value, b: Value) -> Value {
    if function == "mux_string_equal"@ || function == "mux_value_equal"@ {
        bit(a == b)
    } else if function == "mux_value_list_get_value"@ && 0 <= number(b) < items(a).len() {
        items(a)[number(b)]
    } else {
        Value::Nothing
    }
}

/// What the runtime's functions of three arguments yield.
pub open spec fn called3(function: Seq<char>, a: Value, b: Value, c: Value) -> Value {
    if function == "mux_value_list_slice"@ && 0 <= number(b) <= number(c) <= items(a).len() {
        Value::Items(items(a).subrange(number(b), number(c)))
    } else {
        Value::Nothing
    }
}

/// Where a block is entered, from a step on.
pub open spec fn entered(steps: Seq<Step>, label: BlockLabel, i: int) -> Option<int>
    decreases steps.len() - i,
{
    if i < 0 || i >= steps.len() {
        None
    } else if steps[i] == Step::Enter(label) {
        Some(i)
    } else {
        entered(steps, label, i + 1)
    }
}

/// Where a jump to a block leads.
pub open spec fn target(steps: Seq<Step>, label: BlockLabel) -> Place {
    match entered(steps, label, 0) {
        Some(i) => Place::At(i + 1),
        None => Place::Block(label),
    }
}

impl Machine {
    pub open spec fn read(self, r: Reg) -> Value {
        match r {
            Reg::Number(n) => Value::Num(n as int),
            Reg::True => Value::Num(1),
            _ => self.regs[r],
        }
    }

    pub open spec fn at(self, place: Place) -> Machine {
        Machine { place, ..self }
    }

    pub open spec fn give(self, r: Reg, v: Value) -> Machine {
        Machine { regs: self.regs.insert(r, v), ..self }
    }

    pub open spec fn keep(self, slot: Reg, v: Value) -> Machine {
        Machine { slots: self.slots.insert(slot, v), ..self }
    }

    /// A slot takes a value. Where its address is handed on, that stands for what
    /// the slot holds.
    pub open spec fn put(self, slot: Reg, v: Value) -> Machine {
        self.give(slot, v).keep(slot, v)
    }

    /// A slot gets its name, and holds nothing yet.
    pub open spec fn allot(self, slot: Reg, name: SlotName) -> Machine {
        Machine { names: self.names.insert(slot, name), ..self.put(slot, Value::Nothing) }
    }

    /// A value is stored in a slot, and under the slot's name.
    pub open spec fn store(self, slot: Reg, v: Value) -> Machine {
        Machine { vars: self.vars.insert(self.names[slot], v), ..self.put(slot, v) }
    }

    pub open spec fn show(self, e: Event) -> Machine {
        Machine { trace: self.trace.push(e), ..self }
    }

    /// What a machine does in a step that leads to the one behind it.
    #[verifier::opaque]
    pub open spec fn does(self, w: World, s: Step) -> Machine {
        match s {
            Step::Evaluate { part, into } => {
                let v = w.value(part, self.trace);
                self.give(into, v).show(Event::Evaluated(part, v))
            },
            Step::LoadConstant { into } => self.give(into, w.constant),
            Step::Zero { into } => self.give(into, Value::Num(0)),
            Step::AllocateAtEntry { storage, name, into } => self.allot(into, name),
            Step::Allocate { storage, name, into } => self.allot(into, name),
            Step::AllocateCell { into } => self.allot(into, SlotName::Declared),
            Step::Store { value, to } => self.store(to, self.read(value)),
            Step::StoreStruct { value, to, release } => self.store(to, self.read(value)),
            Step::Overwrite { slot, storage, value } => self.store(slot, self.read(value)),
            Step::Load { storage, from, name, into } => self.give(into, self.slots[from]),
            Step::Coerce { value, storage, into } => self.give(into, self.read(value)),
            Step::BoxOwned { value, into } => self.give(into, self.read(value)),
            Step::Box { value, into } => self.give(into, self.read(value)),
            Step::Point { value, into } => self.put(into, self.read(value)),
            Step::Raw { kind, value, into } => self.give(into, self.read(value)),
            Step::Text { value, into } => self.give(into, self.read(value)),
            Step::Clone { value, into } => self.give(into, self.read(value)),
            Step::Inline { value, into } => self.give(into, self.read(value)),
            Step::Truncate { value, name, into } => self.give(into, self.read(value)),
            Step::Call1 { function, arg, name, into } => self.put(
                into,
                called1(function@, self.read(arg)),
            ),
            Step::Call2 { function, left, right, name, into } => self.give(
                into,
                called2(function@, self.read(left), self.read(right)),
            ),
            Step::Call3 { function, first, second, third, name, into } => self.give(
                into,
                called3(function@, self.read(first), self.read(second), self.read(third)),
            ),
            Step::NonZero { value, into } => self.give(into, bit(holds(self.read(value)))),
            Step::Compare { by, left, right, name, into } => self.give(
                into,
                bit(compared(by, self.read(left), self.read(right))),
            ),
            Step::And { left, right, name, into } => self.give(
                into,
                bit(holds(self.read(left)) && holds(self.read(right))),
            ),
            Step::Add { left, right, name, into } => self.give(
                into,
                Value::Num(number(self.read(left)) + number(self.read(right))),
            ),
            Step::LoadDiscriminant { of, into } => self.give(into, field(self.read(of), 0)),
            Step::IsVariant { index, into } => self.give(
                into,
                bit(self.read(Reg::Discriminant) == Value::Num(index as int)),
            ),
            Step::FieldPointer { of, index, name, into } => self.put(
                into,
                field(self.slots[of], index as int),
            ),
            Step::Extract { of, variant, into } => self.give(
                into,
                payload(self.read(of), variant@),
            ),
            Step::TestArm(i) => self.give(Reg::Condition, bit((w.test)(i))).show(
                Event::Tested(i, (w.test)(i)),
            ),
            Step::BindArm(i) => self.show(Event::Bound(i)),
            _ => self,
        }
    }

    /// One step, at a place in the steps.
    #[verifier::opaque]
    pub open spec fn performs(self, steps: Seq<Step>, w: World, p: int) -> Machine {
        match steps[p] {
            Step::Statements(part) => {
                let after = self.show(Event::Ran(part, self.slots[Reg::VarSlot])).keep(
                    Reg::VarSlot,
                    (w.assigned)(part, self.trace),
                );
                if w.left_by(part, self.trace) {
                    after.at(Place::Left)
                } else {
                    after.at(Place::At(p + 1))
                }
            },
            Step::Jump(label) => self.at(target(steps, label)),
            Step::JumpIfOpen(label) => self.at(target(steps, label)),
            Step::Branch { condition, yes, no } => self.at(
                if holds(self.read(condition)) {
                    target(steps, yes)
                } else {
                    target(steps, no)
                },
            ),
            // A block that is not over does not run on into the next one; only the
            // block that was reached before goes on.
            Step::Enter(label) => if label == BlockLabel::Entry {
                self.at(Place::At(p + 1))
            } else {
                self.at(Place::Stuck)
            },
            Step::UnreachableIfOpen => self.at(Place::Stuck),
            Step::Return(r) => self.show(Event::Returned(self.read(r))).at(Place::Left),
            Step::ReturnBool(b) => self.show(Event::Returned(bit(b))).at(Place::Left),
            Step::ReturnNothing => self.show(Event::Returned(Value::Nothing)).at(Place::Left),
            Step::Fatal { message, predicate, site, check } => self.show(
                Event::Failed(predicate),
            ).at(Place::Left),
            s => self.does(w, s).at(Place::At(p + 1)),
        }
    }

    /// One step, where there is one to do.
    pub open spec fn moves(self, steps: Seq<Step>, w: World) -> Machine {
        match self.place {
            Place::At(p) => if 0 <= p < steps.len() {
                self.performs(steps, w, p)
            } else {
                self
            },
            _ => self,
        }
    }

    /// Some steps.
    #[verifier::opaque]
    pub open spec fn runs(self, steps: Seq<Step>, w: World, n: nat) -> Machine
        decreases n,
    {
        if n == 0 {
            self
        } else {
            self.moves(steps, w).runs(steps, w, (n - 1) as nat)
        }
    }
}

/// Whether a machine comes to a place, with a trace.
pub open spec fn comes_to(
    m: Machine,
    steps: Seq<Step>,
    w: World,
    place: Place,
    trace: Seq<Event>,
) -> bool {
    exists|n: nat|
        {
            let after = #[trigger] m.runs(steps, w, n);
            after.place == place && after.trace == trace
        }
}

/// Steps are carried out one after the other.
pub proof fn runs_add(m: Machine, steps: Seq<Step>, w: World, a: nat, b: nat)
    ensures
        m.runs(steps, w, a).runs(steps, w, b) == m.runs(steps, w, a + b),
    decreases a,
{
    reveal_with_fuel(Machine::runs, 2);
    if a > 0 {
        runs_add(m.moves(steps, w), steps, w, (a - 1) as nat, b);
    }
}

/// Whether a step leads to the one behind it.
pub open spec fn leads_on(s: Step) -> bool {
    match s {
        Step::Statements(_)
        | Step::Jump(_)
        | Step::JumpIfOpen(_)
        | Step::Branch { .. }
        | Step::Enter(_)
        | Step::UnreachableIfOpen
        | Step::Return(_)
        | Step::ReturnBool(_)
        | Step::ReturnNothing
        | Step::Fatal { .. } => false,
        _ => true,
    }
}

/// One more step.
pub proof fn one_more(m: Machine, steps: Seq<Step>, w: World, n: nat)
    ensures
        m.runs(steps, w, n + 1) == m.runs(steps, w, n).moves(steps, w),
{
    let after = m.runs(steps, w, n);
    runs_add(m, steps, w, n, 1);
    reveal_with_fuel(Machine::runs, 3);
}

/// No step at all.
pub proof fn none_yet(m: Machine, steps: Seq<Step>, w: World)
    ensures
        m.runs(steps, w, 0) == m,
{
    reveal(Machine::runs);
}

/// A step that leads to the one behind it.
pub proof fn plain_step(m: Machine, steps: Seq<Step>, w: World, n: nat, p: int, s: Step)
    requires
        m.runs(steps, w, n).place == Place::At(p),
        0 <= p < steps.len(),
        steps[p] == s,
        leads_on(s),
    ensures
        m.runs(steps, w, n + 1) == m.runs(steps, w, n).does(w, s).at(Place::At(p + 1)),
{
    reveal(Machine::performs);
    one_more(m, steps, w, n);
}

/// A branch.
pub proof fn branch_step(
    m: Machine,
    steps: Seq<Step>,
    w: World,
    n: nat,
    p: int,
    condition: Reg,
    yes: BlockLabel,
    no: BlockLabel,
)
    requires
        m.runs(steps, w, n).place == Place::At(p),
        0 <= p < steps.len(),
        steps[p] == (Step::Branch { condition, yes, no }),
    ensures
        m.runs(steps, w, n + 1) == m.runs(steps, w, n).at(
            if holds(m.runs(steps, w, n).read(condition)) {
                target(steps, yes)
            } else {
                target(steps, no)
            },
        ),
{
    reveal(Machine::performs);
    one_more(m, steps, w, n);
}

/// A jump.
pub proof fn jump_step(
    m: Machine,
    steps: Seq<Step>,
    w: World,
    n: nat,
    p: int,
    label: BlockLabel,
)
    requires
        m.runs(steps, w, n).place == Place::At(p),
        0 <= p < steps.len(),
        steps[p] == Step::Jump(label) || steps[p] == Step::JumpIfOpen(label),
    ensures
        m.runs(steps, w, n + 1) == m.runs(steps, w, n).at(target(steps, label)),
{
    reveal(Machine::performs);
    one_more(m, steps, w, n);
}

/// Statements that run.
pub proof fn statements_step(m: Machine, steps: Seq<Step>, w: World, n: nat, p: int, part: Part)
    requires
        m.runs(steps, w, n).place == Place::At(p),
        0 <= p < steps.len(),
        steps[p] == Step::Statements(part),
    ensures
        ({
            let before = m.runs(steps, w, n);
            m.runs(steps, w, n + 1) == before.show(
                Event::Ran(part, before.slots[Reg::VarSlot]),
            ).keep(Reg::VarSlot, (w.assigned)(part, before.trace)).at(
                if w.left_by(part, before.trace) {
                    Place::Left
                } else {
                    Place::At(p + 1)
                },
            )
        }),
{
    reveal(Machine::performs);
    one_more(m, steps, w, n);
}

/// A machine that comes on from where another came to.
pub proof fn comes_on(
    m: Machine,
    steps: Seq<Step>,
    w: World,
    n: nat,
    place: Place,
    trace: Seq<Event>,
)
    requires
        comes_to(m.runs(steps, w, n), steps, w, place, trace),
    ensures
        comes_to(m, steps, w, place, trace),
{
    let k = choose|k: nat|
        {
            let after = #[trigger] m.runs(steps, w, n).runs(steps, w, k);
            after.place == place && after.trace == trace
        };
    runs_add(m, steps, w, n, k);
    assert(m.runs(steps, w, n + k).place == place);
}

/// A block is found where it is entered first.
pub proof fn entered_at(steps: Seq<Step>, label: BlockLabel, i: int, k: int)
    requires
        0 <= i <= k < steps.len(),
        steps[k] == Step::Enter(label),
        forall|j: int| i <= j < k ==> #[trigger] steps[j] != Step::Enter(label),
    ensures
        entered(steps, label, i) == Some(k),
    decreases k - i,
{
    if i < k {
        entered_at(steps, label, i + 1, k);
    }
}

/// A block that is not entered is not found.
pub proof fn never_entered(steps: Seq<Step>, label: BlockLabel, i: int)
    requires
        0 <= i,
        forall|j: int| i <= j < steps.len() ==> #[trigger] steps[j] != Step::Enter(label),
    ensures
        entered(steps, label, i) is None,
    decreases steps.len() - i,
{
    if i < steps.len() {
        never_entered(steps, label, i + 1);
    }
}

/// What steps without branches do, one after the other.
pub open spec fn carried_out(m: Machine, w: World, steps: Seq<Step>) -> Machine
    decreases steps.len(),
{
    if steps.len() == 0 {
        m
    } else {
        carried_out(m, w, steps.drop_last()).does(w, steps.last())
    }
}

/// One more step is carried out.
pub proof fn carried_on(m: Machine, w: World, steps: Seq<Step>, n: int)
    requires
        0 <= n < steps.len(),
    ensures
        carried_out(m, w, steps.take(n + 1)) == carried_out(m, w, steps.take(n)).does(
            w,
            steps[n],
        ),
        n == 0 ==> carried_out(m, w, steps.take(n)) == m,
        n + 1 == steps.len() ==> carried_out(m, w, steps) == carried_out(m, w, steps.take(n + 1)),
{
    assert(steps.take(n + 1).drop_last() =~= steps.take(n));
    if n + 1 == steps.len() {
        assert(steps.take(n + 1) =~= steps);
    }
}

/// Steps none of which branches.
pub open spec fn is_straight(steps: Seq<Step>) -> bool {
    forall|i: int| 0 <= i < steps.len() ==> leads_on(#[trigger] steps[i])
}

proof fn does_keeps_place(m: Machine, w: World, s: Step, place: Place)
    ensures
        m.at(place).does(w, s) == m.does(w, s).at(place),
{
    reveal(Machine::does);
}

/// Steps without branches are carried out from the first to the last.
pub proof fn straight_steps_run(m: Machine, w: World, steps: Seq<Step>, n: nat)
    requires
        m.place == Place::At(0),
        n <= steps.len(),
        forall|i: int| 0 <= i < n ==> leads_on(#[trigger] steps[i]),
    ensures
        m.runs(steps, w, n) == carried_out(m, w, steps.take(n as int)).at(Place::At(n as int)),
    decreases n,
{
    if n == 0 {
        none_yet(m, steps, w);
        assert(steps.take(0).len() == 0);
    } else {
        let k = (n - 1) as nat;
        straight_steps_run(m, w, steps, k);
        plain_step(m, steps, w, k, k as int, steps[k as int]);
        assert(steps.take(n as int).drop_last() =~= steps.take(k as int));
        let before = carried_out(m, w, steps.take(k as int));
        does_keeps_place(before, w, steps[k as int], Place::At(k as int));
    }
}

/// Steps without branches that end with a return give the value back.
pub proof fn returns_at_the_end(m: Machine, w: World, steps: Seq<Step>, r: Reg)
    requires
        m.place == Place::At(0),
        steps.len() > 0,
        steps.last() == Step::Return(r),
        is_straight(steps.drop_last()),
    ensures
        ({
            let before = carried_out(m, w, steps.drop_last());
            let after = m.runs(steps, w, steps.len());
            &&& after.place == Place::Left
            &&& after.trace == before.trace.push(Event::Returned(before.read(r)))
        }),
{
    let n = (steps.len() - 1) as nat;
    assert forall|i: int| 0 <= i < n implies leads_on(#[trigger] steps[i]) by {
        assert(steps.drop_last()[i] == steps[i]);
    }
    straight_steps_run(m, w, steps, n);
    assert(steps.take(n as int) =~= steps.drop_last());
    one_more(m, steps, w, n);
    reveal(Machine::performs);
}

/// Steps behind others are carried out behind them.
pub proof fn carried_out_adds(m: Machine, w: World, a: Seq<Step>, b: Seq<Step>)
    ensures
        carried_out(m, w, a + b) == carried_out(carried_out(m, w, a), w, b),
    decreases b.len(),
{
    if b.len() == 0 {
        assert(a + b =~= a);
    } else {
        assert((a + b).drop_last() =~= a + b.drop_last());
        carried_out_adds(m, w, a, b.drop_last());
    }
}

/// What the runtime's functions on lists and strings yield.
pub proof fn runtime_functions(a: Value, b: Value, c: Value)
    ensures
        called1("mux_value_list_length"@, a) == Value::Num(items(a).len() as int),
        called1("mux_string_to_list"@, a) == Value::Items(characters(a)),
        called1("mux_optional_data"@, a) == payload_of(a, "optional"@),
        called1("mux_result_data"@, a) == payload_of(a, "result"@),
        called1("mux_value_unbox_enum"@, a) == a,
        called1("mux_value_get_bool"@, a) == a,
        called2("mux_string_equal"@, a, b) == bit(a == b),
        called2("mux_value_equal"@, a, b) == bit(a == b),
        0 <= number(b) < items(a).len() ==> called2("mux_value_list_get_value"@, a, b) == items(
            a,
        )[number(b)],
        0 <= number(b) <= number(c) <= items(a).len() ==> called3(
            "mux_value_list_slice"@,
            a,
            b,
            c,
        ) == Value::Items(items(a).subrange(number(b), number(c))),
{
    reveal_strlit("mux_value_list_length");
    reveal_strlit("mux_string_to_list");
    reveal_strlit("mux_optional_data");
    reveal_strlit("mux_result_data");
    reveal_strlit("mux_value_unbox_enum");
    reveal_strlit("mux_value_get_bool");
    assert("mux_value_get_bool"@[4] == 'v');
    assert("mux_string_to_list"@[4] == 's');
    reveal_strlit("mux_string_equal");
    reveal_strlit("mux_value_equal");
    reveal_strlit("mux_value_list_get_value");
    assert("mux_value_list_length"@.len() == 21);
    assert("mux_string_to_list"@.len() == 18);
    assert("mux_optional_data"@.len() == 17);
    assert("mux_result_data"@.len() == 15);
    assert("mux_value_unbox_enum"@.len() == 20);
    assert("mux_string_equal"@.len() == 16);
    assert("mux_value_equal"@.len() == 15);
    assert("mux_value_list_get_value"@.len() == 24);
}

} // verus!
