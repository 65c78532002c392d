//! What the tests and bindings of matches do when the program runs.

use crate::ast::nodes::PatternNode;
use crate::ast::PrimitiveType;
use crate::codegen::generator::CodeGenerator;
use crate::codegen::meaning::{
    called2, carried_on, carried_out, carried_out_adds, holds, is_straight, items,
    runtime_functions, Event, Machine, Value, World,
};
use crate::codegen::patterns::{
    bind_element, bind_elements, bind_rest, bind_subject, element_test, element_tests, equality,
    fetch, length_test, list_bindings, list_check, raw_kind, read_constant, rest_name,
    scalar_equality, string_equality, whole_equality,
};
use crate::codegen::steps::{Part, Reg, SlotName, Step};
use crate::semantics::types::TypeTerm;
use vstd::prelude::*;

verus! {

/// The registers that a comparison uses up.
pub open spec fn is_scratch(r: Reg) -> bool {
    match r {
        Reg::Left
        | Reg::Right
        | Reg::LeftRaw
        | Reg::RightRaw
        | Reg::LeftText
        | Reg::RightText
        | Reg::Outcome => true,
        _ => false,
    }
}

/// A register that can take a value.
pub open spec fn takes_value(r: Reg) -> bool {
    !(r is Number) && r != Reg::True
}

/// Whether two values count as equal: a float that is not a number equals
/// nothing.
pub open spec fn equal_as(t: TypeTerm, a: Value, b: Value) -> bool {
    a == b && !(t == TypeTerm::Primitive(PrimitiveType::Float) && a == Value::NotANumber)
}

proof fn scalars_compare(
    t: TypeTerm,
    left: Reg,
    right: Reg,
    into: Reg,
    w: World,
    m: Machine,
)
    requires
        raw_kind(t) is Some,
        !is_scratch(left),
        !is_scratch(right),
        takes_value(into),
        !is_scratch(into),
    ensures
        ({
            let steps = scalar_equality(raw_kind(t)->0, left, right, into);
            let after = carried_out(m, w, steps);
            &&& is_straight(steps)
            &&& holds(after.read(into)) <==> equal_as(t, m.read(left), m.read(right))
            &&& after.trace == m.trace
            &&& after.vars == m.vars
            &&& forall|r: Reg| !is_scratch(r) && r != into ==> #[trigger] after.read(r) == m.read(r)
        }),
{
    reveal(Machine::does);
    let steps = scalar_equality(raw_kind(t)->0, left, right, into);
    assert(steps.len() == 3);
    carried_on(m, w, steps, 0);
    carried_on(m, w, steps, 1);
    carried_on(m, w, steps, 2);
}

proof fn strings_compare(left: Reg, right: Reg, into: Reg, w: World, m: Machine)
    requires
        !is_scratch(left),
        !is_scratch(right),
        takes_value(into),
        !is_scratch(into),
    ensures
        ({
            let steps = string_equality(left, right, into);
            let after = carried_out(m, w, steps);
            &&& is_straight(steps)
            &&& holds(after.read(into)) <==> m.read(left) == m.read(right)
            &&& after.trace == m.trace
            &&& after.vars == m.vars
            &&& forall|r: Reg| !is_scratch(r) && r != into ==> #[trigger] after.read(r) == m.read(r)
        }),
{
    reveal(Machine::does);
    let steps = string_equality(left, right, into);
    runtime_functions(m.read(left), m.read(right), Value::Nothing);
    assert(steps.len() == 8);
    carried_on(m, w, steps, 0);
    carried_on(m, w, steps, 1);
    carried_on(m, w, steps, 2);
    carried_on(m, w, steps, 3);
    carried_on(m, w, steps, 4);
    carried_on(m, w, steps, 5);
    carried_on(m, w, steps, 6);
    carried_on(m, w, steps, 7);
}

proof fn wholes_compare(left: Reg, right: Reg, into: Reg, w: World, m: Machine)
    requires
        !is_scratch(left),
        !is_scratch(right),
        takes_value(into),
        !is_scratch(into),
    ensures
        ({
            let steps = whole_equality(left, right, into);
            let after = carried_out(m, w, steps);
            &&& is_straight(steps)
            &&& holds(after.read(into)) <==> m.read(left) == m.read(right)
            &&& after.trace == m.trace
            &&& after.vars == m.vars
            &&& forall|r: Reg| !is_scratch(r) && r != into ==> #[trigger] after.read(r) == m.read(r)
        }),
{
    reveal(Machine::does);
    let steps = whole_equality(left, right, into);
    runtime_functions(m.read(left), m.read(right), Value::Nothing);
    assert(steps.len() == 4);
    carried_on(m, w, steps, 0);
    carried_on(m, w, steps, 1);
    carried_on(m, w, steps, 2);
    carried_on(m, w, steps, 3);
}

/// A comparison of two values, of whatever type can be compared, leaves a truth
/// value that holds exactly where the values are equal. It happens without a
/// branch, and changes nothing but its result and its own scratch registers.
pub proof fn comparison_tells_equal_values(
    left: Reg,
    right: Reg,
    t: TypeTerm,
    into: Reg,
    w: World,
    m: Machine,
)
    requires
        equality(left, right, t, into) is Ok,
        !is_scratch(left),
        !is_scratch(right),
        takes_value(into),
        !is_scratch(into),
    ensures
        ({
            let steps = equality(left, right, t, into)->Ok_0;
            let after = carried_out(m, w, steps);
            &&& is_straight(steps)
            &&& holds(after.read(into)) <==> equal_as(t, m.read(left), m.read(right))
            &&& after.trace == m.trace
            &&& after.vars == m.vars
            &&& forall|r: Reg| !is_scratch(r) && r != into ==> #[trigger] after.read(r) == m.read(r)
        }),
{
    if raw_kind(t) is Some {
        scalars_compare(t, left, right, into, w, m);
    } else if t == TypeTerm::Primitive(PrimitiveType::Str) {
        strings_compare(left, right, into, w, m);
    } else {
        wholes_compare(left, right, into, w, m);
    }
}

/// Numbers, characters, truth values, floats, strings and collections can be
/// compared, and nothing else.
pub proof fn comparable_types(left: Reg, right: Reg, t: TypeTerm, into: Reg)
    ensures
        equality(left, right, t, into) is Ok <==> match t {
            TypeTerm::Primitive(p) => match p {
                PrimitiveType::Int
                | PrimitiveType::Char
                | PrimitiveType::Bool
                | PrimitiveType::Float
                | PrimitiveType::Str => true,
                _ => false,
            },
            TypeTerm::List(_)
            | TypeTerm::MapOf(_, _)
            | TypeTerm::SetOf(_)
            | TypeTerm::Tuple(_, _)
            | TypeTerm::EmptyList
            | TypeTerm::EmptyMap
            | TypeTerm::EmptySet => true,
            _ => false,
        },
{
}

/// Whether a list has as many elements as a pattern, or at least as many where
/// the pattern takes the rest.
pub open spec fn length_fits(v: Value, count: nat, has_rest: bool) -> bool {
    if has_rest {
        items(v).len() >= count
    } else {
        items(v).len() == count
    }
}

proof fn length_is_tested(count: nat, has_rest: bool, w: World, m: Machine)
    requires
        count <= u64::MAX,
    ensures
        ({
            let steps = length_test(count, has_rest);
            let after = carried_out(m, w, steps);
            &&& is_straight(steps)
            &&& holds(after.read(Reg::Condition)) <==> length_fits(
                m.read(Reg::Subject),
                count,
                has_rest,
            )
            &&& after.read(Reg::SubjectPointer) == m.read(Reg::Subject)
            &&& after.read(Reg::Subject) == m.read(Reg::Subject)
            &&& after.trace == m.trace
        }),
{
    reveal(Machine::does);
    let steps = length_test(count, has_rest);
    let v = m.read(Reg::Subject);
    runtime_functions(v, Value::Nothing, Value::Nothing);
    assert(steps.len() == 3);
    carried_on(m, w, steps, 0);
    carried_on(m, w, steps, 1);
    carried_on(m, w, steps, 2);
}

/// The value that the literal of an element has.
pub open spec fn literal_at(w: World, literals: Seq<Value>, i: int) -> bool {
    w.always(Part::ElementLiteral(i as usize), literals[i])
}

/// Whether the elements of a list from a place on equal the literals of a
/// pattern, where it has literals.
pub open spec fn elements_fit(
    v: Value,
    elements: Seq<PatternNode>,
    literals: Seq<Value>,
    inner: TypeTerm,
    from: int,
) -> bool {
    forall|j: int|
        from <= j < elements.len() && (#[trigger] elements[j]) is Literal ==> equal_as(
            inner,
            items(v)[j],
            literals[j],
        )
}

proof fn element_is_tested(
    i: int,
    inner: TypeTerm,
    literal: Value,
    w: World,
    m: Machine,
)
    requires
        0 <= i <= usize::MAX,
        element_test(i, inner) is Ok,
        w.always(Part::ElementLiteral(i as usize), literal),
    ensures
        ({
            let steps = element_test(i, inner)->Ok_0;
            let after = carried_out(m, w, steps);
            let list = m.read(Reg::SubjectPointer);
            &&& is_straight(steps)
            &&& holds(after.read(Reg::Condition)) ==> holds(m.read(Reg::Condition))
            &&& i < items(list).len() ==> (holds(after.read(Reg::Condition)) <==> holds(
                m.read(Reg::Condition),
            ) && equal_as(inner, items(list)[i], literal))
            &&& after.read(Reg::SubjectPointer) == m.read(Reg::SubjectPointer)
        }),
{
    let n = i as usize;
    let v = called2(
        "mux_value_list_get_value"@,
        m.read(Reg::SubjectPointer),
        Value::Num(i),
    );
    runtime_functions(m.read(Reg::SubjectPointer), Value::Num(i), Value::Nothing);
    let compare = equality(Reg::Element(n), Reg::Pattern, inner, Reg::ElementCondition(n))->Ok_0;
    let front = seq![
        fetch(i),
        Step::Register(Reg::Element(n)),
        Step::Evaluate { part: Part::ElementLiteral(n), into: Reg::Pattern },
    ];
    let back = seq![
        Step::And {
            left: Reg::Condition,
            right: Reg::ElementCondition(n),
            name: "and_check",
            into: Reg::Condition,
        },
    ];
    let steps = element_test(i, inner)->Ok_0;
    assert(steps == front + compare + back);
    carried_out_adds(m, w, front + compare, back);
    carried_out_adds(m, w, front, compare);
    let a = carried_out(m, w, front);
    assert(a.read(Reg::Element(n)) == v && a.read(Reg::Pattern) == literal && a.read(
        Reg::Condition,
    ) == m.read(Reg::Condition) && a.read(Reg::SubjectPointer) == m.read(Reg::SubjectPointer)) by {
        reveal(Machine::does);
        carried_on(m, w, front, 0);
        carried_on(m, w, front, 1);
        carried_on(m, w, front, 2);
    }
    comparison_tells_equal_values(
        Reg::Element(n),
        Reg::Pattern,
        inner,
        Reg::ElementCondition(n),
        w,
        a,
    );
    let b = carried_out(a, w, compare);
    assert(b.read(Reg::Condition) == a.read(Reg::Condition));
    assert(b.read(Reg::SubjectPointer) == a.read(Reg::SubjectPointer));
    carried_on(b, w, back, 0);
    reveal(Machine::does);
    assert forall|k: int| 0 <= k < steps.len() implies crate::codegen::meaning::leads_on(
        #[trigger] steps[k],
    ) by {
        if k >= 3 && k < 3 + compare.len() {
            assert(steps[k] == compare[k - 3]);
        }
    }
}

proof fn elements_are_tested(
    elements: Seq<PatternNode>,
    literals: Seq<Value>,
    i: int,
    inner: TypeTerm,
    done: Seq<Step>,
    w: World,
    m: Machine,
)
    requires
        0 <= i <= elements.len() <= usize::MAX,
        literals.len() == elements.len(),
        forall|j: int| 0 <= j < elements.len() ==> #[trigger] literal_at(w, literals, j),
        element_tests(elements, i, inner, done) is Ok,
        is_straight(done),
        elements.len() <= items(carried_out(m, w, done).read(Reg::SubjectPointer)).len(),
    ensures
        ({
            let before = carried_out(m, w, done);
            let steps = element_tests(elements, i, inner, done)->Ok_0;
            let after = carried_out(m, w, steps);
            &&& is_straight(steps)
            &&& holds(after.read(Reg::Condition)) <==> holds(before.read(Reg::Condition))
                && elements_fit(before.read(Reg::SubjectPointer), elements, literals, inner, i)
        }),
    decreases elements.len() - i,
{
    if i < elements.len() {
        if elements[i] is Literal {
            let one = element_test(i, inner)->Ok_0;
            let before = carried_out(m, w, done);
            assert(literal_at(w, literals, i));
            element_is_tested(i, inner, literals[i], w, before);
            carried_out_adds(m, w, done, one);
            elements_are_tested(elements, literals, i + 1, inner, done + one, w, m);
        } else {
            elements_are_tested(elements, literals, i + 1, inner, done, w, m);
        }
    }
}

/// A test that has failed stays failed.
proof fn failed_test_stays_failed(
    elements: Seq<PatternNode>,
    literals: Seq<Value>,
    i: int,
    inner: TypeTerm,
    done: Seq<Step>,
    w: World,
    m: Machine,
)
    requires
        0 <= i <= elements.len() <= usize::MAX,
        literals.len() == elements.len(),
        forall|j: int| 0 <= j < elements.len() ==> #[trigger] literal_at(w, literals, j),
        element_tests(elements, i, inner, done) is Ok,
        is_straight(done),
        !holds(carried_out(m, w, done).read(Reg::Condition)),
    ensures
        ({
            let steps = element_tests(elements, i, inner, done)->Ok_0;
            &&& is_straight(steps)
            &&& !holds(carried_out(m, w, steps).read(Reg::Condition))
        }),
    decreases elements.len() - i,
{
    if i < elements.len() {
        if elements[i] is Literal {
            let one = element_test(i, inner)->Ok_0;
            let before = carried_out(m, w, done);
            assert(literal_at(w, literals, i));
            element_is_tested(i, inner, literals[i], w, before);
            carried_out_adds(m, w, done, one);
            failed_test_stays_failed(elements, literals, i + 1, inner, done + one, w, m);
        } else {
            failed_test_stays_failed(elements, literals, i + 1, inner, done, w, m);
        }
    }
}

/// Whether a list fits a list pattern: it has the pattern's length, or at least
/// that where the pattern takes the rest, and equals the pattern's literals at
/// their places.
pub open spec fn list_fits(
    v: Value,
    elements: Seq<PatternNode>,
    has_rest: bool,
    literals: Seq<Value>,
    inner: TypeTerm,
) -> bool {
    length_fits(v, elements.len(), has_rest) && elements_fit(v, elements, literals, inner, 0)
}

/// The test of a list pattern holds exactly for the lists that fit it.
pub proof fn list_pattern_tells_fitting_lists(
    inner: TypeTerm,
    elements: Seq<PatternNode>,
    has_rest: bool,
    literals: Seq<Value>,
    w: World,
    m: Machine,
)
    requires
        elements.len() <= usize::MAX,
        literals.len() == elements.len(),
        forall|j: int| 0 <= j < elements.len() ==> #[trigger] literal_at(w, literals, j),
        list_check(TypeTerm::List(Box::new(inner)), elements, has_rest) is Ok,
    ensures
        ({
            let steps = list_check(TypeTerm::List(Box::new(inner)), elements, has_rest)->Ok_0;
            &&& is_straight(steps)
            &&& holds(carried_out(m, w, steps).read(Reg::Condition)) <==> list_fits(
                m.read(Reg::Subject),
                elements,
                has_rest,
                literals,
                inner,
            )
        }),
{
    let test = length_test(elements.len(), has_rest);
    let v = m.read(Reg::Subject);
    length_is_tested(elements.len(), has_rest, w, m);
    if length_fits(v, elements.len(), has_rest) {
        elements_are_tested(elements, literals, 0, inner, test, w, m);
    } else {
        failed_test_stays_failed(elements, literals, 0, inner, test, w, m);
    }
}

/// Whether a value fits a pattern: the pattern's literal, its constant, or the
/// elements of a list; a name that is no constant's and the wildcard fit all.
pub open spec fn fits(
    g: &CodeGenerator,
    pattern: PatternNode,
    v: Value,
    t: TypeTerm,
    w: World,
    trace: Seq<Event>,
    literals: Seq<Value>,
) -> bool {
    match pattern {
        PatternNode::Literal(_) => equal_as(t, v, w.value(Part::PatternLiteral, trace)),
        PatternNode::Identifier(name) => g.is_constant(name@) ==> equal_as(t, v, w.constant),
        PatternNode::List { elements, rest } => match t {
            TypeTerm::List(inner) => list_fits(v, elements@, rest is Some, literals, *inner),
            _ => length_fits(v, elements@.len(), rest is Some),
        },
        _ => true,
    }
}

/// How many elements a pattern has.
pub open spec fn element_count(pattern: PatternNode) -> nat {
    match pattern {
        PatternNode::List { elements, rest } => elements@.len(),
        _ => 0,
    }
}

/// The test of a pattern, of a match that is not on an enum, holds exactly for
/// the values that fit the pattern. A name that is no constant's then stands
/// for the value.
pub proof fn pattern_test_tells_fitting_values(
    g: &CodeGenerator,
    t: TypeTerm,
    pattern: PatternNode,
    literals: Seq<Value>,
    w: World,
    m: Machine,
)
    requires
        g.switch_test(t, pattern) is Ok,
        element_count(pattern) <= usize::MAX,
        literals.len() == element_count(pattern),
        forall|j: int| 0 <= j < literals.len() ==> #[trigger] literal_at(w, literals, j),
    ensures
        ({
            let (steps, condition) = g.switch_test(t, pattern)->Ok_0;
            let after = carried_out(m, w, steps);
            let v = m.read(Reg::Subject);
            &&& is_straight(steps)
            &&& holds(after.read(condition)) <==> fits(g, pattern, v, t, w, m.trace, literals)
            &&& (pattern matches PatternNode::Identifier(name) && !g.is_constant(name@))
                ==> after.vars[SlotName::Declared] == v
        }),
{
    let (steps, condition) = g.switch_test(t, pattern)->Ok_0;
    let v = m.read(Reg::Subject);
    match pattern {
        PatternNode::Literal(_) => {
            let front = seq![Step::Evaluate { part: Part::PatternLiteral, into: Reg::Pattern }];
            let compare = equality(Reg::Subject, Reg::Pattern, t, Reg::Condition)->Ok_0;
            assert(steps == front + compare);
            carried_out_adds(m, w, front, compare);
            carried_on(m, w, front, 0);
            reveal(Machine::does);
            comparison_tells_equal_values(
                Reg::Subject,
                Reg::Pattern,
                t,
                Reg::Condition,
                w,
                carried_out(m, w, front),
            );
        },
        PatternNode::Identifier(name) => {
            if g.is_constant(name@) {
                let front = read_constant(t);
                let compare = equality(Reg::Subject, Reg::Pattern, t, Reg::Condition)->Ok_0;
                assert(steps == front + compare);
                carried_out_adds(m, w, front, compare);
                reveal(Machine::does);
                carried_on(m, w, front, 0);
                if front.len() > 1 {
                    carried_on(m, w, front, 1);
                }
                comparison_tells_equal_values(
                    Reg::Subject,
                    Reg::Pattern,
                    t,
                    Reg::Condition,
                    w,
                    carried_out(m, w, front),
                );
            } else {
                assert(steps == bind_subject());
                reveal(Machine::does);
                carried_on(m, w, steps, 0);
                carried_on(m, w, steps, 1);
                carried_on(m, w, steps, 2);
            }
        },
        PatternNode::List { elements, rest } => {
            match t {
                TypeTerm::List(inner) => {
                    list_pattern_tells_fitting_lists(
                        *inner,
                        elements@,
                        rest is Some,
                        literals,
                        w,
                        m,
                    );
                },
                _ => {
                    length_is_tested(elements@.len(), rest is Some, w, m);
                },
            }
        },
        _ => {
        },
    }
}

proof fn element_is_bound(i: int, w: World, m: Machine)
    requires
        0 <= i <= usize::MAX,
        i < items(m.read(Reg::SubjectPointer)).len(),
    ensures
        ({
            let steps = bind_element(i);
            let after = carried_out(m, w, steps);
            &&& is_straight(steps)
            &&& after.vars == m.vars.insert(
                SlotName::Bound(i as usize),
                items(m.read(Reg::SubjectPointer))[i],
            )
            &&& after.read(Reg::SubjectPointer) == m.read(Reg::SubjectPointer)
        }),
{
    reveal(Machine::does);
    let steps = bind_element(i);
    runtime_functions(m.read(Reg::SubjectPointer), Value::Num(i), Value::Nothing);
    carried_on(m, w, steps, 0);
    carried_on(m, w, steps, 1);
    carried_on(m, w, steps, 2);
    carried_on(m, w, steps, 3);
}

proof fn elements_are_bound(elements: Seq<PatternNode>, n: int, w: World, m: Machine)
    requires
        0 <= n <= elements.len() <= usize::MAX,
        elements.len() <= items(m.read(Reg::SubjectPointer)).len(),
    ensures
        ({
            let steps = bind_elements(elements, n);
            let after = carried_out(m, w, steps);
            &&& is_straight(steps)
            &&& forall|i: int|
                0 <= i < n && (#[trigger] elements[i]) is Identifier ==> after.vars[SlotName::Bound(
                    i as usize,
                )] == items(m.read(Reg::SubjectPointer))[i]
            &&& after.read(Reg::SubjectPointer) == m.read(Reg::SubjectPointer)
        }),
    decreases n,
{
    if n > 0 {
        elements_are_bound(elements, n - 1, w, m);
        let front = bind_elements(elements, n - 1);
        let before = carried_out(m, w, front);
        if elements[n - 1] is Identifier {
            element_is_bound(n - 1, w, before);
            carried_out_adds(m, w, front, bind_element(n - 1));
        } else {
            assert(bind_elements(elements, n) =~= front);
        }
    }
}

/// Each name in a list pattern stands for the element at its place, and the
/// name behind them for the rest of the list.
pub proof fn list_pattern_binds_elements(
    inner: TypeTerm,
    elements: Seq<PatternNode>,
    rest: Option<Box<PatternNode>>,
    w: World,
    m: Machine,
)
    requires
        elements.len() <= usize::MAX,
        length_fits(m.read(Reg::Subject), elements.len(), rest is Some),
    ensures
        ({
            let steps = list_bindings(TypeTerm::List(Box::new(inner)), elements, rest);
            let after = carried_out(m, w, steps);
            let all = items(m.read(Reg::Subject));
            &&& is_straight(steps)
            &&& forall|i: int|
                0 <= i < elements.len() && (#[trigger] elements[i]) is Identifier
                    ==> after.vars[SlotName::Bound(i as usize)] == all[i]
            &&& rest_name(rest) is Some ==> after.vars[SlotName::RestName] == Value::Items(
                all.skip(elements.len() as int),
            )
        }),
{
    let n = elements.len() as int;
    let v = m.read(Reg::Subject);
    let all = items(v);
    let front = seq![Step::Point { value: Reg::Subject, into: Reg::SubjectPointer }];
    let middle = bind_elements(elements, n);
    let steps = list_bindings(TypeTerm::List(Box::new(inner)), elements, rest);
    let a = carried_out(m, w, front);
    assert(a.read(Reg::SubjectPointer) == v) by {
        reveal(Machine::does);
        carried_on(m, w, front, 0);
    }
    elements_are_bound(elements, n, w, a);
    carried_out_adds(m, w, front, middle);
    let b = carried_out(a, w, middle);
    if rest_name(rest) is Some {
        let back = bind_rest(elements.len());
        assert(steps == front + middle + back);
        carried_out_adds(m, w, front + middle, back);
        reveal(Machine::does);
        runtime_functions(v, Value::Num(n), Value::Num(all.len() as int));
        carried_on(b, w, back, 0);
        carried_on(b, w, back, 1);
        carried_on(b, w, back, 2);
        carried_on(b, w, back, 3);
        assert(all.subrange(n, all.len() as int) =~= all.skip(n));
    } else {
        assert(steps =~= front + middle);
    }
}

} // verus!
