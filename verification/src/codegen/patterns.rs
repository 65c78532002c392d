//! Patterns of matches that compare values.

use crate::ast::nodes::{ExpressionKind, ExpressionNode, PatternNode};
use crate::ast::PrimitiveType;
use crate::codegen::debug_text::{debug_of, debug_text};
use crate::codegen::generator::{Bindings, CodeGenerator, SymbolKind};
use crate::codegen::layout::scalar;
use crate::codegen::loops::{storage_for, storage_of};
use crate::codegen::matching::{inference, symbol_at};
use crate::codegen::resolution::resolved;
use crate::codegen::returning::{planned, Planned};
use crate::codegen::scopes::{bound, scopes_of};
use crate::codegen::steps::{Comparison, Part, RawKind, Reg, SlotName, Step, Storage};
use crate::semantics::types::{term_shapes, type_variant, TypeTerm};
use crate::semantics::Type;
use crate::text::{cat, decimal, decimal_string};
use vstd::prelude::*;

verus! {

broadcast use term_shapes;

/// The scalar that values of a type are compared as.
pub open spec fn raw_kind(t: TypeTerm) -> Option<RawKind> {
    match t {
        TypeTerm::Primitive(PrimitiveType::Int) => Some(RawKind::Int),
        TypeTerm::Primitive(PrimitiveType::Char) => Some(RawKind::Int),
        TypeTerm::Primitive(PrimitiveType::Bool) => Some(RawKind::Bool),
        TypeTerm::Primitive(PrimitiveType::Float) => Some(RawKind::Float),
        _ => None,
    }
}

/// Whether values of a type are compared by the runtime, as wholes.
pub open spec fn compared_as_whole(t: TypeTerm) -> bool {
    t is List || t is MapOf || t is SetOf || t is Tuple || t is EmptyList || t is EmptyMap
        || t is EmptySet
}

/// The comparison of two scalars.
pub open spec fn scalar_equality(kind: RawKind, left: Reg, right: Reg, into: Reg) -> Seq<Step> {
    seq![
        Step::Raw { kind, value: left, into: Reg::LeftRaw },
        Step::Raw { kind, value: right, into: Reg::RightRaw },
        if kind == RawKind::Float {
            Step::Compare {
                by: Comparison::OrderedEqual,
                left: Reg::LeftRaw,
                right: Reg::RightRaw,
                name: "feq",
                into,
            }
        } else {
            Step::Compare {
                by: Comparison::Equal,
                left: Reg::LeftRaw,
                right: Reg::RightRaw,
                name: "eq",
                into,
            }
        },
    ]
}

/// The comparison of two strings. Their C strings are owned, and freed
/// afterwards.
pub open spec fn string_equality(left: Reg, right: Reg, into: Reg) -> Seq<Step> {
    seq![
        Step::Point { value: left, into: Reg::Left },
        Step::Point { value: right, into: Reg::Right },
        Step::Text { value: Reg::Left, into: Reg::LeftText },
        Step::Text { value: Reg::Right, into: Reg::RightText },
        Step::Call2 {
            function: "mux_string_equal",
            left: Reg::LeftText,
            right: Reg::RightText,
            name: "string_equal",
            into: Reg::Outcome,
        },
        Step::NonZero { value: Reg::Outcome, into },
        Step::Perform { function: "mux_free_string", arg: Reg::LeftText, name: "free_cstr" },
        Step::Perform { function: "mux_free_string", arg: Reg::RightText, name: "free_cstr" },
    ]
}

/// The comparison of two values by the runtime.
pub open spec fn whole_equality(left: Reg, right: Reg, into: Reg) -> Seq<Step> {
    seq![
        Step::Point { value: left, into: Reg::Left },
        Step::Point { value: right, into: Reg::Right },
        Step::Call2 {
            function: "mux_value_equal",
            left: Reg::Left,
            right: Reg::Right,
            name: "value_equal",
            into: Reg::Outcome,
        },
        Step::NonZero { value: Reg::Outcome, into },
    ]
}

/// The comparison of two values of a type.
pub open spec fn equality(left: Reg, right: Reg, t: TypeTerm, into: Reg) -> Planned {
    match raw_kind(t) {
        Some(kind) => Ok(scalar_equality(kind, left, right, into)),
        None => if t == TypeTerm::Primitive(PrimitiveType::Str) {
            Ok(string_equality(left, right, into))
        } else if compared_as_whole(t) {
            Ok(whole_equality(left, right, into))
        } else {
            Err("Equality comparison not supported for match type: "@ + debug_of(t))
        },
    }
}

/// The test of a list's length.
pub open spec fn length_test(count: nat, has_rest: bool) -> Seq<Step> {
    seq![
        Step::Point { value: Reg::Subject, into: Reg::SubjectPointer },
        Step::Call1 {
            function: "mux_value_list_length",
            arg: Reg::SubjectPointer,
            name: "list_len",
            into: Reg::Length,
        },
        if has_rest {
            Step::Compare {
                by: Comparison::SignedAtLeast,
                left: Reg::Length,
                right: Reg::Number(count as u64),
                name: "len_ge",
                into: Reg::Condition,
            }
        } else {
            Step::Compare {
                by: Comparison::Equal,
                left: Reg::Length,
                right: Reg::Number(count as u64),
                name: "len_eq",
                into: Reg::Condition,
            }
        },
    ]
}

/// Fetches an element, which the match then owns.
pub open spec fn fetch(i: int) -> Step {
    Step::Call2 {
        function: "mux_value_list_get_value",
        left: Reg::SubjectPointer,
        right: Reg::Number(i as u64),
        name: "list_elem",
        into: Reg::Element(i as usize),
    }
}

/// The test of an element against a literal.
pub open spec fn element_test(i: int, inner: TypeTerm) -> Planned {
    match equality(
        Reg::Element(i as usize),
        Reg::Pattern,
        inner,
        Reg::ElementCondition(i as usize),
    ) {
        Err(e) => Err(e),
        Ok(steps) => Ok(
            seq![
                fetch(i),
                Step::Register(Reg::Element(i as usize)),
                Step::Evaluate { part: Part::ElementLiteral(i as usize), into: Reg::Pattern },
            ] + steps + seq![
                Step::And {
                    left: Reg::Condition,
                    right: Reg::ElementCondition(i as usize),
                    name: "and_check",
                    into: Reg::Condition,
                },
            ],
        ),
    }
}

/// The tests of the elements from `i` on that are literals.
pub open spec fn element_tests(
    elements: Seq<PatternNode>,
    i: int,
    inner: TypeTerm,
    done: Seq<Step>,
) -> Planned
    decreases elements.len() - i,
{
    if i < 0 || i >= elements.len() {
        Ok(done)
    } else if elements[i] is Literal {
        match element_test(i, inner) {
            Err(e) => Err(e),
            Ok(steps) => element_tests(elements, i + 1, inner, done + steps),
        }
    } else {
        element_tests(elements, i + 1, inner, done)
    }
}

/// The element type of a list type.
pub open spec fn element_type(t: TypeTerm) -> Option<TypeTerm> {
    match t {
        TypeTerm::List(inner) => Some(*inner),
        _ => None,
    }
}

/// The test of a list pattern: its length, then its literal elements.
pub open spec fn list_check(t: TypeTerm, elements: Seq<PatternNode>, has_rest: bool) -> Planned {
    let test = length_test(elements.len(), has_rest);
    match element_type(t) {
        Some(inner) => element_tests(elements, 0, inner, test),
        None => Ok(test),
    }
}

/// The binding of an element to a name.
pub open spec fn bind_element(i: int) -> Seq<Step> {
    seq![
        fetch(i),
        Step::Allocate {
            storage: Storage::Pointer,
            name: SlotName::Bound(i as usize),
            into: Reg::Slot,
        },
        Step::Store { value: Reg::Element(i as usize), to: Reg::Slot },
        Step::Register(Reg::Element(i as usize)),
    ]
}

/// The bindings of the first `n` elements that are names.
pub open spec fn bind_elements(elements: Seq<PatternNode>, n: int) -> Seq<Step>
    decreases n,
{
    if n <= 0 || n > elements.len() {
        seq![]
    } else {
        bind_elements(elements, n - 1) + (if elements[n - 1] is Identifier {
            bind_element(n - 1)
        } else {
            seq![]
        })
    }
}

/// The scopes with the first `n` elements that are names bound.
pub open spec fn with_elements(
    scopes: Seq<Bindings>,
    elements: Seq<PatternNode>,
    n: int,
    inner: TypeTerm,
) -> Seq<Bindings>
    decreases n,
{
    if n <= 0 || n > elements.len() {
        scopes
    } else {
        let before = with_elements(scopes, elements, n - 1, inner);
        match elements[n - 1] {
            PatternNode::Identifier(name) => bound(before, name@, inner),
            _ => before,
        }
    }
}

/// The name that takes the rest of a list.
pub open spec fn rest_name(rest: Option<Box<PatternNode>>) -> Option<Seq<char>> {
    match rest {
        Some(p) => match *p {
            PatternNode::Identifier(name) => Some(name@),
            _ => None,
        },
        None => None,
    }
}

/// The binding of the rest of a list to a name.
pub open spec fn bind_rest(count: nat) -> Seq<Step> {
    seq![
        Step::Call1 {
            function: "mux_value_list_length",
            arg: Reg::SubjectPointer,
            name: "list_len",
            into: Reg::Length,
        },
        Step::Call3 {
            function: "mux_value_list_slice",
            first: Reg::SubjectPointer,
            second: Reg::Number(count as u64),
            third: Reg::Length,
            name: "rest_list",
            into: Reg::Rest,
        },
        Step::Allocate { storage: Storage::Pointer, name: SlotName::RestName, into: Reg::Slot },
        Step::Store { value: Reg::Rest, to: Reg::Slot },
    ]
}

/// The bindings of a list pattern.
pub open spec fn list_bindings(
    t: TypeTerm,
    elements: Seq<PatternNode>,
    rest: Option<Box<PatternNode>>,
) -> Seq<Step> {
    match element_type(t) {
        None => seq![],
        Some(inner) => seq![Step::Point { value: Reg::Subject, into: Reg::SubjectPointer }]
            + bind_elements(elements, elements.len() as int) + (if rest_name(rest) is Some {
            bind_rest(elements.len())
        } else {
            seq![]
        }),
    }
}

/// The scopes with the names of a list pattern bound.
pub open spec fn with_list(
    scopes: Seq<Bindings>,
    t: TypeTerm,
    elements: Seq<PatternNode>,
    rest: Option<Box<PatternNode>>,
) -> Seq<Bindings> {
    match element_type(t) {
        None => scopes,
        Some(inner) => {
            let after = with_elements(scopes, elements, elements.len() as int, inner);
            match rest_name(rest) {
                Some(name) => bound(after, name, t),
                None => after,
            }
        },
    }
}

/// The binding of the whole subject to a name.
pub open spec fn bind_subject() -> Seq<Step> {
    seq![
        Step::Box { value: Reg::Subject, into: Reg::Stored },
        Step::Allocate { storage: Storage::Pointer, name: SlotName::Declared, into: Reg::Slot },
        Step::Store { value: Reg::Stored, to: Reg::Slot },
    ]
}

/// The reading of a constant.
pub open spec fn read_constant(t: TypeTerm) -> Seq<Step> {
    seq![Step::LoadConstant { into: Reg::Pattern }] + (match raw_kind(t) {
        Some(kind) => seq![Step::Raw { kind, value: Reg::Pattern, into: Reg::Pattern }],
        None => seq![],
    })
}

/// Steps with some in front of them.
pub open spec fn after_steps(front: Seq<Step>, rest: Planned) -> Planned {
    match rest {
        Ok(steps) => Ok(front + steps),
        Err(e) => Err(e),
    }
}

/// A test: its steps, and where its outcome is.
pub struct PatternTest {
    pub steps: Vec<Step>,
    pub condition: Reg,
}

pub open spec fn tested(r: Result<PatternTest, String>) -> Result<(Seq<Step>, Reg), Seq<char>> {
    match r {
        Ok(test) => Ok((test.steps@, test.condition)),
        Err(e) => Err(e@),
    }
}

pub open spec fn decided_by(steps: Planned, condition: Reg) -> Result<(Seq<Step>, Reg), Seq<char>> {
    match steps {
        Ok(s) => Ok((s, condition)),
        Err(e) => Err(e),
    }
}

impl CodeGenerator {
    /// Whether a name is a constant's.
    pub open spec fn is_constant(&self, name: Seq<char>) -> bool {
        symbol_at(self.symbols@, name) matches Some(s) && s.kind == SymbolKind::Constant
    }

    /// The test of a pattern against the subject.
    pub open spec fn switch_test(&self, t: TypeTerm, pattern: PatternNode) -> Result<
        (Seq<Step>, Reg),
        Seq<char>,
    > {
        match pattern {
            PatternNode::Literal(_) => decided_by(
                after_steps(
                    seq![Step::Evaluate { part: Part::PatternLiteral, into: Reg::Pattern }],
                    equality(Reg::Subject, Reg::Pattern, t, Reg::Condition),
                ),
                Reg::Condition,
            ),
            PatternNode::Identifier(name) => if self.is_constant(name@) {
                if self.variable(name@) is None {
                    Err("Constant "@ + name@ + " not found"@)
                } else {
                    decided_by(
                        after_steps(
                            read_constant(t),
                            equality(Reg::Subject, Reg::Pattern, t, Reg::Condition),
                        ),
                        Reg::Condition,
                    )
                }
            } else {
                Ok((bind_subject(), Reg::True))
            },
            PatternNode::Wildcard => Ok((seq![], Reg::True)),
            PatternNode::List { elements, rest } => decided_by(
                list_check(t, elements@, rest is Some),
                Reg::Condition,
            ),
            PatternNode::EnumVariant { .. } => Err(
                "Enum variant patterns are not valid in non-enum match"@,
            ),
        }
    }

    /// The name that a test binds to the subject.
    pub open spec fn bound_by_test(&self, pattern: PatternNode) -> Option<Seq<char>> {
        match pattern {
            PatternNode::Identifier(name) => if self.is_constant(name@) {
                None
            } else {
                Some(name@)
            },
            _ => None,
        }
    }
}

/// Whether a match can use an expression as it stands. Everything else is
/// evaluated once, into a slot.
pub open spec fn is_plain_subject(e: ExpressionNode) -> bool {
    match e.kind {
        ExpressionKind::Identifier(_) => true,
        ExpressionKind::FieldAccess { .. } => true,
        ExpressionKind::Call { func, .. } => func.kind is Identifier,
        _ => false,
    }
}

/// The name of the slot that a match spills its subject to.
pub open spec fn temporary(id: usize) -> Seq<char> {
    "match_temp_"@ + decimal(id as nat)
}

/// The evaluation of a subject into a slot of its own.
pub open spec fn spill(t: TypeTerm) -> Seq<Step> {
    let storage = storage_of(scalar(t));
    seq![
        Step::Register(Reg::Value),
        Step::Allocate { storage, name: SlotName::Declared, into: Reg::Slot },
    ] + (if scalar(t) is Some {
        seq![
            Step::Coerce { value: Reg::Value, storage, into: Reg::Stored },
            Step::Store { value: Reg::Stored, to: Reg::Slot },
        ]
    } else {
        seq![Step::Store { value: Reg::Value, to: Reg::Slot }]
    })
}

/// How a match gets its subject.
pub enum MatchSubject {
    /// The expression itself.
    Plain,
    /// A slot with a name of its own.
    Spilled { name: String, steps: Vec<Step> },
}

fn raw_kind_of(t: &Type) -> (r: Option<RawKind>)
    ensures
        r == raw_kind(t.term()),
{
    proof {
        type_variant(*t);
    }
    match t {
        Type::Primitive(p) => {
            assert(*t == Type::Primitive(*p));
            match p {
                PrimitiveType::Int | PrimitiveType::Char => Some(RawKind::Int),
                PrimitiveType::Bool => Some(RawKind::Bool),
                PrimitiveType::Float => Some(RawKind::Float),
                _ => None,
            }
        },
        _ => None,
    }
}

fn push_scalar_equality(out: &mut Vec<Step>, kind: RawKind, left: Reg, right: Reg, into: Reg)
    ensures
        final(out)@ == old(out)@ + scalar_equality(kind, left, right, into),
{
    out.push(Step::Raw { kind, value: left, into: Reg::LeftRaw });
    out.push(Step::Raw { kind, value: right, into: Reg::RightRaw });
    if kind == RawKind::Float {
        out.push(
            Step::Compare {
                by: Comparison::OrderedEqual,
                left: Reg::LeftRaw,
                right: Reg::RightRaw,
                name: "feq",
                into,
            },
        );
    } else {
        out.push(
            Step::Compare {
                by: Comparison::Equal,
                left: Reg::LeftRaw,
                right: Reg::RightRaw,
                name: "eq",
                into,
            },
        );
    }
    assert(out@ =~= old(out)@ + scalar_equality(kind, left, right, into));
}

/// A runtime function of two values whose result is a truth value.
fn call_runtime_bool(
    out: &mut Vec<Step>,
    left: Reg,
    right: Reg,
    function: &'static str,
    name: &'static str,
    into: Reg,
)
    ensures
        final(out)@ == old(out)@ + seq![
            Step::Call2 { function, left, right, name, into: Reg::Outcome },
            Step::NonZero { value: Reg::Outcome, into },
        ],
{
    out.push(Step::Call2 { function, left, right, name, into: Reg::Outcome });
    out.push(Step::NonZero { value: Reg::Outcome, into });
    assert(out@ =~= old(out)@ + seq![
        Step::Call2 { function, left, right, name, into: Reg::Outcome },
        Step::NonZero { value: Reg::Outcome, into },
    ]);
}

fn push_string_equality(out: &mut Vec<Step>, left: Reg, right: Reg, into: Reg)
    ensures
        final(out)@ == old(out)@ + string_equality(left, right, into),
{
    out.push(Step::Point { value: left, into: Reg::Left });
    out.push(Step::Point { value: right, into: Reg::Right });
    out.push(Step::Text { value: Reg::Left, into: Reg::LeftText });
    out.push(Step::Text { value: Reg::Right, into: Reg::RightText });
    call_runtime_bool(out, Reg::LeftText, Reg::RightText, "mux_string_equal", "string_equal", into);
    out.push(
        Step::Perform { function: "mux_free_string", arg: Reg::LeftText, name: "free_cstr" },
    );
    out.push(
        Step::Perform { function: "mux_free_string", arg: Reg::RightText, name: "free_cstr" },
    );
    assert(out@ =~= old(out)@ + string_equality(left, right, into));
}

fn push_whole_equality(out: &mut Vec<Step>, left: Reg, right: Reg, into: Reg)
    ensures
        final(out)@ == old(out)@ + whole_equality(left, right, into),
{
    out.push(Step::Point { value: left, into: Reg::Left });
    out.push(Step::Point { value: right, into: Reg::Right });
    call_runtime_bool(out, Reg::Left, Reg::Right, "mux_value_equal", "value_equal", into);
    assert(out@ =~= old(out)@ + whole_equality(left, right, into));
}

fn fetch_step(i: usize) -> (r: Step)
    ensures
        r == fetch(i as int),
{
    Step::Call2 {
        function: "mux_value_list_get_value",
        left: Reg::SubjectPointer,
        right: Reg::Number(i as u64),
        name: "list_elem",
        into: Reg::Element(i),
    }
}

/// The element type of a list type.
fn element_of(t: &Type) -> (r: Option<&Type>)
    ensures
        match r {
            Some(inner) => element_type(t.term()) == Some(inner.term()),
            None => element_type(t.term()) is None,
        },
{
    proof {
        type_variant(*t);
    }
    match t {
        Type::List(inner) => {
            assert(*t == Type::List(*inner));
            Some(inner)
        },
        _ => None,
    }
}

impl CodeGenerator {
    /// The comparison of two values of a type.
    pub fn generate_value_equality(&self, left: Reg, right: Reg, t: &Type, into: Reg) -> (r: Result<
        Vec<Step>,
        String,
    >)
        ensures
            planned(r) == equality(left, right, t.term(), into),
    {
        let mut out: Vec<Step> = Vec::new();
        match raw_kind_of(t) {
            Some(kind) => {
                push_scalar_equality(&mut out, kind, left, right, into);
                assert(out@ =~= scalar_equality(kind, left, right, into));
                return Ok(out);
            },
            None => {},
        }
        proof {
            type_variant(*t);
        }
        match t {
            Type::Primitive(p) => {
                assert(*t == Type::Primitive(*p));
                if *p == PrimitiveType::Str {
                    push_string_equality(&mut out, left, right, into);
                    assert(out@ =~= string_equality(left, right, into));
                    return Ok(out);
                }
            },
            Type::List(_)
            | Type::MapOf(_, _)
            | Type::SetOf(_)
            | Type::Tuple(_, _)
            | Type::EmptyList
            | Type::EmptyMap
            | Type::EmptySet => {
                push_whole_equality(&mut out, left, right, into);
                assert(out@ =~= whole_equality(left, right, into));
                return Ok(out);
            },
            _ => {},
        }
        Err(
            cat(
                "Equality comparison not supported for match type: ",
                debug_text(t).as_str(),
            ),
        )
    }

    fn push_element_test(&self, out: &mut Vec<Step>, i: usize, inner: &Type) -> (r: Result<
        (),
        String,
    >)
        ensures
            match r {
                Ok(_) => element_test(i as int, inner.term()) is Ok && final(out)@ == old(out)@
                    + element_test(i as int, inner.term())->Ok_0,
                Err(e) => element_test(i as int, inner.term()) == Err::<Seq<Step>, Seq<char>>(e@),
            },
    {
        let mut steps = match self.generate_value_equality(
            Reg::Element(i),
            Reg::Pattern,
            inner,
            Reg::ElementCondition(i),
        ) {
            Ok(steps) => steps,
            Err(e) => {
                return Err(e);
            },
        };
        out.push(fetch_step(i));
        out.push(Step::Register(Reg::Element(i)));
        out.push(Step::Evaluate { part: Part::ElementLiteral(i), into: Reg::Pattern });
        out.append(&mut steps);
        out.push(
            Step::And {
                left: Reg::Condition,
                right: Reg::ElementCondition(i),
                name: "and_check",
                into: Reg::Condition,
            },
        );
        assert(out@ =~= old(out)@ + element_test(i as int, inner.term())->Ok_0);
        Ok(())
    }

    /// The test of a list pattern: whether the length fits, and the literal
    /// elements are equal.
    pub fn generate_list_pattern_check(
        &self,
        t: &Type,
        elements: &Vec<PatternNode>,
        has_rest: bool,
    ) -> (r: Result<Vec<Step>, String>)
        ensures
            planned(r) == list_check(t.term(), elements@, has_rest),
    {
        let count: usize = elements.len();
        let mut out: Vec<Step> = Vec::new();
        out.push(Step::Point { value: Reg::Subject, into: Reg::SubjectPointer });
        out.push(
            Step::Call1 {
                function: "mux_value_list_length",
                arg: Reg::SubjectPointer,
                name: "list_len",
                into: Reg::Length,
            },
        );
        if has_rest {
            out.push(
                Step::Compare {
                    by: Comparison::SignedAtLeast,
                    left: Reg::Length,
                    right: Reg::Number(count as u64),
                    name: "len_ge",
                    into: Reg::Condition,
                },
            );
        } else {
            out.push(
                Step::Compare {
                    by: Comparison::Equal,
                    left: Reg::Length,
                    right: Reg::Number(count as u64),
                    name: "len_eq",
                    into: Reg::Condition,
                },
            );
        }
        assert(out@ =~= length_test(elements@.len(), has_rest));
        let inner = match element_of(t) {
            Some(inner) => inner,
            None => {
                return Ok(out);
            },
        };
        let mut i: usize = 0;
        while i < elements.len()
            invariant
                i <= elements@.len(),
                element_type(t.term()) == Some(inner.term()),
                element_tests(
                    elements@,
                    0,
                    inner.term(),
                    length_test(elements@.len(), has_rest),
                ) == element_tests(elements@, i as int, inner.term(), out@),
            decreases elements@.len() - i,
        {
            if matches!(elements[i], PatternNode::Literal(_)) {
                match self.push_element_test(&mut out, i, inner) {
                    Ok(_) => {},
                    Err(e) => {
                        return Err(e);
                    },
                }
            }
            i += 1;
        }
        Ok(out)
    }

    /// Binds the names of a list pattern, once its test has passed.
    pub fn bind_list_pattern_variables(
        &mut self,
        t: &Type,
        elements: &Vec<PatternNode>,
        rest: &Option<Box<PatternNode>>,
    ) -> (r: Vec<Step>)
        requires
            old(self).variables@.len() > 0,
        ensures
            r@ == list_bindings(t.term(), elements@, *rest),
            scopes_of(final(self).variables@) == with_list(
                scopes_of(old(self).variables@),
                t.term(),
                elements@,
                *rest,
            ),
            *final(self) == (CodeGenerator { variables: final(self).variables, ..*old(self) }),
    {
        let mut out: Vec<Step> = Vec::new();
        let inner = match element_of(t) {
            Some(inner) => inner,
            None => {
                return out;
            },
        };
        let ghost point = seq![Step::Point { value: Reg::Subject, into: Reg::SubjectPointer }];
        out.push(Step::Point { value: Reg::Subject, into: Reg::SubjectPointer });
        let mut i: usize = 0;
        assert(out@ =~= point + bind_elements(elements@, 0));
        while i < elements.len()
            invariant
                i <= elements@.len(),
                self.variables@.len() > 0,
                scopes_of(self.variables@).len() == self.variables@.len(),
                point == seq![Step::Point { value: Reg::Subject, into: Reg::SubjectPointer }],
                out@ == point + bind_elements(elements@, i as int),
                scopes_of(self.variables@) == with_elements(
                    scopes_of(old(self).variables@),
                    elements@,
                    i as int,
                    inner.term(),
                ),
                *self == (CodeGenerator { variables: self.variables, ..*old(self) }),
            decreases elements@.len() - i,
        {
            let ghost before = out@;
            match &elements[i] {
                PatternNode::Identifier(var) => {
                    out.push(fetch_step(i));
                    out.push(
                        Step::Allocate {
                            storage: Storage::Pointer,
                            name: SlotName::Bound(i),
                            into: Reg::Slot,
                        },
                    );
                    out.push(Step::Store { value: Reg::Element(i), to: Reg::Slot });
                    out.push(Step::Register(Reg::Element(i)));
                    assert(out@ =~= before + bind_element(i as int));
                    assert(out@ =~= point + bind_elements(elements@, i + 1));
                    self.bind(var.as_str(), inner.copy());
                    assert(scopes_of(self.variables@).len() == self.variables@.len());
                },
                _ => {
                    assert(out@ =~= point + bind_elements(elements@, i + 1));
                },
            }
            i += 1;
        }
        let rest_var = match rest {
            Some(p) => match &**p {
                PatternNode::Identifier(name) => Some(name),
                _ => None,
            },
            None => None,
        };
        match rest_var {
            Some(name) => {
                out.push(
                    Step::Call1 {
                        function: "mux_value_list_length",
                        arg: Reg::SubjectPointer,
                        name: "list_len",
                        into: Reg::Length,
                    },
                );
                out.push(
                    Step::Call3 {
                        function: "mux_value_list_slice",
                        first: Reg::SubjectPointer,
                        second: Reg::Number(elements.len() as u64),
                        third: Reg::Length,
                        name: "rest_list",
                        into: Reg::Rest,
                    },
                );
                out.push(
                    Step::Allocate {
                        storage: Storage::Pointer,
                        name: SlotName::RestName,
                        into: Reg::Slot,
                    },
                );
                out.push(Step::Store { value: Reg::Rest, to: Reg::Slot });
                self.bind(name.as_str(), t.copy());
            },
            None => {},
        }
        assert(out@ =~= list_bindings(t.term(), elements@, *rest));
        out
    }

    /// The test of a pattern against the subject of a match that compares
    /// values. A name that is not a constant's matches everything and is bound
    /// to the subject.
    pub fn evaluate_switch_pattern_condition(&mut self, t: &Type, pattern: &PatternNode) -> (r: Result<
        PatternTest,
        String,
    >)
        requires
            old(self).variables@.len() > 0,
        ensures
            tested(r) == old(self).switch_test(t.term(), *pattern),
            scopes_of(final(self).variables@) == (match old(self).bound_by_test(*pattern) {
                Some(name) => bound(scopes_of(old(self).variables@), name, t.term()),
                None => scopes_of(old(self).variables@),
            }),
            *final(self) == (CodeGenerator { variables: final(self).variables, ..*old(self) }),
    {
        let mut out: Vec<Step> = Vec::new();
        match pattern {
            PatternNode::Literal(_) => {
                let mut steps = match self.generate_value_equality(
                    Reg::Subject,
                    Reg::Pattern,
                    t,
                    Reg::Condition,
                ) {
                    Ok(steps) => steps,
                    Err(e) => {
                        return Err(e);
                    },
                };
                let ghost rest = steps@;
                out.push(Step::Evaluate { part: Part::PatternLiteral, into: Reg::Pattern });
                out.append(&mut steps);
                assert(out@ =~= seq![
                    Step::Evaluate { part: Part::PatternLiteral, into: Reg::Pattern },
                ] + rest);
                Ok(PatternTest { steps: out, condition: Reg::Condition })
            },
            PatternNode::Identifier(name) => {
                if self.names_constant(name.as_str()) {
                    if self.get_variable(name.as_str()).is_none() {
                        let mut message = cat("Constant ", name.as_str());
                        message.append(" not found");
                        return Err(message);
                    }
                    let mut steps = match self.generate_value_equality(
                        Reg::Subject,
                        Reg::Pattern,
                        t,
                        Reg::Condition,
                    ) {
                        Ok(steps) => steps,
                        Err(e) => {
                            return Err(e);
                        },
                    };
                    let ghost rest = steps@;
                    out.push(Step::LoadConstant { into: Reg::Pattern });
                    match raw_kind_of(t) {
                        Some(kind) => {
                            out.push(Step::Raw { kind, value: Reg::Pattern, into: Reg::Pattern });
                        },
                        None => {},
                    }
                    assert(out@ =~= read_constant(t.term()));
                    out.append(&mut steps);
                    assert(out@ =~= read_constant(t.term()) + rest);
                    Ok(PatternTest { steps: out, condition: Reg::Condition })
                } else {
                    out.push(Step::Box { value: Reg::Subject, into: Reg::Stored });
                    out.push(
                        Step::Allocate {
                            storage: Storage::Pointer,
                            name: SlotName::Declared,
                            into: Reg::Slot,
                        },
                    );
                    out.push(Step::Store { value: Reg::Stored, to: Reg::Slot });
                    assert(out@ =~= bind_subject());
                    self.bind(name.as_str(), t.copy());
                    Ok(PatternTest { steps: out, condition: Reg::True })
                }
            },
            PatternNode::Wildcard => {
                assert(out@ =~= seq![]);
                Ok(PatternTest { steps: out, condition: Reg::True })
            },
            PatternNode::List { elements, rest } => {
                match self.generate_list_pattern_check(t, elements, rest.is_some()) {
                    Ok(steps) => Ok(PatternTest { steps, condition: Reg::Condition }),
                    Err(e) => Err(e),
                }
            },
            PatternNode::EnumVariant { .. } => Err(
                "Enum variant patterns are not valid in non-enum match".to_owned(),
            ),
        }
    }

    fn names_constant(&self, name: &str) -> (r: bool)
        ensures
            r == self.is_constant(name@),
    {
        match self.find_symbol(name) {
            Some(s) => s.kind == SymbolKind::Constant,
            None => false,
        }
    }

    /// Prepares the subject of a match once it is evaluated, where `inferred` is
    /// what inference says of it. A subject that is no plain name, field or call is evaluated into
    /// a slot with a name of its own.
    pub fn prepare_match_expression(
        &mut self,
        expr: &ExpressionNode,
        inferred: Result<Type, String>,
    ) -> (r: Result<MatchSubject, String>)
        requires
            old(self).variables@.len() > 0,
            old(self).label_counter < usize::MAX,
        ensures
            if is_plain_subject(*expr) {
                r == Ok::<MatchSubject, String>(MatchSubject::Plain) && *final(self) == *old(self)
            } else {
                &&& *final(self) == (CodeGenerator {
                    variables: final(self).variables,
                    label_counter: (old(self).label_counter + 1) as usize,
                    ..*old(self)
                })
                &&& match inference(resolved(inferred)) {
                    Err(e) => {
                        &&& r matches Err(message) && message@ == e
                        &&& final(self).variables@ == old(self).variables@
                    },
                    Ok(t) => {
                        &&& r matches Ok(MatchSubject::Spilled { name, steps }) && name@
                            == temporary(old(self).label_counter) && steps@ == spill(t)
                        &&& scopes_of(final(self).variables@) == bound(
                            scopes_of(old(self).variables@),
                            temporary(old(self).label_counter),
                            t,
                        )
                    },
                }
            },
    {
        let plain = match &expr.kind {
            ExpressionKind::Identifier(_) => true,
            ExpressionKind::FieldAccess { .. } => true,
            ExpressionKind::Call { func, .. } => matches!(func.kind, ExpressionKind::Identifier(_)),
            _ => false,
        };
        if plain {
            return Ok(MatchSubject::Plain);
        }
        let id: usize = self.label_counter;
        self.label_counter = id + 1;
        let t = match inferred {
            Ok(t) => t,
            Err(e) => {
                return Err(cat("Type inference failed: ", e.as_str()));
            },
        };
        let name = cat("match_temp_", decimal_string(id).as_str());
        let own = self.scalar_slot_type(&t);
        let storage = storage_for(&own);
        let mut out: Vec<Step> = Vec::new();
        out.push(Step::Register(Reg::Value));
        out.push(Step::Allocate { storage, name: SlotName::Declared, into: Reg::Slot });
        if own.is_some() {
            out.push(Step::Coerce { value: Reg::Value, storage, into: Reg::Stored });
            out.push(Step::Store { value: Reg::Stored, to: Reg::Slot });
        } else {
            out.push(Step::Store { value: Reg::Value, to: Reg::Slot });
        }
        assert(out@ =~= spill(t.term()));
        self.bind(name.as_str(), t);
        Ok(MatchSubject::Spilled { name, steps: out })
    }
}

/// The test of a list pattern fixes the length: without a rest the list has
/// as many elements as the pattern, with one at least as many.
pub proof fn list_pattern_tests_length(t: TypeTerm, elements: Seq<PatternNode>, has_rest: bool)
    requires
        list_check(t, elements, has_rest) is Ok,
    ensures
        length_test(elements.len(), has_rest).is_prefix_of(list_check(t, elements, has_rest)->Ok_0),
{
    let test = length_test(elements.len(), has_rest);
    match element_type(t) {
        Some(inner) => {
            tests_keep_front(elements, 0, inner, test);
        },
        None => {},
    }
}

proof fn tests_keep_front(elements: Seq<PatternNode>, i: int, inner: TypeTerm, done: Seq<Step>)
    requires
        element_tests(elements, i, inner, done) is Ok,
    ensures
        done.is_prefix_of(element_tests(elements, i, inner, done)->Ok_0),
    decreases elements.len() - i,
{
    if 0 <= i < elements.len() {
        if elements[i] is Literal {
            let more = done + element_test(i, inner)->Ok_0;
            tests_keep_front(elements, i + 1, inner, more);
            let all = element_tests(elements, i + 1, inner, more)->Ok_0;
            assert(all.take(done.len() as int) =~= all.take(more.len() as int).take(
                done.len() as int,
            ));
            assert(more.take(done.len() as int) =~= done);
        } else {
            tests_keep_front(elements, i + 1, inner, done);
        }
    }
}

} // verus!
