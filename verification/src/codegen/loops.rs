//! Branches and loops.

use crate::ast::nodes::{ExpressionKind, ExpressionNode, StatementKind, StatementNode};
use crate::ast::PrimitiveType;
use crate::codegen::generator::{has_name, names_of, CodeGenerator};
use crate::codegen::layout::{scalar, Slot, SlotModel};
use crate::codegen::scopes::{bound, scopes_of};
use crate::codegen::steps::{BlockLabel, Comparison, Part, Reg, SlotName, Step, Storage};
use crate::semantics::types::{term_shapes, type_variant, TypeTerm};
use crate::semantics::Type;
use crate::text::same;
use vstd::prelude::*;

verus! {

broadcast use term_shapes;

/// How a loop iterates.
#[derive(Debug, Clone, Copy, PartialEq, Eq, Structural)]
pub enum LoopKind {
    /// `range(a, b)` counts.
    Range,
    /// Everything else is iterated as a list.
    List,
}

/// Whether an expression is a call of `range` with two arguments.
pub open spec fn is_range(e: ExpressionNode) -> bool {
    match e.kind {
        ExpressionKind::Call { func, args } => match func.kind {
            ExpressionKind::Identifier(name) => name@ == "range"@ && args@.len() == 2,
            _ => false,
        },
        _ => false,
    }
}

/// The storage of a slot type.
pub open spec fn storage_of(slot: Option<SlotModel>) -> Storage {
    match slot {
        Some(SlotModel::Int64) => Storage::Int64,
        Some(SlotModel::Double) => Storage::Double,
        Some(SlotModel::Bit) => Storage::Bit,
        _ => Storage::Pointer,
    }
}

impl CodeGenerator {
    pub open spec fn is_captured(&self, name: Seq<char>) -> bool {
        names_of(self.captured_names@).contains(name)
    }

    /// The slot that holds a binding's value itself, where there is one.
    pub open spec fn own_slot(&self, name: Seq<char>, t: TypeTerm) -> Option<SlotModel> {
        if self.is_captured(name) || names_of(self.address_taken@).contains(name) {
            None
        } else {
            scalar(t)
        }
    }

    /// What a binding's slot holds.
    pub open spec fn binding_storage(&self, name: Seq<char>, t: TypeTerm) -> Storage {
        storage_of(self.own_slot(name, t))
    }

    /// A loop variable's slot: a cell where closures capture the variable, and
    /// else a slot in the entry block.
    pub open spec fn loop_variable_steps(&self, name: Seq<char>, t: TypeTerm) -> Seq<Step> {
        if self.is_captured(name) {
            seq![Step::AllocateCell { into: Reg::VarSlot }, Step::TrackCell(Reg::VarSlot)]
        } else {
            seq![
                Step::AllocateAtEntry {
                    storage: self.binding_storage(name, t),
                    name: SlotName::Declared,
                    into: Reg::VarSlot,
                },
                Step::TrackBoxed(Reg::VarSlot),
            ]
        }
    }
}

/// The loop's body, the next index and the way back.
pub open spec fn iteration_steps(id: usize) -> Seq<Step> {
    seq![
        Step::Statements(Part::Body),
        Step::Add {
            left: Reg::BodyIndex,
            right: Reg::Number(1),
            name: "inc",
            into: Reg::NextIndex,
        },
        Step::Store { value: Reg::NextIndex, to: Reg::IndexSlot },
        Step::Jump(BlockLabel::ForHeader(id)),
    ]
}

/// A loop's index slot with its first value.
pub open spec fn index_steps(first: Reg) -> Seq<Step> {
    seq![
        Step::Allocate {
            storage: Storage::Int64,
            name: SlotName::Own("index"),
            into: Reg::IndexSlot,
        },
        Step::Store { value: first, to: Reg::IndexSlot },
    ]
}

/// A loop's blocks and its test: the body is entered while the index is below
/// `limit`.
pub open spec fn header_steps(id: usize, limit: Reg) -> Seq<Step> {
    seq![
        Step::Append(BlockLabel::ForHeader(id)),
        Step::Append(BlockLabel::ForBody(id)),
        Step::Append(BlockLabel::ForExit(id)),
        Step::Jump(BlockLabel::ForHeader(id)),
        Step::Enter(BlockLabel::ForHeader(id)),
        Step::Load {
            storage: Storage::Int64,
            from: Reg::IndexSlot,
            name: "index_load",
            into: Reg::HeaderIndex,
        },
        Step::Compare {
            by: Comparison::SignedLess,
            left: Reg::HeaderIndex,
            right: limit,
            name: "cmp",
            into: Reg::Condition,
        },
        Step::Branch {
            condition: Reg::Condition,
            yes: BlockLabel::ForBody(id),
            no: BlockLabel::ForExit(id),
        },
        Step::Enter(BlockLabel::ForBody(id)),
        Step::Load {
            storage: Storage::Int64,
            from: Reg::IndexSlot,
            name: "index_load2",
            into: Reg::BodyIndex,
        },
    ]
}

/// A string is iterated as the list of its characters.
pub open spec fn characters_steps() -> Seq<Step> {
    seq![
        Step::Text { value: Reg::Items, into: Reg::LeftText },
        Step::Call1 {
            function: "mux_string_to_list",
            arg: Reg::LeftText,
            name: "",
            into: Reg::Items,
        },
        Step::FreeText(Reg::LeftText),
        Step::Register(Reg::Items),
    ]
}

/// The bounds of a counting loop.
pub open spec fn bounds_steps() -> Seq<Step> {
    seq![
        Step::Evaluate { part: Part::RangeStart, into: Reg::Start },
        Step::Evaluate { part: Part::RangeEnd, into: Reg::End },
    ]
}

/// The list that a loop iterates, and its length.
pub open spec fn items_steps(string: bool) -> Seq<Step> {
    seq![Step::Evaluate { part: Part::Expression, into: Reg::Items }] + (if string {
        characters_steps()
    } else {
        seq![]
    }) + seq![
        Step::Call1 {
            function: "mux_value_list_length",
            arg: Reg::Items,
            name: "list_len",
            into: Reg::Length,
        },
    ]
}

/// A branch's condition.
pub open spec fn condition_steps() -> Seq<Step> {
    seq![Step::Evaluate { part: Part::Condition, into: Reg::Condition }]
}

/// Whether a subject's type is known to be the string type.
pub open spec fn is_string(t: Result<Type, String>) -> bool {
    t is Ok && t->Ok_0.term() == TypeTerm::Primitive(PrimitiveType::Str)
}

impl CodeGenerator {
    /// A loop over the integers from a start to an end, which it leaves out,
    /// behind its bounds.
    pub open spec fn range_loop_steps(&self, var: Seq<char>) -> Seq<Step> {
        let id = self.label_counter;
        let integer = TypeTerm::Primitive(PrimitiveType::Int);
        index_steps(Reg::Start) + self.loop_variable_steps(var, integer) + header_steps(
            id,
            Reg::End,
        ) + seq![
            Step::Overwrite {
                slot: Reg::VarSlot,
                storage: self.binding_storage(var, integer),
                value: Reg::BodyIndex,
            },
        ] + iteration_steps(id) + seq![Step::Enter(BlockLabel::ForExit(id))]
    }

    /// A loop over the elements of a list, behind the list and its length.
    pub open spec fn list_loop_steps(&self, var: Seq<char>, t: TypeTerm) -> Seq<Step> {
        let id = self.label_counter;
        index_steps(Reg::Number(0)) + self.loop_variable_steps(var, t) + header_steps(
            id,
            Reg::Length,
        ) + seq![
            Step::Call2 {
                function: "mux_value_list_get_value",
                left: Reg::Items,
                right: Reg::BodyIndex,
                name: "list_get_value",
                into: Reg::Current,
            },
            Step::Register(Reg::Current),
            Step::Overwrite {
                slot: Reg::VarSlot,
                storage: self.binding_storage(var, t),
                value: Reg::Current,
            },
        ] + iteration_steps(id) + seq![
            Step::Append(BlockLabel::ForContinue(id)),
            Step::Enter(BlockLabel::ForExit(id)),
            Step::Jump(BlockLabel::ForContinue(id)),
            Step::Enter(BlockLabel::ForContinue(id)),
        ]
    }
}

/// Whether a block's last statement is a return.
pub open spec fn ends_with_return(block: Seq<StatementNode>) -> bool {
    block.len() > 0 && block.last().kind is Return
}

/// The way from the end of a branch's side to the common continuation.
pub open spec fn merge_jump(open: bool, id: usize) -> Seq<Step> {
    if open {
        seq![Step::Jump(BlockLabel::IfMerge(id))]
    } else {
        seq![]
    }
}

/// A branch, behind its condition. It continues in a block of its own unless
/// both sides return.
pub open spec fn if_steps(id: usize, then_returns: bool, has_else: bool, else_returns: bool) -> Seq<
    Step,
> {
    let merge = !then_returns || !else_returns;
    seq![
        Step::Append(BlockLabel::IfThen(id)),
        Step::Append(BlockLabel::IfElse(id)),
    ] + (if merge {
        seq![Step::Append(BlockLabel::IfMerge(id))]
    } else {
        seq![]
    }) + seq![
        Step::Branch {
            condition: Reg::Condition,
            yes: BlockLabel::IfThen(id),
            no: BlockLabel::IfElse(id),
        },
        Step::Enter(BlockLabel::IfThen(id)),
        Step::Statements(Part::ThenBlock),
    ] + merge_jump(!then_returns, id) + seq![Step::Enter(BlockLabel::IfElse(id))] + (if has_else {
        seq![Step::Statements(Part::ElseBlock)]
    } else {
        seq![]
    }) + merge_jump(!else_returns, id) + (if merge {
        seq![Step::Enter(BlockLabel::IfMerge(id))]
    } else {
        seq![]
    })
}

/// A loop while a condition holds.
pub open spec fn while_steps() -> Seq<Step> {
    seq![
        Step::Append(BlockLabel::WhileHeader),
        Step::Append(BlockLabel::WhileBody),
        Step::Append(BlockLabel::WhileExit),
        Step::Jump(BlockLabel::WhileHeader),
        Step::Enter(BlockLabel::WhileHeader),
        Step::Evaluate { part: Part::Condition, into: Reg::Condition },
        Step::Branch {
            condition: Reg::Condition,
            yes: BlockLabel::WhileBody,
            no: BlockLabel::WhileExit,
        },
        Step::Enter(BlockLabel::WhileBody),
        Step::Statements(Part::Body),
        Step::Jump(BlockLabel::WhileHeader),
        Step::Enter(BlockLabel::WhileExit),
    ]
}

/// The storage of a slot type.
pub fn storage_for(slot: &Option<Slot>) -> (r: Storage)
    ensures
        r == storage_of(
            match *slot {
                Some(s) => Some(s@),
                None => None,
            },
        ),
{
    match slot {
        Some(Slot::Int64) => Storage::Int64,
        Some(Slot::Double) => Storage::Double,
        Some(Slot::Bit) => Storage::Bit,
        _ => Storage::Pointer,
    }
}

fn push_index(out: &mut Vec<Step>, first: Reg)
    ensures
        final(out)@ == old(out)@ + index_steps(first),
{
    out.push(
        Step::Allocate {
            storage: Storage::Int64,
            name: SlotName::Own("index"),
            into: Reg::IndexSlot,
        },
    );
    out.push(Step::Store { value: first, to: Reg::IndexSlot });
    assert(out@ =~= old(out)@ + index_steps(first));
}

fn push_header(out: &mut Vec<Step>, id: usize, limit: Reg)
    ensures
        final(out)@ == old(out)@ + header_steps(id, limit),
{
    out.push(Step::Append(BlockLabel::ForHeader(id)));
    out.push(Step::Append(BlockLabel::ForBody(id)));
    out.push(Step::Append(BlockLabel::ForExit(id)));
    out.push(Step::Jump(BlockLabel::ForHeader(id)));
    out.push(Step::Enter(BlockLabel::ForHeader(id)));
    out.push(
        Step::Load {
            storage: Storage::Int64,
            from: Reg::IndexSlot,
            name: "index_load",
            into: Reg::HeaderIndex,
        },
    );
    out.push(
        Step::Compare {
            by: Comparison::SignedLess,
            left: Reg::HeaderIndex,
            right: limit,
            name: "cmp",
            into: Reg::Condition,
        },
    );
    out.push(
        Step::Branch {
            condition: Reg::Condition,
            yes: BlockLabel::ForBody(id),
            no: BlockLabel::ForExit(id),
        },
    );
    out.push(Step::Enter(BlockLabel::ForBody(id)));
    out.push(
        Step::Load {
            storage: Storage::Int64,
            from: Reg::IndexSlot,
            name: "index_load2",
            into: Reg::BodyIndex,
        },
    );
    assert(out@ =~= old(out)@ + header_steps(id, limit));
}

/// The loop's body, the next index and the way back. Counting loops and loops
/// over lists share it: they differ in how they test the index and fetch the
/// element.
fn close_loop_iteration(out: &mut Vec<Step>, id: usize)
    ensures
        final(out)@ == old(out)@ + iteration_steps(id),
{
    out.push(Step::Statements(Part::Body));
    out.push(
        Step::Add {
            left: Reg::BodyIndex,
            right: Reg::Number(1),
            name: "inc",
            into: Reg::NextIndex,
        },
    );
    out.push(Step::Store { value: Reg::NextIndex, to: Reg::IndexSlot });
    out.push(Step::Jump(BlockLabel::ForHeader(id)));
    assert(out@ =~= old(out)@ + iteration_steps(id));
}

/// Whether a block's last statement is a return.
pub fn block_returns(block: &Vec<StatementNode>) -> (r: bool)
    ensures
        r == ends_with_return(block@),
{
    let n: usize = block.len();
    n > 0 && matches!(block[n - 1].kind, StatementKind::Return(_))
}

fn push_jump(out: &mut Vec<Step>, open: bool, id: usize)
    ensures
        final(out)@ == old(out)@ + merge_jump(open, id),
{
    if open {
        out.push(Step::Jump(BlockLabel::IfMerge(id)));
    }
    assert(out@ =~= old(out)@ + merge_jump(open, id));
}

impl CodeGenerator {
    /// What a binding's slot holds.
    pub fn storage_for_binding(&self, name: &str, ty: &Type) -> (r: Storage)
        ensures
            r == self.binding_storage(name@, ty.term()),
    {
        storage_for(&self.scalar_slot_for_binding(name, ty))
    }

    /// Gives a loop's variable its slot and binds its name.
    ///
    /// The slot is set to nothing in the entry block: each iteration releases
    /// what the one before left there, and the first one finds nothing.
    fn bind_loop_variable(&mut self, out: &mut Vec<Step>, var: &str, t: Type)
        requires
            old(self).variables@.len() > 0,
        ensures
            final(out)@ == old(out)@ + old(self).loop_variable_steps(var@, t.term()),
            scopes_of(final(self).variables@) == bound(
                scopes_of(old(self).variables@),
                var@,
                t.term(),
            ),
            *final(self) == (CodeGenerator { variables: final(self).variables, ..*old(self) }),
    {
        if has_name(&self.captured_names, var) {
            out.push(Step::AllocateCell { into: Reg::VarSlot });
            out.push(Step::TrackCell(Reg::VarSlot));
        } else {
            let storage = self.storage_for_binding(var, &t);
            out.push(
                Step::AllocateAtEntry { storage, name: SlotName::Declared, into: Reg::VarSlot },
            );
            out.push(Step::TrackBoxed(Reg::VarSlot));
        }
        assert(out@ =~= old(out)@ + old(self).loop_variable_steps(var@, t.term()));
        self.bind(var, t);
    }

    /// How a loop iterates. `range(a, b)` counts; everything else is iterated
    /// as a list, whatever expression gives it.
    pub fn generate_for_statement_inner(&self, iter: &ExpressionNode) -> (r: LoopKind)
        ensures
            r == (if is_range(*iter) {
                LoopKind::Range
            } else {
                LoopKind::List
            }),
    {
        match &iter.kind {
            ExpressionKind::Call { func, args } => match &func.kind {
                ExpressionKind::Identifier(name) => {
                    if same(name.as_str(), "range") && args.len() == 2 {
                        LoopKind::Range
                    } else {
                        LoopKind::List
                    }
                },
                _ => LoopKind::List,
            },
            _ => LoopKind::List,
        }
    }

    /// The bounds of a counting loop. They are evaluated before the loop takes
    /// a number for its blocks.
    pub fn begin_range_for_loop(&self) -> (r: Vec<Step>)
        ensures
            r@ == bounds_steps(),
    {
        let mut out: Vec<Step> = Vec::new();
        out.push(Step::Evaluate { part: Part::RangeStart, into: Reg::Start });
        out.push(Step::Evaluate { part: Part::RangeEnd, into: Reg::End });
        assert(out@ =~= bounds_steps());
        out
    }

    /// A loop over the integers from a start to an end, which it leaves out,
    /// once the bounds are evaluated. The variable is bound in the innermost
    /// scope.
    pub fn generate_range_for_loop(&mut self, var: &str) -> (r: Vec<Step>)
        requires
            old(self).variables@.len() > 0,
            old(self).label_counter < usize::MAX,
        ensures
            r@ == old(self).range_loop_steps(var@),
            scopes_of(final(self).variables@) == bound(
                scopes_of(old(self).variables@),
                var@,
                TypeTerm::Primitive(PrimitiveType::Int),
            ),
            *final(self) == (CodeGenerator {
                variables: final(self).variables,
                label_counter: (old(self).label_counter + 1) as usize,
                ..*old(self)
            }),
    {
        let mut out: Vec<Step> = Vec::new();
        push_index(&mut out, Reg::Start);
        let integer = Type::Primitive(PrimitiveType::Int);
        let storage = self.storage_for_binding(var, &integer);
        self.bind_loop_variable(&mut out, var, integer);
        let id: usize = self.label_counter;
        self.label_counter = id + 1;
        push_header(&mut out, id, Reg::End);
        out.push(Step::Overwrite { slot: Reg::VarSlot, storage, value: Reg::BodyIndex });
        close_loop_iteration(&mut out, id);
        out.push(Step::Enter(BlockLabel::ForExit(id)));
        assert(out@ =~= old(self).range_loop_steps(var@));
        out
    }

    /// The list that a loop iterates, or the characters of a string, and its
    /// length. `resolved` is the variable's declared type, which is handed on;
    /// `subject` is what inference says of the iterated expression. The list is
    /// evaluated before the loop takes a number for its blocks.
    pub fn begin_list_for_loop(
        &self,
        resolved: Result<Type, String>,
        subject: &Result<Type, String>,
    ) -> (r: Result<(Vec<Step>, Type), String>)
        ensures
            match resolved {
                Err(e) => r == Err::<(Vec<Step>, Type), String>(e),
                Ok(t) => r matches Ok(p) && p.0@ == items_steps(is_string(*subject)) && p.1 == t,
            },
    {
        let t = match resolved {
            Ok(t) => t,
            Err(e) => {
                return Err(e);
            },
        };
        let string = match subject {
            Ok(s) => {
                proof {
                    type_variant(*s);
                }
                match s {
                    Type::Primitive(p) => {
                        assert(*s == Type::Primitive(*p));
                        *p == PrimitiveType::Str
                    },
                    _ => false,
                }
            },
            Err(_) => false,
        };
        let mut out: Vec<Step> = Vec::new();
        out.push(Step::Evaluate { part: Part::Expression, into: Reg::Items });
        if string {
            out.push(Step::Text { value: Reg::Items, into: Reg::LeftText });
            out.push(
                Step::Call1 {
                    function: "mux_string_to_list",
                    arg: Reg::LeftText,
                    name: "",
                    into: Reg::Items,
                },
            );
            out.push(Step::FreeText(Reg::LeftText));
            out.push(Step::Register(Reg::Items));
        }
        out.push(
            Step::Call1 {
                function: "mux_value_list_length",
                arg: Reg::Items,
                name: "list_len",
                into: Reg::Length,
            },
        );
        assert(out@ =~= items_steps(string));
        Ok((out, t))
    }

    /// A loop over the elements of a list, once the list is evaluated. The
    /// variable is bound in the innermost scope.
    pub fn generate_list_for_loop(&mut self, var: &str, t: Type) -> (r: Vec<Step>)
        requires
            old(self).variables@.len() > 0,
            old(self).label_counter < usize::MAX,
        ensures
            r@ == old(self).list_loop_steps(var@, t.term()),
            scopes_of(final(self).variables@) == bound(
                scopes_of(old(self).variables@),
                var@,
                t.term(),
            ),
            *final(self) == (CodeGenerator {
                variables: final(self).variables,
                label_counter: (old(self).label_counter + 1) as usize,
                ..*old(self)
            }),
    {
        let mut out: Vec<Step> = Vec::new();
        push_index(&mut out, Reg::Number(0));
        let storage = self.storage_for_binding(var, &t);
        self.bind_loop_variable(&mut out, var, t);
        let id: usize = self.label_counter;
        self.label_counter = id + 1;
        push_header(&mut out, id, Reg::Length);
        out.push(
            Step::Call2 {
                function: "mux_value_list_get_value",
                left: Reg::Items,
                right: Reg::BodyIndex,
                name: "list_get_value",
                into: Reg::Current,
            },
        );
        out.push(Step::Register(Reg::Current));
        out.push(Step::Overwrite { slot: Reg::VarSlot, storage, value: Reg::Current });
        close_loop_iteration(&mut out, id);
        out.push(Step::Append(BlockLabel::ForContinue(id)));
        out.push(Step::Enter(BlockLabel::ForExit(id)));
        out.push(Step::Jump(BlockLabel::ForContinue(id)));
        out.push(Step::Enter(BlockLabel::ForContinue(id)));
        assert(out@ =~= old(self).list_loop_steps(var@, t.term()));
        out
    }

    /// A branch's condition. It is evaluated before the branch takes a number
    /// for its blocks.
    pub fn begin_if_statement(&self) -> (r: Vec<Step>)
        ensures
            r@ == condition_steps(),
    {
        let mut out: Vec<Step> = Vec::new();
        out.push(Step::Evaluate { part: Part::Condition, into: Reg::Condition });
        assert(out@ =~= condition_steps());
        out
    }

    /// A branch, once its condition is evaluated.
    pub fn generate_if_statement(
        &mut self,
        then_block: &Vec<StatementNode>,
        else_block: &Option<Vec<StatementNode>>,
    ) -> (r: Vec<Step>)
        requires
            old(self).label_counter < usize::MAX,
        ensures
            r@ == if_steps(
                old(self).label_counter,
                ends_with_return(then_block@),
                else_block is Some,
                else_block is Some && ends_with_return(else_block->0@),
            ),
            *final(self) == (CodeGenerator {
                label_counter: (old(self).label_counter + 1) as usize,
                ..*old(self)
            }),
    {
        let id: usize = self.label_counter;
        self.label_counter = id + 1;
        let then_returns = block_returns(then_block);
        let (has_else, else_returns) = match else_block {
            Some(block) => (true, block_returns(block)),
            None => (false, false),
        };
        let merge = !then_returns || !else_returns;
        let mut out: Vec<Step> = Vec::new();
        out.push(Step::Append(BlockLabel::IfThen(id)));
        out.push(Step::Append(BlockLabel::IfElse(id)));
        if merge {
            out.push(Step::Append(BlockLabel::IfMerge(id)));
        }
        out.push(
            Step::Branch {
                condition: Reg::Condition,
                yes: BlockLabel::IfThen(id),
                no: BlockLabel::IfElse(id),
            },
        );
        out.push(Step::Enter(BlockLabel::IfThen(id)));
        out.push(Step::Statements(Part::ThenBlock));
        push_jump(&mut out, !then_returns, id);
        out.push(Step::Enter(BlockLabel::IfElse(id)));
        if has_else {
            out.push(Step::Statements(Part::ElseBlock));
        }
        push_jump(&mut out, !else_returns, id);
        if merge {
            out.push(Step::Enter(BlockLabel::IfMerge(id)));
        }
        assert(out@ =~= if_steps(id, then_returns, has_else, else_returns));
        out
    }

    /// A loop while a condition holds.
    pub fn generate_while_statement(&self) -> (r: Vec<Step>)
        ensures
            r@ == while_steps(),
    {
        let mut out: Vec<Step> = Vec::new();
        out.push(Step::Append(BlockLabel::WhileHeader));
        out.push(Step::Append(BlockLabel::WhileBody));
        out.push(Step::Append(BlockLabel::WhileExit));
        out.push(Step::Jump(BlockLabel::WhileHeader));
        out.push(Step::Enter(BlockLabel::WhileHeader));
        out.push(Step::Evaluate { part: Part::Condition, into: Reg::Condition });
        out.push(
            Step::Branch {
                condition: Reg::Condition,
                yes: BlockLabel::WhileBody,
                no: BlockLabel::WhileExit,
            },
        );
        out.push(Step::Enter(BlockLabel::WhileBody));
        out.push(Step::Statements(Part::Body));
        out.push(Step::Jump(BlockLabel::WhileHeader));
        out.push(Step::Enter(BlockLabel::WhileExit));
        assert(out@ =~= while_steps());
        out
    }
}

/// Whether the last step of some leaves generation in a block.
pub open spec fn ends_in(steps: Seq<Step>, label: BlockLabel) -> bool {
    steps.len() > 0 && steps.last() == Step::Enter(label)
}

/// Every block that a loop over a list jumps to or enters is one that it
/// appends, and generation goes on in the last of them.
pub proof fn list_loop_blocks_exist(g: &CodeGenerator, var: Seq<char>, t: TypeTerm)
    ensures
        ends_in(
            g.list_loop_steps(var, t),
            BlockLabel::ForContinue(g.label_counter),
        ),
        forall|label: BlockLabel|
            g.list_loop_steps(var, t).contains(Step::Enter(label))
                ==> #[trigger] g.list_loop_steps(var, t).contains(Step::Append(label)),
{
    let steps = g.list_loop_steps(var, t);
    let id = g.label_counter;
    let n = steps.len() as int;
    assert(steps.last() == Step::Enter(BlockLabel::ForContinue(id)));
    assert(steps[n - 4] == Step::Append(BlockLabel::ForContinue(id)));
    let h = n - 21;
    assert(steps[h] == Step::Append(BlockLabel::ForHeader(id)));
    assert(steps[h + 1] == Step::Append(BlockLabel::ForBody(id)));
    assert(steps[h + 2] == Step::Append(BlockLabel::ForExit(id)));
    assert forall|label: BlockLabel| steps.contains(Step::Enter(label)) implies #[trigger] steps.contains(
        Step::Append(label),
    ) by {
        let i = choose|i: int| 0 <= i < steps.len() && steps[i] == Step::Enter(label);
        assert(label == BlockLabel::ForHeader(id) || label == BlockLabel::ForBody(id) || label
            == BlockLabel::ForExit(id) || label == BlockLabel::ForContinue(id));
    }
}

/// A branch whose two sides return continues nowhere.
pub proof fn returning_sides_never_merge(id: usize)
    ensures
        !if_steps(id, true, true, true).contains(Step::Append(BlockLabel::IfMerge(id))),
        !if_steps(id, true, true, true).contains(Step::Jump(BlockLabel::IfMerge(id))),
        !if_steps(id, true, true, true).contains(Step::Enter(BlockLabel::IfMerge(id))),
{
    let steps = if_steps(id, true, true, true);
    assert(steps.len() == 7);
}

} // verus!
