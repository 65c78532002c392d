//! What code generation asks of the instruction builder.
//!
//! A statement is generated as a sequence of steps. A step names the values
//! that it reads and the one that it gives. Expressions, nested statements and
//! the helpers of the builder are steps of their own: they are carried out
//! where they stand in the sequence.

use crate::text::{cat, decimal, decimal_string};
use vstd::prelude::*;

verus! {

/// What kind of value the builder holds for an expression.
#[derive(Debug, Clone, Copy, PartialEq, Eq, Structural)]
pub enum ValueKind {
    /// An integer of a width in bits.
    Int(u32),
    Float,
    Pointer,
    Struct,
}

/// The type of a slot in a step.
#[derive(Debug, Clone, Copy, PartialEq, Eq, Hash, Structural)]
pub enum Storage {
    Int64,
    Double,
    Bit,
    Pointer,
    /// The type of the value that is stored.
    OfValue,
    /// The type that the declaration writes.
    OfDeclared,
    /// The type that the existing slot has.
    OfSlot,
    /// The struct of the enum that is matched.
    OfEnum,
    /// The type of a payload field of the matched variant.
    OfField(usize),
}

/// The values that steps read and give.
#[derive(Debug, Clone, Copy, PartialEq, Eq, Hash, Structural)]
pub enum Reg {
    /// The value of the statement's expression.
    Value,
    /// The value as it is stored or returned.
    Stored,
    /// The slot of the declared name.
    Slot,
    /// The slot that the name already has.
    Existing,
    /// What the slot held before.
    Previous,
    /// The bounds of a counting loop.
    Start,
    End,
    /// The list of a loop, and its number of elements.
    Items,
    Length,
    /// The slot of a loop's index, and its value in the header and the body.
    IndexSlot,
    HeaderIndex,
    BodyIndex,
    NextIndex,
    /// The slot of a loop's variable.
    VarSlot,
    /// An element of a list, by its place.
    Element(usize),
    /// The element that the loop has reached.
    Current,
    /// A C string of the left or right side of a comparison.
    LeftText,
    RightText,
    /// The sides of a comparison.
    Left,
    Right,
    LeftRaw,
    RightRaw,
    /// The outcome of a runtime call.
    Outcome,
    /// A condition.
    Condition,
    /// The condition of an element, by its place.
    ElementCondition(usize),
    /// The condition that always holds.
    True,
    /// The subject of a match, and as a pointer to it.
    Subject,
    SubjectPointer,
    /// A pointer to the struct of the matched enum.
    EnumPointer,
    /// A pattern's value.
    Pattern,
    /// The discriminant of the matched enum.
    Discriminant,
    /// A pointer to the payload, by place, and the payload.
    PayloadPointer(usize),
    Payload(usize),
    /// What remains of a list behind the first elements.
    Rest,
    /// A number.
    Number(u64),
}

/// The names of slots.
#[derive(Debug, Clone, Copy, PartialEq, Eq)]
pub enum SlotName {
    /// The declared name.
    Declared,
    /// The name that a pattern binds, by its place.
    Bound(usize),
    /// The name that takes the rest of a list.
    RestName,
    /// A name of the generator's own.
    Own(&'static str),
}

/// The parts of a statement that steps generate.
#[derive(Debug, Clone, Copy, PartialEq, Eq, Hash, Structural)]
pub enum Part {
    /// The expression of a declaration, return, match or iteration.
    Expression,
    /// The condition of a branch or a loop.
    Condition,
    /// The guard of a match arm.
    Guard,
    /// The arguments of `range`.
    RangeStart,
    RangeEnd,
    /// The literal of a pattern, or of its element at a place.
    PatternLiteral,
    ElementLiteral(usize),
    /// The body of a loop or an arm, and the two sides of a branch.
    Body,
    ThenBlock,
    ElseBlock,
    /// A predicate of the constraint that is checked, by its place.
    Predicate(usize),
}

/// Where a constraint is checked.
#[derive(Debug, Clone, Copy, PartialEq, Eq, Hash)]
pub enum CheckSite {
    /// A function's entry.
    Entry,
    /// A function's entry, for the preconditions of an interface, by its place.
    Interface(usize),
    /// The end of an object's construction.
    Construction,
    /// Another site, by the front of its blocks' names.
    Named(&'static str),
}

/// The labels of blocks.
#[derive(Debug, Clone, Copy, PartialEq, Eq, Hash)]
pub enum BlockLabel {
    ForHeader(usize),
    ForBody(usize),
    ForExit(usize),
    ForContinue(usize),
    IfThen(usize),
    IfElse(usize),
    IfMerge(usize),
    WhileHeader,
    WhileBody,
    WhileExit,
    MatchEnd(usize),
    MatchArm(usize, usize),
    MatchNext(usize, usize),
    MatchGuardPass(usize),
    /// Where a failed and a passed check go, by the check's place at its site.
    CheckFail(CheckSite, usize),
    CheckOk(CheckSite, usize),
    /// The block that was reached before the match.
    Entry,
}

/// How two numbers are compared.
#[derive(Debug, Clone, Copy, PartialEq, Eq, Structural)]
pub enum Comparison {
    SignedLess,
    SignedAtLeast,
    Equal,
    OrderedEqual,
}

/// The scalars that a boxed value can hold.
#[derive(Debug, Clone, Copy, PartialEq, Eq, Structural)]
pub enum RawKind {
    Int,
    Bool,
    Float,
}

/// A step of generation.
#[derive(Debug, Clone, Copy, PartialEq, Eq)]
pub enum Step {
    /// Generates an expression or a literal.
    Evaluate { part: Part, into: Reg },
    /// Generates statements.
    Statements(Part),
    /// Gives the zero of the declared type.
    Zero { into: Reg },
    /// Gives a slot in the entry block, set to zero.
    AllocateAtEntry { storage: Storage, name: SlotName, into: Reg },
    /// Gives a slot at the current place.
    Allocate { storage: Storage, name: SlotName, into: Reg },
    /// Gives a cell that closures share.
    AllocateCell { into: Reg },
    Store { value: Reg, to: Reg },
    Load { storage: Storage, from: Reg, name: &'static str, into: Reg },
    /// Loads a constant through its own slot.
    LoadConstant { into: Reg },
    /// Stores a value in place of the slot's previous one, which is released.
    Overwrite { slot: Reg, storage: Storage, value: Reg },
    /// Stores a struct, and releases what the slot held where asked to.
    StoreStruct { value: Reg, to: Reg, release: bool },
    /// Gives the value in a scalar slot's type.
    Coerce { value: Reg, storage: Storage, into: Reg },
    /// Gives the value as a box that the slot owns.
    BoxOwned { value: Reg, into: Reg },
    Box { value: Reg, into: Reg },
    /// Gives a pointer to the value.
    Point { value: Reg, into: Reg },
    /// Gives the scalar that a value is or holds.
    Raw { kind: RawKind, value: Reg, into: Reg },
    /// Gives the C string of a string value.
    Text { value: Reg, into: Reg },
    FreeText(Reg),
    /// Calls a runtime function; a name without a function is an error.
    Call1 { function: &'static str, arg: Reg, name: &'static str, into: Reg },
    Call2 { function: &'static str, left: Reg, right: Reg, name: &'static str, into: Reg },
    Call3 { function: &'static str, first: Reg, second: Reg, third: Reg, name: &'static str, into: Reg },
    /// Calls a runtime function for its effect.
    Perform { function: &'static str, arg: Reg, name: &'static str },
    /// Gives whether a runtime result is not zero.
    NonZero { value: Reg, into: Reg },
    Truncate { value: Reg, name: &'static str, into: Reg },
    Compare { by: Comparison, left: Reg, right: Reg, name: &'static str, into: Reg },
    And { left: Reg, right: Reg, name: &'static str, into: Reg },
    Add { left: Reg, right: Reg, name: &'static str, into: Reg },
    /// Gives a pointer to a field of the matched enum's struct.
    FieldPointer { of: Reg, index: usize, name: &'static str, into: Reg },
    /// Reads the discriminant of the matched enum.
    LoadDiscriminant { of: Reg, into: Reg },
    /// Compares the discriminant with that of a variant.
    IsVariant { index: usize, into: Reg },
    /// Reads the payload of a built-in enum.
    Extract { of: Reg, variant: &'static str, into: Reg },
    /// Makes the instances of generic enums that the written or matched type
    /// calls for, with their structs and their payload fields, where they do
    /// not exist yet.
    Instantiate,
    /// Declares the nested function in the module.
    DeclareFunction,
    /// Generates the nested function under the name that its node is kept with.
    GenerateFunction,
    /// Takes back what generating a nested function changed.
    RestoreFunction,
    /// Goes back to the last block of the enclosing function.
    ResumeFunction,
    /// Releases the value when the statement ends.
    Register(Reg),
    /// The value is no longer released when the statement ends.
    Untrack(Reg),
    UntrackClosure(Reg),
    UntrackEnum(Reg),
    /// The slot's contents are released when its scope ends, where it owns any.
    TrackBoxed(Reg),
    TrackCell(Reg),
    TrackClosure(Reg),
    TrackEnumPayload(Reg),
    /// The slot is released when its scope ends, where its type is counted.
    TrackCounted(Reg),
    /// Counts one more owner, of a value or of a closure.
    Retain(Reg),
    RetainClosure(Reg),
    /// Gives a copy of a borrowed struct value, which owns all that it holds.
    Clone { value: Reg, into: Reg },
    /// Gives an enum that was boxed as its struct.
    Inline { value: Reg, into: Reg },
    /// Releases what all open scopes hold.
    CleanUpScopes,
    Return(Reg),
    ReturnBool(bool),
    ReturnNothing,
    Append(BlockLabel),
    Enter(BlockLabel),
    Jump(BlockLabel),
    /// Jumps where the current block has no end yet.
    JumpIfOpen(BlockLabel),
    Branch { condition: Reg, yes: BlockLabel, no: BlockLabel },
    /// Marks the current block's end as never reached, where it has no end.
    UnreachableIfOpen,
    /// Generates the test, the bindings, and the guard and body of an arm.
    TestArm(usize),
    BindArm(usize),
    GuardAndBody(usize),
    OpenScope,
    CloseScope,
    /// Binds the name of an interface's parameter to the method's parameter at
    /// the same place.
    BindParameter(usize),
    /// Binds a field of a class, by its place among the fields, to its place in
    /// the object.
    BindField { field: usize, index: usize },
    /// Ends the program with a message that shows where the predicate stands.
    Fatal { message: &'static str, predicate: usize, site: CheckSite, check: usize },
}

/// The front of the names of a site's blocks.
pub open spec fn site_text(site: CheckSite) -> Seq<char> {
    match site {
        CheckSite::Entry => "where_pre"@,
        CheckSite::Interface(n) => "where_iface_"@ + decimal(n as nat),
        CheckSite::Construction => "where_new"@,
        CheckSite::Named(front) => front@,
    }
}

/// The front of the names of a check's blocks.
pub open spec fn check_text(site: CheckSite, i: nat) -> Seq<char> {
    site_text(site) + "_"@ + decimal(i)
}

/// The front of the names of a check's blocks.
pub fn check_prefix(site: CheckSite, i: usize) -> (r: String)
    ensures
        r@ == check_text(site, i as nat),
{
    let mut out = match site {
        CheckSite::Entry => "where_pre".to_owned(),
        CheckSite::Interface(n) => numbered("where_iface_", n),
        CheckSite::Construction => "where_new".to_owned(),
        CheckSite::Named(front) => front.to_owned(),
    };
    out.append("_");
    out.append(decimal_string(i).as_str());
    out
}

/// The name of a block.
pub open spec fn label_text(label: BlockLabel) -> Seq<char> {
    match label {
        BlockLabel::ForHeader(n) => "for_header_"@ + decimal(n as nat),
        BlockLabel::ForBody(n) => "for_body_"@ + decimal(n as nat),
        BlockLabel::ForExit(n) => "for_exit_"@ + decimal(n as nat),
        BlockLabel::ForContinue(n) => "for_continue_"@ + decimal(n as nat),
        BlockLabel::IfThen(n) => "if_then_"@ + decimal(n as nat),
        BlockLabel::IfElse(n) => "if_else_"@ + decimal(n as nat),
        BlockLabel::IfMerge(n) => "if_merge_"@ + decimal(n as nat),
        BlockLabel::WhileHeader => "while_header"@,
        BlockLabel::WhileBody => "while_body"@,
        BlockLabel::WhileExit => "while_exit"@,
        BlockLabel::MatchEnd(n) => "match_end_"@ + decimal(n as nat),
        BlockLabel::MatchArm(n, i) => "match_arm_"@ + decimal(n as nat) + "_"@ + decimal(i as nat),
        BlockLabel::MatchNext(n, i) => "match_next_"@ + decimal(n as nat) + "_"@ + decimal(
            i as nat,
        ),
        BlockLabel::MatchGuardPass(i) => "match_guard_pass_"@ + decimal(i as nat),
        BlockLabel::CheckFail(site, i) => check_text(site, i as nat) + "_fail"@,
        BlockLabel::CheckOk(site, i) => check_text(site, i as nat) + "_ok"@,
        BlockLabel::Entry => ""@,
    }
}

fn numbered(front: &str, n: usize) -> (r: String)
    ensures
        r@ == front@ + decimal(n as nat),
{
    cat(front, decimal_string(n).as_str())
}

fn numbered_twice(front: &str, n: usize, i: usize) -> (r: String)
    ensures
        r@ == front@ + decimal(n as nat) + "_"@ + decimal(i as nat),
{
    let mut out = numbered(front, n);
    out.append("_");
    out.append(decimal_string(i).as_str());
    out
}

/// The name of a block. The block before a match has none of its own.
pub fn label_name(label: BlockLabel) -> (r: String)
    ensures
        r@ == label_text(label),
{
    match label {
        BlockLabel::ForHeader(n) => numbered("for_header_", n),
        BlockLabel::ForBody(n) => numbered("for_body_", n),
        BlockLabel::ForExit(n) => numbered("for_exit_", n),
        BlockLabel::ForContinue(n) => numbered("for_continue_", n),
        BlockLabel::IfThen(n) => numbered("if_then_", n),
        BlockLabel::IfElse(n) => numbered("if_else_", n),
        BlockLabel::IfMerge(n) => numbered("if_merge_", n),
        BlockLabel::WhileHeader => "while_header".to_owned(),
        BlockLabel::WhileBody => "while_body".to_owned(),
        BlockLabel::WhileExit => "while_exit".to_owned(),
        BlockLabel::MatchEnd(n) => numbered("match_end_", n),
        BlockLabel::MatchArm(n, i) => numbered_twice("match_arm_", n, i),
        BlockLabel::MatchNext(n, i) => numbered_twice("match_next_", n, i),
        BlockLabel::MatchGuardPass(i) => numbered("match_guard_pass_", i),
        BlockLabel::CheckFail(site, i) => cat(check_prefix(site, i).as_str(), "_fail"),
        BlockLabel::CheckOk(site, i) => cat(check_prefix(site, i).as_str(), "_ok"),
        BlockLabel::Entry => "".to_owned(),
    }
}

} // verus!
