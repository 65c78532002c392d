//! What a statement is generated as.

use crate::ast::nodes::{StatementKind, StatementNode};
use crate::codegen::generator::CodeGenerator;
use crate::codegen::loops::{is_range, LoopKind};
use vstd::prelude::*;

verus! {

/// What generating a statement does.
#[derive(Debug, Clone, Copy, PartialEq, Eq, Structural)]
pub enum Action {
    /// Nothing: control does not get here.
    Dead,
    AutoDecl,
    TypedDecl,
    UninitDecl,
    ConstDecl,
    ReturnValue,
    ReturnNothing,
    If,
    While,
    For(LoopKind),
    Match,
    Expression,
    NestedFunction,
    /// Nothing is generated.
    Nothing,
}

/// How a statement is generated: what it does, whether in a scope of its own,
/// and whether what its expressions left over is released afterwards. A return
/// releases that itself.
#[derive(Debug, Clone, Copy, PartialEq, Eq, Structural)]
pub struct StatementPlan {
    pub action: Action,
    pub scoped: bool,
    pub releases: bool,
}

/// What a kind of statement does.
pub open spec fn action_of(kind: StatementKind) -> Action {
    match kind {
        StatementKind::AutoDecl(_, _, _) => Action::AutoDecl,
        StatementKind::TypedDecl(_, _, _) => Action::TypedDecl,
        StatementKind::UninitDecl(_, _) => Action::UninitDecl,
        StatementKind::ConstDecl(_, _, _) => Action::ConstDecl,
        StatementKind::Return(Some(_)) => Action::ReturnValue,
        StatementKind::Return(None) => Action::ReturnNothing,
        StatementKind::If { .. } => Action::If,
        StatementKind::While { .. } => Action::While,
        StatementKind::For { iter, .. } => Action::For(
            if is_range(iter) {
                LoopKind::Range
            } else {
                LoopKind::List
            },
        ),
        StatementKind::Match { .. } => Action::Match,
        StatementKind::Expression(_) => Action::Expression,
        StatementKind::Function(_) => Action::NestedFunction,
        _ => Action::Nothing,
    }
}

/// Whether an action has blocks of its own, which only a function can hold.
pub open spec fn needs_function(action: Action) -> bool {
    action is If || action is While || action is For || action is Match
}

/// Why an action cannot stand outside of functions.
pub open spec fn outside_function(action: Action) -> Seq<char> {
    match action {
        Action::If => "If statement not in function"@,
        Action::While => "While statement not in function"@,
        Action::For(_) => "For statement not in function"@,
        _ => "Match not in function"@,
    }
}

pub open spec fn plan_of(kind: StatementKind) -> StatementPlan {
    StatementPlan {
        action: action_of(kind),
        scoped: needs_function(action_of(kind)),
        releases: !(kind is Return),
    }
}

impl CodeGenerator {
    /// How a statement is generated. `terminated` says whether the current
    /// block already has its end: then control does not get to the statement.
    pub fn generate_statement(&self, stmt: &StatementNode, in_function: bool, terminated: bool) -> (r:
        Result<StatementPlan, String>)
        ensures
            if terminated {
                r == Ok::<StatementPlan, String>(
                    (StatementPlan { action: Action::Dead, scoped: false, releases: false }),
                )
            } else if needs_function(action_of(stmt.kind)) && !in_function {
                r matches Err(e) && e@ == outside_function(action_of(stmt.kind))
            } else {
                r == Ok::<StatementPlan, String>(plan_of(stmt.kind))
            },
    {
        if terminated {
            return Ok(StatementPlan { action: Action::Dead, scoped: false, releases: false });
        }
        match &stmt.kind {
            StatementKind::AutoDecl(_, _, _) => Ok(Self::plain(Action::AutoDecl)),
            StatementKind::TypedDecl(_, _, _) => Ok(Self::plain(Action::TypedDecl)),
            StatementKind::UninitDecl(_, _) => Ok(Self::plain(Action::UninitDecl)),
            StatementKind::ConstDecl(_, _, _) => Ok(Self::plain(Action::ConstDecl)),
            StatementKind::Return(value) => {
                let action = if value.is_some() {
                    Action::ReturnValue
                } else {
                    Action::ReturnNothing
                };
                Ok(StatementPlan { action, scoped: false, releases: false })
            },
            StatementKind::If { .. } => Self::inside(
                Action::If,
                in_function,
                "If statement not in function",
            ),
            StatementKind::While { .. } => Self::inside(
                Action::While,
                in_function,
                "While statement not in function",
            ),
            StatementKind::For { iter, .. } => Self::inside(
                Action::For(self.generate_for_statement_inner(iter)),
                in_function,
                "For statement not in function",
            ),
            StatementKind::Match { .. } => Self::inside(
                Action::Match,
                in_function,
                "Match not in function",
            ),
            StatementKind::Expression(_) => Ok(Self::plain(Action::Expression)),
            StatementKind::Function(_) => Ok(Self::plain(Action::NestedFunction)),
            StatementKind::Break
            | StatementKind::Continue
            | StatementKind::Block(_)
            | StatementKind::Import { .. } => Ok(Self::plain(Action::Nothing)),
        }
    }

    fn plain(action: Action) -> (r: StatementPlan)
        ensures
            r == (StatementPlan { action, scoped: false, releases: true }),
    {
        StatementPlan { action, scoped: false, releases: true }
    }

    fn inside(action: Action, in_function: bool, message: &str) -> (r: Result<StatementPlan, String>)
        ensures
            if in_function {
                r == Ok::<StatementPlan, String>(
                    (StatementPlan { action, scoped: true, releases: true }),
                )
            } else {
                r matches Err(e) && e@ == message@
            },
    {
        if in_function {
            Ok(StatementPlan { action, scoped: true, releases: true })
        } else {
            Err(message.to_owned())
        }
    }
}

} // verus!
