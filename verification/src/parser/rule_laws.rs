//! Where updates may stand, and which names are taken.

use crate::ast::tree::{ExprShape, ExprTree, NodeTree, StmtShape, StmtTree};
use crate::ast::UnaryOp;
use crate::parser::grammar::{
    misplaced_update, needs_newline, nested_update, nested_update_in, reserved_method,
    statements_in,
};
use vstd::prelude::*;

verus! {

/// Whether an expression is an update behind its operand: `x++` or `x--`.
pub open spec fn is_postfix_update(e: ExprTree) -> bool {
    e.kind matches ExprShape::Unary { op, op_span, expr, postfix } && postfix && (op
        == UnaryOp::Incr || op == UnaryOp::Decr)
}

/// An update behind its operand may be a statement, but no part of a value.
pub proof fn updates_are_statements(e: ExprTree)
    requires
        is_postfix_update(e),
    ensures
        misplaced_update(e) is None,
        nested_update(e) is Some,
{
    reveal(misplaced_update);
    reveal(nested_update);
}

/// A value with an update somewhere in it is refused: in an operand, in a
/// callee, in front of a field, in an index or in a condition.
pub proof fn updates_inside_values_are_refused(e: ExprTree, part: ExprTree)
    requires
        nested_update(part) is Some,
        match e.kind {
            ExprShape::Binary { left, op, op_span, right } => *left == part || *right == part,
            ExprShape::Call { func, args } => *func == part,
            ExprShape::FieldAccess { expr, field } => *expr == part,
            ExprShape::ListAccess { expr, index } => *expr == part || *index == part,
            ExprShape::If { cond, then_expr, else_expr } => *cond == part || *then_expr == part
                || *else_expr == part,
            _ => false,
        },
    ensures
        nested_update(e) is Some,
        misplaced_update(e) is Some,
{
    reveal(nested_update);
    reveal(misplaced_update);
}

/// Lists, sets and argument lists are refused for an update in any of their
/// expressions.
pub proof fn updates_among_expressions_are_refused(es: Seq<ExprTree>, n: int, i: int)
    requires
        0 <= i < n <= es.len(),
        nested_update(es[i]) is Some,
    ensures
        nested_update_in(es, n) is Some,
    decreases n,
{
    reveal(nested_update_in);
    reveal(nested_update);
    if i < n - 1 {
        updates_among_expressions_are_refused(es, n - 1, i);
    }
}

/// Names, literals and prefix operators on them hold no update.
pub proof fn plain_values_are_accepted(e: ExprTree)
    ensures
        e.kind is Literal || e.kind is Identifier ==> nested_update(e) is None,
        e.kind matches ExprShape::Unary { op, op_span, expr, postfix } ==> !postfix
            ==> nested_update(e) == nested_update(*expr),
        e.kind matches ExprShape::Binary { left, op, op_span, right } ==> nested_update(*left)
            is None && nested_update(*right) is None ==> nested_update(e) is None,
{
    reveal(nested_update);
}

/// The names that the compiler gives to methods are taken; every other name is
/// free.
pub proof fn taken_method_names(name: Seq<char>)
    ensures
        reserved_method(name) is Some <==> name == "new"@ || name == "from_json"@ || name
            == "list_from_json"@ || name == "list_from_csv"@,
{
    reveal(reserved_method);
}

/// Behind a statement with a block of its own no newline is needed; behind every
/// other statement one is.
pub proof fn blocks_need_no_newline(s: StmtTree)
    ensures
        needs_newline(NodeTree::Statement(s)) <==> !(s.kind is If || s.kind is While || s.kind is For
            || s.kind is Match || s.kind is Block),
{
    reveal(needs_newline);
}

/// Inside a block statements stay in their order, and a function is a statement.
pub proof fn nodes_become_statements_in_order(nodes: Seq<NodeTree>, node: NodeTree)
    ensures
        node matches NodeTree::Statement(s) ==> statements_in(nodes.push(node)) == statements_in(
            nodes,
        ).push(s),
        node matches NodeTree::Function(f) ==> {
            &&& statements_in(nodes.push(node)).len() == statements_in(nodes).len() + 1
            &&& statements_in(nodes.push(node)).drop_last() == statements_in(nodes)
            &&& statements_in(nodes.push(node)).last().kind == StmtShape::Function(Box::new(f))
        },
{
    reveal_with_fuel(statements_in, 2);
    assert(nodes.push(node).drop_last() =~= nodes);
    assert(nodes.push(node).last() == node);
    if let NodeTree::Function(f) = node {
        assert(statements_in(nodes.push(node)).drop_last() =~= statements_in(nodes));
    }
}

} // verus!
