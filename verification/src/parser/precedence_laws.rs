//! How operators group their operands.

use crate::ast::operators::{BinaryOp, Precedence, UnaryOp};
use crate::ast::tree::{ExprShape, ExprTree, LiteralTree};
use crate::lexer::{Token, TokenType};
use crate::parser::grammar::{
    binary_rest, binary_rest_def, expression, expression_def, generic_at, postfix, postfix_def,
    postfix_gap, precedence, precedence_def, primary_def, unary, unary_def,
};
use crate::parser::state::{nl_end, tok, State};
use vstd::prelude::*;

verus! {

/// The expression that a literal or a name is on its own.
pub open spec fn operand(t: Token) -> Option<ExprTree> {
    match t.token_type {
        TokenType::Int(n) => Some(
            ExprTree { kind: ExprShape::Literal(LiteralTree::Integer(n)), span: t.span },
        ),
        TokenType::Bool(b) => Some(
            ExprTree { kind: ExprShape::Literal(LiteralTree::Boolean(b)), span: t.span },
        ),
        TokenType::Char(c) => Some(
            ExprTree { kind: ExprShape::Literal(LiteralTree::Char(c)), span: t.span },
        ),
        TokenType::Str(s) => Some(
            ExprTree { kind: ExprShape::Literal(LiteralTree::String(s@)), span: t.span },
        ),
        TokenType::Float(f) => Some(
            ExprTree { kind: ExprShape::Literal(LiteralTree::Float(f.text@)), span: t.span },
        ),
        TokenType::NoneKeyword => Some(ExprTree { kind: ExprShape::NoneValue, span: t.span }),
        TokenType::Id(name) => Some(
            ExprTree { kind: ExprShape::Identifier(name@), span: t.span },
        ),
        _ => None,
    }
}

/// How tightly a binary operator holds its operands, from assignments on; zero
/// for what is no binary operator.
pub open spec fn tightness(t: TokenType) -> int {
    match t {
        TokenType::Eq => 1,
        TokenType::PlusEq => 1,
        TokenType::MinusEq => 1,
        TokenType::StarEq => 1,
        TokenType::SlashEq => 1,
        TokenType::PercentEq => 1,
        TokenType::Or => 2,
        TokenType::And => 3,
        TokenType::EqEq => 4,
        TokenType::NotEq => 4,
        TokenType::Lt => 5,
        TokenType::Le => 5,
        TokenType::Gt => 5,
        TokenType::Ge => 5,
        TokenType::In => 5,
        TokenType::Plus => 6,
        TokenType::Minus => 6,
        TokenType::Star => 7,
        TokenType::Slash => 7,
        TokenType::Percent => 7,
        TokenType::StarStar => 8,
        _ => 0,
    }
}

/// Whether an operator is what its token spells.
pub open spec fn spells(t: TokenType, op: BinaryOp) -> bool {
    match op {
        BinaryOp::Add => t is Plus,
        BinaryOp::Subtract => t is Minus,
        BinaryOp::Multiply => t is Star,
        BinaryOp::Divide => t is Slash,
        BinaryOp::Modulo => t is Percent,
        BinaryOp::Exponent => t is StarStar,
        BinaryOp::Assign => t is Eq,
        BinaryOp::Equal => t is EqEq,
        BinaryOp::NotEqual => t is NotEq,
        BinaryOp::Less => t is Lt,
        BinaryOp::Greater => t is Gt,
        BinaryOp::LessEqual => t is Le,
        BinaryOp::GreaterEqual => t is Ge,
        BinaryOp::LogicalAnd => t is And,
        BinaryOp::LogicalOr => t is Or,
        BinaryOp::In => t is In,
        BinaryOp::AddAssign => t is PlusEq,
        BinaryOp::SubtractAssign => t is MinusEq,
        BinaryOp::MultiplyAssign => t is StarEq,
        BinaryOp::DivideAssign => t is SlashEq,
        BinaryOp::ModuloAssign => t is PercentEq,
    }
}

/// Whether a prefix operator is what its token spells.
pub open spec fn spells_prefix(t: TokenType, op: UnaryOp) -> bool {
    match op {
        UnaryOp::Neg => t is Minus,
        UnaryOp::Not => t is Bang,
        UnaryOp::Ref => t is Ref,
        UnaryOp::Deref => t is Star,
        UnaryOp::Incr => false,
        UnaryOp::Decr => false,
    }
}

/// Whether an expression is over at `p`: the tokens are, or one follows that
/// cannot continue it.
pub open spec fn is_over(ts: Seq<&Token>, p: int) -> bool {
    p >= ts.len() || match ts[p].token_type {
        TokenType::CloseParen
        | TokenType::CloseBracket
        | TokenType::CloseBrace
        | TokenType::OpenBrace
        | TokenType::Comma
        | TokenType::Colon
        | TokenType::Eof => true,
        TokenType::NewLine => p + 1 >= ts.len() || match ts[p + 1].token_type {
            TokenType::NewLine
            | TokenType::Dot
            | TokenType::OpenParen
            | TokenType::OpenBracket => false,
            _ => true,
        },
        _ => false,
    }
}

/// A literal or name at `p` that is a whole operand: a binary operator follows,
/// or the expression is over. A name in front of `<` may be that of a generic
/// type, and is left out.
pub open spec fn operand_at(ts: Seq<&Token>, p: int) -> bool {
    &&& 0 <= p < ts.len()
    &&& operand(*ts[p]) is Some
    &&& is_over(ts, p + 1) || tightness(ts[p + 1].token_type) > 0
    &&& !(ts[p].token_type is Id && p + 1 < ts.len() && ts[p + 1].token_type is Lt)
}

/// A binary operator at `p`.
pub open spec fn operator_at(ts: Seq<&Token>, p: int) -> bool {
    0 <= p < ts.len() && tightness(ts[p].token_type) > 0
}

/// A tree with an operator at its root and the two sides below it.
pub open spec fn joins(e: ExprTree, left: ExprTree, t: TokenType, right: ExprTree) -> bool {
    e.kind matches ExprShape::Binary { left: l, op, op_span, right: r } && *l == left && spells(
        t,
        op,
    ) && *r == right
}

/// A tree whose right side joins two operands.
pub open spec fn nests_right(
    e: ExprTree,
    a: ExprTree,
    one: TokenType,
    b: ExprTree,
    two: TokenType,
    c: ExprTree,
) -> bool {
    e.kind matches ExprShape::Binary { left: l, op, op_span, right: r } && *l == a && spells(one, op)
        && joins(*r, b, two, c)
}

/// A tree whose left side joins two operands.
pub open spec fn nests_left(
    e: ExprTree,
    a: ExprTree,
    one: TokenType,
    b: ExprTree,
    two: TokenType,
    c: ExprTree,
) -> bool {
    e.kind matches ExprShape::Binary { left: l, op, op_span, right: r } && joins(*l, a, one, b)
        && spells(two, op) && *r == c
}

proof fn no_gap(ts: Seq<&Token>, p: int)
    requires
        0 <= p,
        is_over(ts, p) || (p < ts.len() && tightness(ts[p].token_type) > 0),
    ensures
        postfix_gap(ts, p) is None,
{
    reveal(tok);
    reveal_with_fuel(nl_end, 3);
}

proof fn operand_has_no_postfix(ts: Seq<&Token>, st: State, e: ExprTree)
    requires
        0 < st.cur,
        operand_at(ts, st.cur - 1),
        Some(e) == operand(*ts[st.cur - 1]),
    ensures
        postfix(ts, st, e) == (st, Ok::<ExprTree, crate::parser::error::Fault>(e)),
{
    reveal(tok);
    reveal(generic_at);
    postfix_def(ts, st, e);
    no_gap(ts, st.cur);
}

/// An operand is read as itself.
proof fn operand_is_read(ts: Seq<&Token>, st: State)
    requires
        operand_at(ts, st.cur),
    ensures
        unary(ts, st) == (
            st.next(),
            Ok::<ExprTree, crate::parser::error::Fault>(operand(*ts[st.cur])->0),
        ),
{
    unary_def(ts, st);
    primary_def(ts, st);
    operand_has_no_postfix(ts, st.next(), operand(*ts[st.cur])->0);
}

/// What is known of an operator from its token.
proof fn operator_facts(t: TokenType)
    ensures
        tightness(t) > 0 <==> BinaryOp::of(t) is Some,
        BinaryOp::of(t) matches Some(op) ==> {
            &&& spells(t, op)
            &&& op.precedence().rank_spec() == tightness(t) - 1
            &&& op.is_right_associative() <==> tightness(t) == 1 || tightness(t) == 8
            &&& op.precedence().next_higher().rank_spec() == tightness(t)
        },
{
}

/// Behind an operand, what binds too loosely is left to the caller.
proof fn rest_stops(ts: Seq<&Token>, st: State, left: ExprTree, min: Precedence)
    requires
        0 <= st.cur,
        is_over(ts, st.cur) || (st.cur < ts.len() && 0 < tightness(ts[st.cur].token_type)
            <= min.rank_spec()),
    ensures
        binary_rest(ts, st, left, min) == (
            st,
            Ok::<ExprTree, crate::parser::error::Fault>(left),
        ),
{
    binary_rest_def(ts, st, left, min);
    if st.cur < ts.len() {
        operator_facts(ts[st.cur].token_type);
    }
}

/// An operand whose following operator binds too loosely is read alone.
proof fn operand_alone(ts: Seq<&Token>, st: State, min: Precedence)
    requires
        operand_at(ts, st.cur),
        is_over(ts, st.cur + 1) || 0 < tightness(ts[st.cur + 1].token_type) <= min.rank_spec(),
    ensures
        precedence(ts, st, min) == (
            st.next(),
            Ok::<ExprTree, crate::parser::error::Fault>(operand(*ts[st.cur])->0),
        ),
{
    precedence_def(ts, st, min);
    operand_is_read(ts, st);
    rest_stops(ts, st.next(), operand(*ts[st.cur])->0, min);
}

/// Two operands are joined by the operator between them, where it binds tightly
/// enough and what follows does not bind more tightly.
proof fn pair_is_joined(ts: Seq<&Token>, st: State, left: ExprTree, min: Precedence) -> (e: ExprTree)
    requires
        operator_at(ts, st.cur),
        operand_at(ts, st.cur + 1),
        tightness(ts[st.cur].token_type) > min.rank_spec(),
        ({
            let one = tightness(ts[st.cur].token_type);
            is_over(ts, st.cur + 2) || {
                let two = tightness(ts[st.cur + 2].token_type);
                &&& 0 < two
                &&& two < one || (two == one && one != 1 && one != 8)
            }
        }),
    ensures
        joins(e, left, ts[st.cur].token_type, operand(*ts[st.cur + 1])->0),
        e.span.row_start == left.span.row_start,
        e.span.col_start == left.span.col_start,
        binary_rest(ts, st, left, min) == binary_rest(ts, st.at(st.cur + 2), e, min),
{
    binary_rest_def(ts, st, left, min);
    operator_facts(ts[st.cur].token_type);
    let op = BinaryOp::of(ts[st.cur].token_type)->0;
    let next = if op.is_right_associative() {
        op.precedence()
    } else {
        op.precedence().next_higher()
    };
    operand_alone(ts, st.next(), next);
    let right = operand(*ts[st.cur + 1])->0;
    ExprTree {
        kind: ExprShape::Binary {
            left: Box::new(left),
            op,
            op_span: crate::parser::state::before(ts, st.cur + 2).span,
            right: Box::new(right),
        },
        span: crate::ast::operators::combine(left.span, right.span),
    }
}

/// Two operators that group from the right, or of which the second binds more
/// tightly: the second one's operands are joined first.
proof fn second_is_joined_first(ts: Seq<&Token>, st: State, left: ExprTree, min: Precedence) -> (e:
    ExprTree)
    requires
        operator_at(ts, st.cur),
        operand_at(ts, st.cur + 1),
        operator_at(ts, st.cur + 2),
        operand_at(ts, st.cur + 3),
        is_over(ts, st.cur + 4),
        tightness(ts[st.cur].token_type) > min.rank_spec(),
        ({
            let one = tightness(ts[st.cur].token_type);
            let two = tightness(ts[st.cur + 2].token_type);
            one < two || (one == two && (one == 1 || one == 8))
        }),
    ensures
        nests_right(
            e,
            left,
            ts[st.cur].token_type,
            operand(*ts[st.cur + 1])->0,
            ts[st.cur + 2].token_type,
            operand(*ts[st.cur + 3])->0,
        ),
        e.span.row_start == left.span.row_start,
        e.span.col_start == left.span.col_start,
        binary_rest(ts, st, left, min) == (
            st.at(st.cur + 4),
            Ok::<ExprTree, crate::parser::error::Fault>(e),
        ),
{
    binary_rest_def(ts, st, left, min);
    operator_facts(ts[st.cur].token_type);
    operator_facts(ts[st.cur + 2].token_type);
    let op = BinaryOp::of(ts[st.cur].token_type)->0;
    let next = if op.is_right_associative() {
        op.precedence()
    } else {
        op.precedence().next_higher()
    };
    let s = st.next();
    let b = operand(*ts[s.cur])->0;
    precedence_def(ts, s, next);
    operand_is_read(ts, s);
    let right = pair_is_joined(ts, s.next(), b, next);
    rest_stops(ts, s.next().at(s.cur + 3), right, next);
    assert(s.next().at(s.next().cur + 2) == st.at(st.cur + 4));
    let e = ExprTree {
        kind: ExprShape::Binary {
            left: Box::new(left),
            op,
            op_span: crate::parser::state::before(ts, st.cur + 4).span,
            right: Box::new(right),
        },
        span: crate::ast::operators::combine(left.span, right.span),
    };
    rest_stops(ts, st.at(st.cur + 4), e, min);
    e
}

/// Of two binary operators between three operands, the one that binds more
/// loosely is at the root of the tree, and the other joins its two operands
/// below it. Operators that bind alike group from the left; assignments and
/// exponentiation group from the right.
pub proof fn looser_operator_is_at_the_root(ts: Seq<&Token>, st: State)
    requires
        operand_at(ts, st.cur),
        operator_at(ts, st.cur + 1),
        operand_at(ts, st.cur + 2),
        operator_at(ts, st.cur + 3),
        operand_at(ts, st.cur + 4),
        is_over(ts, st.cur + 5),
    ensures
        ({
            let a = operand(*ts[st.cur])->0;
            let one = ts[st.cur + 1].token_type;
            let b = operand(*ts[st.cur + 2])->0;
            let two = ts[st.cur + 3].token_type;
            let c = operand(*ts[st.cur + 4])->0;
            let r = expression(ts, st);
            &&& r.0 == st.at(st.cur + 5)
            &&& r.1 is Ok
            &&& tightness(one) < tightness(two) ==> nests_right(r.1->Ok_0, a, one, b, two, c)
            &&& tightness(one) > tightness(two) ==> nests_left(r.1->Ok_0, a, one, b, two, c)
            &&& tightness(one) == tightness(two) && (tightness(one) == 1 || tightness(one) == 8)
                ==> nests_right(r.1->Ok_0, a, one, b, two, c)
            &&& tightness(one) == tightness(two) && tightness(one) != 1 && tightness(one) != 8
                ==> nests_left(r.1->Ok_0, a, one, b, two, c)
            &&& r.1->Ok_0.span.row_start == a.span.row_start
            &&& r.1->Ok_0.span.col_start == a.span.col_start
        }),
{
    let min = Precedence::Assignment;
    let a = operand(*ts[st.cur])->0;
    let one = ts[st.cur + 1].token_type;
    let two = ts[st.cur + 3].token_type;
    expression_def(ts, st);
    precedence_def(ts, st, min);
    operand_is_read(ts, st);
    let s = st.next();
    if tightness(one) < tightness(two) || (tightness(one) == tightness(two) && (tightness(one) == 1
        || tightness(one) == 8)) {
        let e = second_is_joined_first(ts, s, a, min);
        assert(s.at(s.cur + 4) == st.at(st.cur + 5));
    } else {
        let left = pair_is_joined(ts, s, a, min);
        let t = s.at(s.cur + 2);
        let e = pair_is_joined(ts, t, left, min);
        let u = t.at(t.cur + 2);
        assert(u == st.at(st.cur + 5));
        rest_stops(ts, u, e, min);
    }
}

/// A prefix operator holds its operand more tightly than any binary operator
/// that follows.
pub proof fn prefix_operator_binds_first(ts: Seq<&Token>, st: State)
    requires
        0 <= st.cur < ts.len(),
        match ts[st.cur].token_type {
            TokenType::Minus | TokenType::Bang | TokenType::Ref | TokenType::Star => true,
            _ => false,
        },
        operand_at(ts, st.cur + 1),
        operator_at(ts, st.cur + 2),
        operand_at(ts, st.cur + 3),
        is_over(ts, st.cur + 4),
    ensures
        ({
            let a = operand(*ts[st.cur + 1])->0;
            let r = expression(ts, st);
            &&& r.0 == st.at(st.cur + 4)
            &&& r.1 matches Ok(e) && (e.kind matches ExprShape::Binary { left, op, op_span, right }
                && spells(ts[st.cur + 2].token_type, op) && *right == operand(
                *ts[st.cur + 3],
            )->0 && (left.kind matches ExprShape::Unary { op: prefix, op_span: at, expr, postfix }
                && spells_prefix(ts[st.cur].token_type, prefix) && *expr == a && !postfix))
        }),
{
    let min = Precedence::Assignment;
    let s = st.next();
    expression_def(ts, st);
    precedence_def(ts, st, min);
    unary_def(ts, st);
    operator_facts(ts[st.cur + 2].token_type);
    operand_alone(ts, s, Precedence::Unary);
    let left = unary(ts, st).1->Ok_0;
    let e = pair_is_joined(ts, s.next(), left, min);
    let u = s.next().at(s.next().cur + 2);
    assert(u == st.at(st.cur + 4));
    rest_stops(ts, u, e, min);
}

} // verus!
