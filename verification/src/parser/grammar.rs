//! The grammar of expressions, statements and declarations: what each
//! production yields on given tokens.

use crate::ast::operators::{combine, BinaryOp, Precedence, PrimitiveType, UnaryOp};
use crate::ast::tree::{
    EnumVariantFieldTree, EnumVariantTree, ExprShape, ExprTree, FieldTree, FunctionTree,
    LiteralTree, MapEntryTree, MatchArmTree, NodeTree, ParamTree, StmtShape, StmtTree,
    TypeParamTree, TypeShape, TypeTree, WhereClauseTree,
};
use crate::diagnostic::DiagnosticCode;
use crate::lexer::{Span, Token, TokenType};
use crate::parser::describe::describe;
use crate::parser::error::{fault, fault_help, Fault};
use crate::parser::state::{
    before, expect, identifier, in_block, is_id, le, lt, missing, nl_end, seen, skip_nl,
    starts_statement, stuck, synchronize, termination, tok, State, Step,
};
use crate::parser::type_grammar::{
    import_declaration, pattern, trait_list, ty, type_args, type_params, Bounds,
};
use vstd::prelude::*;

verus! {

pub open spec fn literal(value: LiteralTree, span: Span) -> ExprTree {
    ExprTree { kind: ExprShape::Literal(value), span }
}

pub open spec fn auto_type(span: Span) -> Box<TypeTree> {
    Box::new(TypeTree { kind: TypeShape::Auto, span })
}

pub open spec fn stmt(kind: StmtShape, span: Span) -> StmtTree {
    StmtTree { kind, span }
}

/// The span at which a block ends: that of its last statement, where it has
/// one.
pub open spec fn last_span(body: Seq<StmtTree>, otherwise: Span) -> Span {
    if body.len() > 0 {
        body.last().span
    } else {
        otherwise
    }
}

/// The name that type arguments behind an expression would belong to.
pub open spec fn generic_target(expr: ExprTree) -> Option<Seq<char>> {
    match expr.kind {
        ExprShape::Identifier(id) => Some(id),
        ExprShape::FieldAccess { expr: base, field } => match base.kind {
            ExprShape::Identifier(b) => Some(b.push('.') + field),
            _ => Some(field),
        },
        _ => None,
    }
}

/// The `>` that balances `depth` open `<`, from `p` on and on the same line.
#[verifier::opaque]
pub open spec fn matching_gt(ts: Seq<&Token>, p: int, depth: int) -> Option<int>
    decreases ts.len() - p,
{
    if p < 0 || p >= ts.len() {
        None
    } else {
        match ts[p].token_type {
            TokenType::Lt => matching_gt(ts, p + 1, depth + 1),
            TokenType::Gt => if depth == 1 {
                Some(p)
            } else {
                matching_gt(ts, p + 1, depth - 1)
            },
            TokenType::Eof
            | TokenType::NewLine
            | TokenType::OpenBrace
            | TokenType::CloseBrace => None,
            _ => matching_gt(ts, p + 1, depth),
        }
    }
}

/// Whether `<` behind a name opens type arguments that end at `gt`: by what
/// follows, or because the name is capitalised.
#[verifier::opaque]
pub open spec fn takes_type_args(ts: Seq<&Token>, name: Seq<char>, gt: int) -> bool {
    if gt + 1 < ts.len() {
        ||| match ts[gt + 1].token_type {
            TokenType::Dot
            | TokenType::OpenParen
            | TokenType::CloseParen
            | TokenType::Eq
            | TokenType::NewLine
            | TokenType::Eof => true,
            _ => false,
        }
        ||| name.len() > 0 && 'A' <= name[0] <= 'Z'
    } else {
        true
    }
}

/// The name of a generic type at a `<` that opens type arguments.
#[verifier::opaque]
pub open spec fn generic_at(ts: Seq<&Token>, p: int, expr: ExprTree) -> Option<Seq<char>> {
    match generic_target(expr) {
        None => None,
        Some(name) => match matching_gt(ts, p + 1, 1) {
            None => None,
            Some(gt) => if takes_type_args(ts, name, gt) {
                Some(name)
            } else {
                None
            },
        },
    }
}

/// Where a postfix operator continues on a following line.
pub open spec fn postfix_gap(ts: Seq<&Token>, p: int) -> Option<int> {
    let e = nl_end(ts, p);
    if e > p && (tok(ts, e, TokenType::Dot) || tok(ts, e, TokenType::OpenParen) || tok(
        ts,
        e,
        TokenType::OpenBracket,
    )) {
        Some(e)
    } else {
        None
    }
}

/// A comma behind newlines that another element follows.
pub open spec fn comma_after_newlines(ts: Seq<&Token>, st: State, close: TokenType) -> (State, bool) {
    let e = nl_end(ts, st.cur);
    if e > st.cur && tok(ts, e, TokenType::Comma) && e + 1 < ts.len() && !tok(ts, e + 1, close)
        && !tok(ts, e + 1, TokenType::NewLine) && !tok(ts, e + 1, TokenType::Comma) {
        (skip_nl(ts, st.at(e + 1)), true)
    } else {
        (st, false)
    }
}

/// Whether another entry of a set or map literal follows.
pub open spec fn more_entries(ts: Seq<&Token>, st: State) -> (State, bool) {
    if tok(ts, st.cur, TokenType::Comma) {
        let s = skip_nl(ts, st.next());
        (s, !tok(ts, s.cur, TokenType::CloseBrace))
    } else {
        comma_after_newlines(ts, st, TokenType::CloseBrace)
    }
}

pub open spec fn is_update(op: UnaryOp) -> bool {
    op == UnaryOp::Incr || op == UnaryOp::Decr
}

pub open spec fn update_error(span: Span) -> Fault {
    fault_help(
        DiagnosticCode::ParseExpectedToken,
        "Increment/Decrement operator can only be used as a standalone statement"@,
        span,
        "Expressions like 'x + y++' are not supported. Use 'y++' as a separate statement before the expression."@,
    )
}

pub open spec fn or_else(first: Option<Fault>, second: Option<Fault>) -> Option<Fault> {
    if first is Some {
        first
    } else {
        second
    }
}

/// The error of a postfix `++` or `--` inside an expression.
#[verifier::opaque]
pub open spec fn nested_update(e: ExprTree) -> Option<Fault>
    decreases e,
{
    match e.kind {
        ExprShape::Unary { op, op_span, expr, postfix } => if postfix && is_update(op) {
            Some(update_error(e.span))
        } else {
            nested_update(*expr)
        },
        ExprShape::Binary { left, op, op_span, right } => or_else(
            nested_update(*left),
            nested_update(*right),
        ),
        ExprShape::Call { func, args } => or_else(
            nested_update(*func),
            nested_update_in(args, args.len() as int),
        ),
        ExprShape::FieldAccess { expr, field } => nested_update(*expr),
        ExprShape::ListAccess { expr, index } => or_else(
            nested_update(*expr),
            nested_update(*index),
        ),
        ExprShape::ListLiteral(elements) => nested_update_in(elements, elements.len() as int),
        ExprShape::SetLiteral(elements) => nested_update_in(elements, elements.len() as int),
        ExprShape::MapLiteral { key_type, value_type, entries } => nested_update_entries(
            entries,
            entries.len() as int,
        ),
        ExprShape::If { cond, then_expr, else_expr } => or_else(
            nested_update(*cond),
            or_else(nested_update(*then_expr), nested_update(*else_expr)),
        ),
        ExprShape::Lambda { params, return_type, body, where_clause } => nested_update_body(
            body,
            body.len() as int,
        ),
        _ => None,
    }
}

/// The first such error among the first `n` expressions.
#[verifier::opaque]
pub open spec fn nested_update_in(es: Seq<ExprTree>, n: int) -> Option<Fault>
    decreases es, n,
{
    if n <= 0 || n > es.len() {
        None
    } else {
        or_else(nested_update_in(es, n - 1), nested_update(es[n - 1]))
    }
}

#[verifier::opaque]
pub open spec fn nested_update_entries(es: Seq<MapEntryTree>, n: int) -> Option<Fault>
    decreases es, n,
{
    if n <= 0 || n > es.len() {
        None
    } else {
        or_else(
            nested_update_entries(es, n - 1),
            or_else(nested_update(es[n - 1].key), nested_update(es[n - 1].value)),
        )
    }
}

/// In a lambda's body an update is a statement of its own.
#[verifier::opaque]
pub open spec fn nested_update_body(body: Seq<StmtTree>, n: int) -> Option<Fault>
    decreases body, n,
{
    if n <= 0 || n > body.len() {
        None
    } else {
        or_else(
            nested_update_body(body, n - 1),
            match body[n - 1].kind {
                StmtShape::Expression(e) => match e.kind {
                    ExprShape::Unary { op, op_span, expr, postfix } => if postfix && is_update(op) {
                        nested_update(*expr)
                    } else {
                        nested_update(e)
                    },
                    _ => nested_update(e),
                },
                _ => None,
            },
        )
    }
}

/// The error of an update inside an expression statement.
#[verifier::opaque]
pub open spec fn misplaced_update(e: ExprTree) -> Option<Fault> {
    match e.kind {
        ExprShape::Unary { op, op_span, expr, postfix } => if postfix && is_update(op) {
            None
        } else {
            nested_update(e)
        },
        _ => nested_update(e),
    }
}

/// The error of a token that starts no expression.
#[verifier::opaque]
pub open spec fn no_expression(t: Token) -> Fault {
    match t.token_type {
        TokenType::Match => fault_help(
            DiagnosticCode::ParseExpectedToken,
            "match cannot be used as an expression; it can only be used as a statement"@,
            t.span,
            "Use 'match' as a standalone statement with 'return' in each arm, or use an if/else expression for inline conditionals."@,
        ),
        TokenType::Return => fault_help(
            DiagnosticCode::ParseExpectedToken,
            "Unexpected 'return' statement"@,
            t.span,
            "'return' can only be used inside a function body"@,
        ),
        _ => fault(
            DiagnosticCode::ParseExpectedExpression,
            "Expected expression, found "@ + describe(t.token_type),
            t.span,
        ),
    }
}

/// The token behind the parentheses that are open at `p`.
#[verifier::opaque]
pub open spec fn parens_end(ts: Seq<&Token>, p: int, depth: int) -> Option<int>
    decreases ts.len() - p,
{
    if depth <= 0 {
        Some(p)
    } else if p < 0 || p >= ts.len() {
        None
    } else {
        parens_end(
            ts,
            p + 1,
            match ts[p].token_type {
                TokenType::OpenParen => depth + 1,
                TokenType::CloseParen => depth - 1,
                _ => depth,
            },
        )
    }
}

/// The token behind the type arguments that are open at `p`.
#[verifier::opaque]
pub open spec fn angles_end(ts: Seq<&Token>, p: int, depth: int) -> Option<int>
    decreases ts.len() - p,
{
    if depth <= 0 {
        Some(p)
    } else if p < 0 || p >= ts.len() {
        None
    } else {
        angles_end(
            ts,
            p + 1,
            match ts[p].token_type {
                TokenType::Lt => depth + 1,
                TokenType::Gt => depth - 1,
                _ => depth,
            },
        )
    }
}

/// The token behind what looks like a type at `p`.
#[verifier::opaque]
pub open spec fn type_end(ts: Seq<&Token>, p: int) -> Option<int>
    decreases ts.len() - p,
{
    if p < 0 || p >= ts.len() {
        None
    } else {
        match ts[p].token_type {
            TokenType::Ref => type_end(ts, p + 1),
            TokenType::OpenParen => match parens_end(ts, p + 1, 1) {
                Some(q) => if p < q < ts.len() && tok(ts, q, TokenType::Returns) {
                    type_end(ts, q + 1)
                } else {
                    None
                },
                None => None,
            },
            TokenType::Id(_) => if tok(ts, p + 1, TokenType::Lt) {
                angles_end(ts, p + 2, 1)
            } else {
                Some(p + 1)
            },
            _ => None,
        }
    }
}

/// A type, a name, and then an initialiser or the end of the statement.
#[verifier::opaque]
pub open spec fn looks_like_declaration(ts: Seq<&Token>, p: int) -> bool {
    match type_end(ts, p) {
        None => false,
        Some(j) => is_id(ts, j) && (tok(ts, j + 1, TokenType::Eq) || tok(
            ts,
            j + 1,
            TokenType::NewLine,
        ) || tok(ts, j + 1, TokenType::CloseBrace) || tok(ts, j + 1, TokenType::Eof)),
    }
}

/// What a method name is reserved for, where it is.
pub open spec fn reserved_purpose(name: Seq<char>) -> Option<Seq<char>> {
    if name == "new"@ {
        Some("class constructors"@)
    } else if name == "from_json"@ {
        Some("building an instance from a JSON object"@)
    } else if name == "list_from_json"@ {
        Some("building a list of instances from a JSON array"@)
    } else if name == "list_from_csv"@ {
        Some("building a list of instances from CSV rows"@)
    } else {
        None
    }
}

/// Why a class method cannot have a name, where it cannot.
#[verifier::opaque]
pub open spec fn reserved_method(name: Seq<char>) -> Option<Seq<char>> {
    match reserved_purpose(name) {
        Some(purpose) => Some(
            "'"@ + name + "' is reserved for "@ + purpose
                + " and cannot be defined as a class method"@,
        ),
        None => None,
    }
}

/// A member of a class or interface body.
pub enum Member {
    Field(FieldTree),
    Method(FunctionTree),
    Nothing,
}

/// A method of a class, unless its name is reserved, which is recorded.
pub open spec fn class_method(
    ts: Seq<&Token>,
    s: State,
    name_at: int,
    f: FunctionTree,
) -> Step<Member> {
    match reserved_method(f.name) {
        Some(message) => (
            s.record(
                fault(
                    DiagnosticCode::ParseExpectedToken,
                    message,
                    if 0 <= name_at < ts.len() {
                        ts[name_at].span
                    } else {
                        f.span
                    },
                ),
            ),
            Ok(Member::Nothing),
        ),
        None => (s, Ok(Member::Method(f))),
    }
}

/// Where a malformed class member ends: behind its newline, or at the brace
/// that closes the class. Braces inside it are taken in pairs.
#[verifier::opaque]
pub open spec fn member_end(ts: Seq<&Token>, p: int, depth: int) -> int
    decreases ts.len() - p,
{
    if p < 0 || p >= ts.len() {
        p
    } else {
        match ts[p].token_type {
            TokenType::OpenBrace => member_end(ts, p + 1, depth + 1),
            TokenType::CloseBrace => if depth <= 0 {
                p
            } else {
                member_end(ts, p + 1, depth - 1)
            },
            TokenType::NewLine => if depth <= 0 {
                p + 1
            } else {
                member_end(ts, p + 1, depth)
            },
            _ => member_end(ts, p + 1, depth),
        }
    }
}

/// Whether a field's type is one of the class's type parameters.
#[verifier::opaque]
pub open spec fn is_type_parameter(t: TypeTree, params: Seq<TypeParamTree>) -> bool {
    match t.kind {
        TypeShape::Named(name, args) => args.len() == 0 && exists|i: int|
            0 <= i < params.len() && (#[trigger] params[i]).name == name,
        _ => false,
    }
}

/// Statements that need no newline behind them at the top level.
#[verifier::opaque]
pub open spec fn is_control_flow(node: NodeTree) -> bool {
    match node {
        NodeTree::Statement(s) => match s.kind {
            StmtShape::If { .. }
            | StmtShape::While { .. }
            | StmtShape::For { .. }
            | StmtShape::Match { .. }
            | StmtShape::Function(_) => true,
            _ => false,
        },
        _ => false,
    }
}

/// Top-level nodes behind which the parse checks for a newline.
#[verifier::opaque]
pub open spec fn needs_newline(node: NodeTree) -> bool {
    match node {
        NodeTree::Statement(s) => match s.kind {
            StmtShape::If { .. }
            | StmtShape::While { .. }
            | StmtShape::For { .. }
            | StmtShape::Match { .. }
            | StmtShape::Block(_) => false,
            _ => true,
        },
        _ => false,
    }
}

/// A node inside a block: statements as they are, functions as statements;
/// the other declarations have no place there.
pub open spec fn into_statement(node: NodeTree) -> Option<StmtTree> {
    match node {
        NodeTree::Statement(s) => Some(s),
        NodeTree::Function(f) => Some(StmtTree { kind: StmtShape::Function(Box::new(f)), span: f.span }),
        _ => None,
    }
}

/// The statements among some nodes.
#[verifier::opaque]
pub open spec fn statements_in(nodes: Seq<NodeTree>) -> Seq<StmtTree>
    decreases nodes.len(),
{
    if nodes.len() == 0 {
        seq![]
    } else {
        match into_statement(nodes.last()) {
            Some(s) => statements_in(nodes.drop_last()).push(s),
            None => statements_in(nodes.drop_last()),
        }
    }
}

/// The statements that a statement stands for: a block for those in it.
#[verifier::opaque]
pub open spec fn unblock(s: StmtTree) -> Seq<StmtTree> {
    match s.kind {
        StmtShape::Block(b) => b,
        _ => seq![s],
    }
}

#[verifier::opaque]
pub open spec fn recoverable(e: Fault) -> bool {
    e.message == "must be terminated with a newline"@ || e.message
        == "expected newline after statement"@
}

#[verifier::opaque]
pub open spec fn expression(ts: Seq<&Token>, st: State) -> Step<ExprTree> {
    expression_rec(ts, st)
}

pub open spec fn expression_rec(ts: Seq<&Token>, st: State) -> Step<ExprTree>
    decreases ts.len() - st.cur, 50int,
{
    let s = st;
    precedence_rec(ts, st, Precedence::Assignment)
}

pub proof fn expression_def(ts: Seq<&Token>, st: State)
    ensures
        expression(ts, st) == ({
    let s = st;
    precedence(ts, st, Precedence::Assignment)
    }),
{
    reveal(expression);
    reveal(precedence);
}

#[verifier::opaque]
pub open spec fn precedence(ts: Seq<&Token>, st: State, min: Precedence) -> Step<ExprTree> {
    precedence_rec(ts, st, min)
}

pub open spec fn precedence_rec(ts: Seq<&Token>, st: State, min: Precedence) -> Step<ExprTree>
    decreases ts.len() - st.cur, 40int,
{
    let s = st;
    match unary_rec(ts, st) {
        (s, Err(e)) => (s, Err(e)),
        (s, Ok(left)) => {
            if !le(ts, st, s) {
                stuck(s)
            } else {
                binary_rest_rec(ts, s, left, min)
            }
        },
    }
}

pub proof fn precedence_def(ts: Seq<&Token>, st: State, min: Precedence)
    ensures
        precedence(ts, st, min) == ({
    let s = st;
    match unary(ts, st) {
        (s, Err(e)) => (s, Err(e)),
        (s, Ok(left)) => {
            if !le(ts, st, s) {
                stuck(s)
            } else {
                binary_rest(ts, s, left, min)
            }
        },
    }
    }),
{
    reveal(precedence);
    reveal(binary_rest);
    reveal(unary);
}

#[verifier::opaque]
pub open spec fn binary_rest(ts: Seq<&Token>, st: State, left: ExprTree, min: Precedence) -> Step<ExprTree> {
    binary_rest_rec(ts, st, left, min)
}

pub open spec fn binary_rest_rec(ts: Seq<&Token>, st: State, left: ExprTree, min: Precedence) -> Step<ExprTree>
    decreases ts.len() - st.cur, 35int,
{
    let s = st;
    if st.cur < 0 || st.cur >= ts.len() {
        (s, Ok(left))
    } else {
        match BinaryOp::of(ts[st.cur].token_type) {
            None => {
                (s, Ok(left))
            },
            Some(op) => {
                if op.precedence().rank_spec() < min.rank_spec() {
                    (s, Ok(left))
                } else {
                    let s = st.next();
                    let next = if op.is_right_associative() { op.precedence() } else { op.precedence().next_higher() };
                    if !lt(ts, st, s) {
                        stuck(s)
                    } else {
                        match precedence_rec(ts, s, next) {
                            (s, Err(e)) => (s, Err(e)),
                            (s, Ok(right)) => {
                                if !lt(ts, st, s) {
                                    stuck(s)
                                } else {
                                    binary_rest_rec(ts, s, ExprTree { kind: ExprShape::Binary { left: Box::new(left), op, op_span: before(ts, s.cur).span, right: Box::new(right) }, span: combine(left.span, right.span) }, min)
                                }
                            },
                        }
                    }
                }
            },
        }
    }
}

pub proof fn binary_rest_def(ts: Seq<&Token>, st: State, left: ExprTree, min: Precedence)
    ensures
        binary_rest(ts, st, left, min) == ({
    let s = st;
    if st.cur < 0 || st.cur >= ts.len() {
        (s, Ok(left))
    } else {
        match BinaryOp::of(ts[st.cur].token_type) {
            None => {
                (s, Ok(left))
            },
            Some(op) => {
                if op.precedence().rank_spec() < min.rank_spec() {
                    (s, Ok(left))
                } else {
                    let s = st.next();
                    let next = if op.is_right_associative() { op.precedence() } else { op.precedence().next_higher() };
                    if !lt(ts, st, s) {
                        stuck(s)
                    } else {
                        match precedence(ts, s, next) {
                            (s, Err(e)) => (s, Err(e)),
                            (s, Ok(right)) => {
                                if !lt(ts, st, s) {
                                    stuck(s)
                                } else {
                                    binary_rest(ts, s, ExprTree { kind: ExprShape::Binary { left: Box::new(left), op, op_span: before(ts, s.cur).span, right: Box::new(right) }, span: combine(left.span, right.span) }, min)
                                }
                            },
                        }
                    }
                }
            },
        }
    }
    }),
{
    reveal(binary_rest);
    reveal(precedence);
}

#[verifier::opaque]
pub open spec fn unary(ts: Seq<&Token>, st: State) -> Step<ExprTree> {
    unary_rec(ts, st)
}

pub open spec fn unary_rec(ts: Seq<&Token>, st: State) -> Step<ExprTree>
    decreases ts.len() - st.cur, 30int,
{
    let s = st;
    if 0 <= st.cur < ts.len() && UnaryOp::of(ts[st.cur].token_type) is Some {
        let op = UnaryOp::of(ts[st.cur].token_type)->0;
        let op_span = ts[st.cur].span;
        let s = st.next();
        if is_update(op) {
            (s, Err(fault_help(DiagnosticCode::ParseExpectedToken, "Increment/Decrement operator can only be used in the postfix position"@, op_span, "Place the operator after the variable: 'x++' or 'x--' instead of '++x' or '--x'"@)))
        } else {
            if !lt(ts, st, s) {
                stuck(s)
            } else {
                match precedence_rec(ts, s, Precedence::Unary) {
                    (s, Err(e)) => (s, Err(e)),
                    (s, Ok(e)) => {
                        (s, Ok(ExprTree { kind: ExprShape::Unary { op, op_span, expr: Box::new(e), postfix: false }, span: combine(op_span, e.span) }))
                    },
                }
            }
        }
    } else {
        match primary_rec(ts, st) {
            (s, Err(e)) => (s, Err(e)),
            (s, Ok(e)) => if !lt(ts, st, s) {
                stuck(s)
            } else {
                postfix_rec(ts, s, e)
            },
        }
    }
}

pub proof fn unary_def(ts: Seq<&Token>, st: State)
    ensures
        unary(ts, st) == ({
    let s = st;
    if 0 <= st.cur < ts.len() && UnaryOp::of(ts[st.cur].token_type) is Some {
        let op = UnaryOp::of(ts[st.cur].token_type)->0;
        let op_span = ts[st.cur].span;
        let s = st.next();
        if is_update(op) {
            (s, Err(fault_help(DiagnosticCode::ParseExpectedToken, "Increment/Decrement operator can only be used in the postfix position"@, op_span, "Place the operator after the variable: 'x++' or 'x--' instead of '++x' or '--x'"@)))
        } else {
            if !lt(ts, st, s) {
                stuck(s)
            } else {
                match precedence(ts, s, Precedence::Unary) {
                    (s, Err(e)) => (s, Err(e)),
                    (s, Ok(e)) => {
                        (s, Ok(ExprTree { kind: ExprShape::Unary { op, op_span, expr: Box::new(e), postfix: false }, span: combine(op_span, e.span) }))
                    },
                }
            }
        }
    } else {
        match primary(ts, st) {
            (s, Err(e)) => (s, Err(e)),
            (s, Ok(e)) => if !lt(ts, st, s) {
                stuck(s)
            } else {
                postfix(ts, s, e)
            },
        }
    }
    }),
{
    reveal(unary);
    reveal(precedence);
    reveal(primary);
    reveal(postfix);
}

#[verifier::opaque]
pub open spec fn primary(ts: Seq<&Token>, st: State) -> Step<ExprTree> {
    primary_rec(ts, st)
}

pub open spec fn primary_rec(ts: Seq<&Token>, st: State) -> Step<ExprTree>
    decreases ts.len() - st.cur, 20int,
{
    let s = st;
    if st.cur < 0 || st.cur >= ts.len() {
        (s, Err(fault(DiagnosticCode::ParseExpectedExpression, "Expected expression, found end of input"@, seen(ts, st.cur).span)))
    } else {
        let s = st.next();
        let span = ts[st.cur].span;
        match ts[st.cur].token_type {
            TokenType::OpenParen => {
                if !lt(ts, st, s) {
                    stuck(s)
                } else {
                    parenthesized_rec(ts, s, span)
                }
            },
            TokenType::Int(n) => {
                if !lt(ts, st, s) {
                    stuck(s)
                } else {
                    postfix_rec(ts, s, literal(LiteralTree::Integer(n), span))
                }
            },
            TokenType::Bool(b) => {
                if !lt(ts, st, s) {
                    stuck(s)
                } else {
                    postfix_rec(ts, s, literal(LiteralTree::Boolean(b), span))
                }
            },
            TokenType::NoneKeyword => {
                if !lt(ts, st, s) {
                    stuck(s)
                } else {
                    postfix_rec(ts, s, ExprTree { kind: ExprShape::NoneValue, span })
                }
            },
            TokenType::Char(c) => {
                if !lt(ts, st, s) {
                    stuck(s)
                } else {
                    postfix_rec(ts, s, literal(LiteralTree::Char(c), span))
                }
            },
            TokenType::Str(t) => {
                if !lt(ts, st, s) {
                    stuck(s)
                } else {
                    postfix_rec(ts, s, literal(LiteralTree::String(t@), span))
                }
            },
            TokenType::Float(f) => {
                if !lt(ts, st, s) {
                    stuck(s)
                } else {
                    postfix_rec(ts, s, literal(LiteralTree::Float(f.text@), span))
                }
            },
            TokenType::OpenBracket => {
                if !lt(ts, st, s) {
                    stuck(s)
                } else {
                    list_literal_rec(ts, s, span)
                }
            },
            TokenType::OpenBrace => {
                if !lt(ts, st, s) {
                    stuck(s)
                } else {
                    collection_rec(ts, s, span)
                }
            },
            TokenType::Func => {
                if !lt(ts, st, s) {
                    stuck(s)
                } else {
                    lambda_rec(ts, s, span)
                }
            },
            TokenType::If => {
                if !lt(ts, st, s) {
                    stuck(s)
                } else {
                    if_expression_rec(ts, s, span)
                }
            },
            TokenType::Id(id) => {
                if !lt(ts, st, s) {
                    stuck(s)
                } else {
                    postfix_rec(ts, s, ExprTree { kind: ExprShape::Identifier(id@), span })
                }
            },
            _ => {
                (s, Err(no_expression(*ts[st.cur])))
            },
        }
    }
}

pub proof fn primary_def(ts: Seq<&Token>, st: State)
    ensures
        primary(ts, st) == ({
    let s = st;
    if st.cur < 0 || st.cur >= ts.len() {
        (s, Err(fault(DiagnosticCode::ParseExpectedExpression, "Expected expression, found end of input"@, seen(ts, st.cur).span)))
    } else {
        let s = st.next();
        let span = ts[st.cur].span;
        match ts[st.cur].token_type {
            TokenType::OpenParen => {
                if !lt(ts, st, s) {
                    stuck(s)
                } else {
                    parenthesized(ts, s, span)
                }
            },
            TokenType::Int(n) => {
                if !lt(ts, st, s) {
                    stuck(s)
                } else {
                    postfix(ts, s, literal(LiteralTree::Integer(n), span))
                }
            },
            TokenType::Bool(b) => {
                if !lt(ts, st, s) {
                    stuck(s)
                } else {
                    postfix(ts, s, literal(LiteralTree::Boolean(b), span))
                }
            },
            TokenType::NoneKeyword => {
                if !lt(ts, st, s) {
                    stuck(s)
                } else {
                    postfix(ts, s, ExprTree { kind: ExprShape::NoneValue, span })
                }
            },
            TokenType::Char(c) => {
                if !lt(ts, st, s) {
                    stuck(s)
                } else {
                    postfix(ts, s, literal(LiteralTree::Char(c), span))
                }
            },
            TokenType::Str(t) => {
                if !lt(ts, st, s) {
                    stuck(s)
                } else {
                    postfix(ts, s, literal(LiteralTree::String(t@), span))
                }
            },
            TokenType::Float(f) => {
                if !lt(ts, st, s) {
                    stuck(s)
                } else {
                    postfix(ts, s, literal(LiteralTree::Float(f.text@), span))
                }
            },
            TokenType::OpenBracket => {
                if !lt(ts, st, s) {
                    stuck(s)
                } else {
                    list_literal(ts, s, span)
                }
            },
            TokenType::OpenBrace => {
                if !lt(ts, st, s) {
                    stuck(s)
                } else {
                    collection(ts, s, span)
                }
            },
            TokenType::Func => {
                if !lt(ts, st, s) {
                    stuck(s)
                } else {
                    lambda(ts, s, span)
                }
            },
            TokenType::If => {
                if !lt(ts, st, s) {
                    stuck(s)
                } else {
                    if_expression(ts, s, span)
                }
            },
            TokenType::Id(id) => {
                if !lt(ts, st, s) {
                    stuck(s)
                } else {
                    postfix(ts, s, ExprTree { kind: ExprShape::Identifier(id@), span })
                }
            },
            _ => {
                (s, Err(no_expression(*ts[st.cur])))
            },
        }
    }
    }),
{
    reveal(primary);
    reveal(collection);
    reveal(if_expression);
    reveal(lambda);
    reveal(list_literal);
    reveal(parenthesized);
    reveal(postfix);
}

#[verifier::opaque]
pub open spec fn postfix(ts: Seq<&Token>, st: State, expr: ExprTree) -> Step<ExprTree> {
    postfix_rec(ts, st, expr)
}

pub open spec fn postfix_rec(ts: Seq<&Token>, st: State, expr: ExprTree) -> Step<ExprTree>
    decreases ts.len() - st.cur, 10int,
{
    let s = st;
    if tok(ts, st.cur, TokenType::OpenParen) {
        let s = st.next();
        if !lt(ts, st, s) {
            stuck(s)
        } else {
            match call_rest_rec(ts, s, expr) {
                (s, Err(e)) => (s, Err(e)),
                (s, Ok(e)) => {
                    if !lt(ts, st, s) {
                        stuck(s)
                    } else {
                        postfix_rec(ts, s, e)
                    }
                },
            }
        }
    } else if tok(ts, st.cur, TokenType::Dot) {
        let s = st.next();
        match field_rest(ts, s, expr) {
            (s, Err(e)) => (s, Err(e)),
            (s, Ok(e)) => {
                if !lt(ts, st, s) {
                    stuck(s)
                } else {
                    postfix_rec(ts, s, e)
                }
            },
        }
    } else if tok(ts, st.cur, TokenType::OpenBracket) {
        let s = st.next();
        if !lt(ts, st, s) {
            stuck(s)
        } else {
            match index_or_slice_rec(ts, s, expr) {
                (s, Err(e)) => (s, Err(e)),
                (s, Ok(e)) => {
                    if !lt(ts, st, s) {
                        stuck(s)
                    } else {
                        postfix_rec(ts, s, e)
                    }
                },
            }
        }
    } else if tok(ts, st.cur, TokenType::Lt) {
        match generic_at(ts, st.cur, expr) {
            None => {
                (s, Ok(expr))
            },
            Some(name) => {
                match type_args(ts, st.next(), seq![]) {
                    (s, Err(e)) => (s, Err(e)),
                    (s, Ok(args)) => {
                        match expect(ts, s, TokenType::Gt, "Expected '>' after type arguments"@) {
                            (s, Err(e)) => (s, Err(e)),
                            (s, Ok(end)) => {
                                if !lt(ts, st, s) {
                                    stuck(s)
                                } else {
                                    postfix_rec(ts, s, ExprTree { kind: ExprShape::GenericType(name, args), span: combine(expr.span, end) })
                                }
                            },
                        }
                    },
                }
            },
        }
    } else if tok(ts, st.cur, TokenType::Incr) || tok(ts, st.cur, TokenType::Decr) {
        let op_span = ts[st.cur].span;
        let op = if tok(ts, st.cur, TokenType::Incr) { UnaryOp::Incr } else { UnaryOp::Decr };
        let s = st.next();
        if !lt(ts, st, s) {
            stuck(s)
        } else {
            postfix_rec(ts, s, ExprTree { kind: ExprShape::Unary { op, op_span, expr: Box::new(expr), postfix: true }, span: combine(expr.span, op_span) })
        }
    } else {
        match postfix_gap(ts, st.cur) {
            Some(p) => {
                let s = st.at(p);
                if !lt(ts, st, s) {
                    stuck(s)
                } else {
                    postfix_rec(ts, s, expr)
                }
            },
            None => {
                (s, Ok(expr))
            },
        }
    }
}

pub proof fn postfix_def(ts: Seq<&Token>, st: State, expr: ExprTree)
    ensures
        postfix(ts, st, expr) == ({
    let s = st;
    if tok(ts, st.cur, TokenType::OpenParen) {
        let s = st.next();
        if !lt(ts, st, s) {
            stuck(s)
        } else {
            match call_rest(ts, s, expr) {
                (s, Err(e)) => (s, Err(e)),
                (s, Ok(e)) => {
                    if !lt(ts, st, s) {
                        stuck(s)
                    } else {
                        postfix(ts, s, e)
                    }
                },
            }
        }
    } else if tok(ts, st.cur, TokenType::Dot) {
        let s = st.next();
        match field_rest(ts, s, expr) {
            (s, Err(e)) => (s, Err(e)),
            (s, Ok(e)) => {
                if !lt(ts, st, s) {
                    stuck(s)
                } else {
                    postfix(ts, s, e)
                }
            },
        }
    } else if tok(ts, st.cur, TokenType::OpenBracket) {
        let s = st.next();
        if !lt(ts, st, s) {
            stuck(s)
        } else {
            match index_or_slice(ts, s, expr) {
                (s, Err(e)) => (s, Err(e)),
                (s, Ok(e)) => {
                    if !lt(ts, st, s) {
                        stuck(s)
                    } else {
                        postfix(ts, s, e)
                    }
                },
            }
        }
    } else if tok(ts, st.cur, TokenType::Lt) {
        match generic_at(ts, st.cur, expr) {
            None => {
                (s, Ok(expr))
            },
            Some(name) => {
                match type_args(ts, st.next(), seq![]) {
                    (s, Err(e)) => (s, Err(e)),
                    (s, Ok(args)) => {
                        match expect(ts, s, TokenType::Gt, "Expected '>' after type arguments"@) {
                            (s, Err(e)) => (s, Err(e)),
                            (s, Ok(end)) => {
                                if !lt(ts, st, s) {
                                    stuck(s)
                                } else {
                                    postfix(ts, s, ExprTree { kind: ExprShape::GenericType(name, args), span: combine(expr.span, end) })
                                }
                            },
                        }
                    },
                }
            },
        }
    } else if tok(ts, st.cur, TokenType::Incr) || tok(ts, st.cur, TokenType::Decr) {
        let op_span = ts[st.cur].span;
        let op = if tok(ts, st.cur, TokenType::Incr) { UnaryOp::Incr } else { UnaryOp::Decr };
        let s = st.next();
        if !lt(ts, st, s) {
            stuck(s)
        } else {
            postfix(ts, s, ExprTree { kind: ExprShape::Unary { op, op_span, expr: Box::new(expr), postfix: true }, span: combine(expr.span, op_span) })
        }
    } else {
        match postfix_gap(ts, st.cur) {
            Some(p) => {
                let s = st.at(p);
                if !lt(ts, st, s) {
                    stuck(s)
                } else {
                    postfix(ts, s, expr)
                }
            },
            None => {
                (s, Ok(expr))
            },
        }
    }
    }),
{
    reveal(postfix);
    reveal(call_rest);
    reveal(index_or_slice);
}

#[verifier::opaque]
pub open spec fn call_rest(ts: Seq<&Token>, st: State, expr: ExprTree) -> Step<ExprTree> {
    call_rest_rec(ts, st, expr)
}

pub open spec fn call_rest_rec(ts: Seq<&Token>, st: State, expr: ExprTree) -> Step<ExprTree>
    decreases ts.len() - st.cur, 75int,
{
    let s = st;
    match call_args_rec(ts, st) {
        (s, Err(e)) => (s, Err(e)),
        (s, Ok(args)) => {
            match expect(ts, s, TokenType::CloseParen, "Expected ')' after arguments"@) {
                (s, Err(e)) => (s, Err(e)),
                (s, Ok(end)) => {
                    (s, Ok(ExprTree { kind: ExprShape::Call { func: Box::new(expr), args }, span: combine(expr.span, end) }))
                },
            }
        },
    }
}

pub proof fn call_rest_def(ts: Seq<&Token>, st: State, expr: ExprTree)
    ensures
        call_rest(ts, st, expr) == ({
    let s = st;
    match call_args(ts, st) {
        (s, Err(e)) => (s, Err(e)),
        (s, Ok(args)) => {
            match expect(ts, s, TokenType::CloseParen, "Expected ')' after arguments"@) {
                (s, Err(e)) => (s, Err(e)),
                (s, Ok(end)) => {
                    (s, Ok(ExprTree { kind: ExprShape::Call { func: Box::new(expr), args }, span: combine(expr.span, end) }))
                },
            }
        },
    }
    }),
{
    reveal(call_rest);
    reveal(call_args);
}

pub open spec fn field_rest(ts: Seq<&Token>, st: State, expr: ExprTree) -> Step<ExprTree>
{
    let s = st;
    match identifier(ts, st, "Expected field name after '.'"@) {
        (s, Err(e)) => (s, Err(e)),
        (s, Ok(field)) => {
            (s, Ok(ExprTree { kind: ExprShape::FieldAccess { expr: Box::new(expr), field }, span: combine(expr.span, before(ts, s.cur).span) }))
        },
    }
}

pub open spec fn empty_map(ts: Seq<&Token>, st: State, start: Span) -> Step<ExprTree>
{
    let s = st;
    let s = skip_nl(ts, st.next());
    match expect(ts, s, TokenType::CloseBrace, "Expected '}' after '{:'"@) {
        (s, Err(e)) => (s, Err(e)),
        (s, Ok(end)) => {
            (s, Ok(ExprTree { kind: ExprShape::MapLiteral { key_type: auto_type(start), value_type: auto_type(start), entries: seq![] }, span: combine(start, end) }))
        },
    }
}

#[verifier::opaque]
pub open spec fn call_args(ts: Seq<&Token>, st: State) -> Step<Seq<ExprTree>> {
    call_args_rec(ts, st)
}

pub open spec fn call_args_rec(ts: Seq<&Token>, st: State) -> Step<Seq<ExprTree>>
    decreases ts.len() - st.cur, 70int,
{
    let s = st;
    if tok(ts, st.cur, TokenType::CloseParen) {
        (s, Ok(seq![]))
    } else {
        call_args_from_rec(ts, st, seq![])
    }
}

pub proof fn call_args_def(ts: Seq<&Token>, st: State)
    ensures
        call_args(ts, st) == ({
    let s = st;
    if tok(ts, st.cur, TokenType::CloseParen) {
        (s, Ok(seq![]))
    } else {
        call_args_from(ts, st, seq![])
    }
    }),
{
    reveal(call_args);
    reveal(call_args_from);
}

#[verifier::opaque]
pub open spec fn call_args_from(ts: Seq<&Token>, st: State, acc: Seq<ExprTree>) -> Step<Seq<ExprTree>> {
    call_args_from_rec(ts, st, acc)
}

pub open spec fn call_args_from_rec(ts: Seq<&Token>, st: State, acc: Seq<ExprTree>) -> Step<Seq<ExprTree>>
    decreases ts.len() - st.cur, 60int,
{
    let s = st;
    let s = skip_nl(ts, st);
    if !le(ts, st, s) {
        stuck(s)
    } else {
        match expression_rec(ts, s) {
            (s, Err(e)) => (s, Err(e)),
            (s, Ok(e)) => {
                let s = skip_nl(ts, s);
                if !tok(ts, s.cur, TokenType::Comma) {
                    (s, Ok(acc.push(e)))
                } else {
                    let s = skip_nl(ts, s.next());
                    if tok(ts, s.cur, TokenType::CloseParen) {
                        (s, Ok(acc.push(e)))
                    } else {
                        if !lt(ts, st, s) {
                            stuck(s)
                        } else {
                            call_args_from_rec(ts, s, acc.push(e))
                        }
                    }
                }
            },
        }
    }
}

pub proof fn call_args_from_def(ts: Seq<&Token>, st: State, acc: Seq<ExprTree>)
    ensures
        call_args_from(ts, st, acc) == ({
    let s = st;
    let s = skip_nl(ts, st);
    if !le(ts, st, s) {
        stuck(s)
    } else {
        match expression(ts, s) {
            (s, Err(e)) => (s, Err(e)),
            (s, Ok(e)) => {
                let s = skip_nl(ts, s);
                if !tok(ts, s.cur, TokenType::Comma) {
                    (s, Ok(acc.push(e)))
                } else {
                    let s = skip_nl(ts, s.next());
                    if tok(ts, s.cur, TokenType::CloseParen) {
                        (s, Ok(acc.push(e)))
                    } else {
                        if !lt(ts, st, s) {
                            stuck(s)
                        } else {
                            call_args_from(ts, s, acc.push(e))
                        }
                    }
                }
            },
        }
    }
    }),
{
    reveal(call_args_from);
    reveal(expression);
}

#[verifier::opaque]
pub open spec fn index_or_slice(ts: Seq<&Token>, st: State, expr: ExprTree) -> Step<ExprTree> {
    index_or_slice_rec(ts, st, expr)
}

pub open spec fn index_or_slice_rec(ts: Seq<&Token>, st: State, expr: ExprTree) -> Step<ExprTree>
    decreases ts.len() - st.cur, 60int,
{
    let s = st;
    if tok(ts, st.cur, TokenType::Colon) {
        let s = st.next();
        if !lt(ts, st, s) {
            stuck(s)
        } else {
            slice_rec(ts, s, expr, None)
        }
    } else {
        match expression_rec(ts, st) {
            (s, Err(e)) => (s, Err(e)),
            (s, Ok(index)) => {
                if tok(ts, s.cur, TokenType::Colon) {
                    let s = s.next();
                    if !lt(ts, st, s) {
                        stuck(s)
                    } else {
                        slice_rec(ts, s, expr, Some(Box::new(index)))
                    }
                } else {
                    match expect(ts, s, TokenType::CloseBracket, "Expected ']' after index"@) {
                        (s, Err(e)) => (s, Err(e)),
                        (s, Ok(end)) => {
                            (s, Ok(ExprTree { kind: ExprShape::ListAccess { expr: Box::new(expr), index: Box::new(index) }, span: combine(expr.span, end) }))
                        },
                    }
                }
            },
        }
    }
}

pub proof fn index_or_slice_def(ts: Seq<&Token>, st: State, expr: ExprTree)
    ensures
        index_or_slice(ts, st, expr) == ({
    let s = st;
    if tok(ts, st.cur, TokenType::Colon) {
        let s = st.next();
        if !lt(ts, st, s) {
            stuck(s)
        } else {
            slice(ts, s, expr, None)
        }
    } else {
        match expression(ts, st) {
            (s, Err(e)) => (s, Err(e)),
            (s, Ok(index)) => {
                if tok(ts, s.cur, TokenType::Colon) {
                    let s = s.next();
                    if !lt(ts, st, s) {
                        stuck(s)
                    } else {
                        slice(ts, s, expr, Some(Box::new(index)))
                    }
                } else {
                    match expect(ts, s, TokenType::CloseBracket, "Expected ']' after index"@) {
                        (s, Err(e)) => (s, Err(e)),
                        (s, Ok(end)) => {
                            (s, Ok(ExprTree { kind: ExprShape::ListAccess { expr: Box::new(expr), index: Box::new(index) }, span: combine(expr.span, end) }))
                        },
                    }
                }
            },
        }
    }
    }),
{
    reveal(index_or_slice);
    reveal(expression);
    reveal(slice);
}

#[verifier::opaque]
pub open spec fn slice(ts: Seq<&Token>, st: State, expr: ExprTree, start: Option<Box<ExprTree>>) -> Step<ExprTree> {
    slice_rec(ts, st, expr, start)
}

pub open spec fn slice_rec(ts: Seq<&Token>, st: State, expr: ExprTree, start: Option<Box<ExprTree>>) -> Step<ExprTree>
    decreases ts.len() - st.cur, 60int,
{
    let s = st;
    if tok(ts, st.cur, TokenType::CloseBracket) {
        (st.next(), Ok(ExprTree { kind: ExprShape::Slice { expr: Box::new(expr), start, end: None }, span: combine(expr.span, ts[st.cur].span) }))
    } else {
        match expression_rec(ts, st) {
            (s, Err(e)) => (s, Err(e)),
            (s, Ok(e)) => {
                match expect(ts, s, TokenType::CloseBracket, "Expected ']' after slice"@) {
                    (s, Err(e)) => (s, Err(e)),
                    (s, Ok(end)) => {
                        (s, Ok(ExprTree { kind: ExprShape::Slice { expr: Box::new(expr), start, end: Some(Box::new(e)) }, span: combine(expr.span, end) }))
                    },
                }
            },
        }
    }
}

pub proof fn slice_def(ts: Seq<&Token>, st: State, expr: ExprTree, start: Option<Box<ExprTree>>)
    ensures
        slice(ts, st, expr, start) == ({
    let s = st;
    if tok(ts, st.cur, TokenType::CloseBracket) {
        (st.next(), Ok(ExprTree { kind: ExprShape::Slice { expr: Box::new(expr), start, end: None }, span: combine(expr.span, ts[st.cur].span) }))
    } else {
        match expression(ts, st) {
            (s, Err(e)) => (s, Err(e)),
            (s, Ok(e)) => {
                match expect(ts, s, TokenType::CloseBracket, "Expected ']' after slice"@) {
                    (s, Err(e)) => (s, Err(e)),
                    (s, Ok(end)) => {
                        (s, Ok(ExprTree { kind: ExprShape::Slice { expr: Box::new(expr), start, end: Some(Box::new(e)) }, span: combine(expr.span, end) }))
                    },
                }
            },
        }
    }
    }),
{
    reveal(slice);
    reveal(expression);
}

#[verifier::opaque]
pub open spec fn parenthesized(ts: Seq<&Token>, st: State, start: Span) -> Step<ExprTree> {
    parenthesized_rec(ts, st, start)
}

pub open spec fn parenthesized_rec(ts: Seq<&Token>, st: State, start: Span) -> Step<ExprTree>
    decreases ts.len() - st.cur, 60int,
{
    let s = st;
    let s = skip_nl(ts, st);
    if tok(ts, s.cur, TokenType::CloseParen) {
        (s.next(), Err(fault_help(DiagnosticCode::ParseExpectedToken, "Tuple must have exactly 2 elements, found empty parentheses"@, combine(start, ts[s.cur].span), "Tuples are created with two elements: (value1, value2). Example: auto pair = (1, \"hello\")"@)))
    } else {
        if !le(ts, st, s) {
            stuck(s)
        } else {
            match expression_rec(ts, s) {
                (s, Err(e)) => (s, Err(e)),
                (s, Ok(first)) => {
                    let s = skip_nl(ts, s);
                    if tok(ts, s.cur, TokenType::Comma) {
                        let s = skip_nl(ts, s.next());
                        if tok(ts, s.cur, TokenType::CloseParen) {
                            (s.next(), Err(fault_help(DiagnosticCode::ParseExpectedToken, "Tuple must have exactly 2 elements, found only 1"@, combine(start, ts[s.cur].span), "Tuples require exactly two elements: (value1, value2). A trailing comma after a single value is not allowed."@)))
                        } else {
                            if !lt(ts, st, s) {
                                stuck(s)
                            } else {
                                match expression_rec(ts, s) {
                                    (s, Err(e)) => (s, Err(e)),
                                    (s, Ok(second)) => {
                                        let s = skip_nl(ts, s);
                                        match expect(ts, s, TokenType::CloseParen, "Expected ')' after tuple elements"@) {
                                            (s, Err(e)) => (s, Err(e)),
                                            (s, Ok(_)) => {
                                                if !lt(ts, st, s) {
                                                    stuck(s)
                                                } else {
                                                    postfix_rec(ts, s, ExprTree { kind: ExprShape::TupleLiteral(seq![first, second]), span: combine(start, before(ts, s.cur).span) })
                                                }
                                            },
                                        }
                                    },
                                }
                            }
                        }
                    } else {
                        match expect(ts, s, TokenType::CloseParen, "Expected ')' after expression"@) {
                            (s, Err(e)) => (s, Err(e)),
                            (s, Ok(_)) => {
                                if !lt(ts, st, s) {
                                    stuck(s)
                                } else {
                                    postfix_rec(ts, s, first)
                                }
                            },
                        }
                    }
                },
            }
        }
    }
}

pub proof fn parenthesized_def(ts: Seq<&Token>, st: State, start: Span)
    ensures
        parenthesized(ts, st, start) == ({
    let s = st;
    let s = skip_nl(ts, st);
    if tok(ts, s.cur, TokenType::CloseParen) {
        (s.next(), Err(fault_help(DiagnosticCode::ParseExpectedToken, "Tuple must have exactly 2 elements, found empty parentheses"@, combine(start, ts[s.cur].span), "Tuples are created with two elements: (value1, value2). Example: auto pair = (1, \"hello\")"@)))
    } else {
        if !le(ts, st, s) {
            stuck(s)
        } else {
            match expression(ts, s) {
                (s, Err(e)) => (s, Err(e)),
                (s, Ok(first)) => {
                    let s = skip_nl(ts, s);
                    if tok(ts, s.cur, TokenType::Comma) {
                        let s = skip_nl(ts, s.next());
                        if tok(ts, s.cur, TokenType::CloseParen) {
                            (s.next(), Err(fault_help(DiagnosticCode::ParseExpectedToken, "Tuple must have exactly 2 elements, found only 1"@, combine(start, ts[s.cur].span), "Tuples require exactly two elements: (value1, value2). A trailing comma after a single value is not allowed."@)))
                        } else {
                            if !lt(ts, st, s) {
                                stuck(s)
                            } else {
                                match expression(ts, s) {
                                    (s, Err(e)) => (s, Err(e)),
                                    (s, Ok(second)) => {
                                        let s = skip_nl(ts, s);
                                        match expect(ts, s, TokenType::CloseParen, "Expected ')' after tuple elements"@) {
                                            (s, Err(e)) => (s, Err(e)),
                                            (s, Ok(_)) => {
                                                if !lt(ts, st, s) {
                                                    stuck(s)
                                                } else {
                                                    postfix(ts, s, ExprTree { kind: ExprShape::TupleLiteral(seq![first, second]), span: combine(start, before(ts, s.cur).span) })
                                                }
                                            },
                                        }
                                    },
                                }
                            }
                        }
                    } else {
                        match expect(ts, s, TokenType::CloseParen, "Expected ')' after expression"@) {
                            (s, Err(e)) => (s, Err(e)),
                            (s, Ok(_)) => {
                                if !lt(ts, st, s) {
                                    stuck(s)
                                } else {
                                    postfix(ts, s, first)
                                }
                            },
                        }
                    }
                },
            }
        }
    }
    }),
{
    reveal(parenthesized);
    reveal(expression);
    reveal(postfix);
}

#[verifier::opaque]
pub open spec fn list_literal(ts: Seq<&Token>, st: State, start: Span) -> Step<ExprTree> {
    list_literal_rec(ts, st, start)
}

pub open spec fn list_literal_rec(ts: Seq<&Token>, st: State, start: Span) -> Step<ExprTree>
    decreases ts.len() - st.cur, 80int,
{
    let s = st;
    let s = skip_nl(ts, st);
    if !le(ts, st, s) {
        stuck(s)
    } else {
        match list_elements_rec(ts, s) {
            (s, Err(e)) => (s, Err(e)),
            (s, Ok(elements)) => {
                let s = skip_nl(ts, s);
                match expect(ts, s, TokenType::CloseBracket, "Expected ']' after list elements"@) {
                    (s, Err(e)) => (s, Err(e)),
                    (s, Ok(end)) => {
                        if !lt(ts, st, s) {
                            stuck(s)
                        } else {
                            postfix_rec(ts, s, ExprTree { kind: ExprShape::ListLiteral(elements), span: combine(start, end) })
                        }
                    },
                }
            },
        }
    }
}

pub proof fn list_literal_def(ts: Seq<&Token>, st: State, start: Span)
    ensures
        list_literal(ts, st, start) == ({
    let s = st;
    let s = skip_nl(ts, st);
    if !le(ts, st, s) {
        stuck(s)
    } else {
        match list_elements(ts, s) {
            (s, Err(e)) => (s, Err(e)),
            (s, Ok(elements)) => {
                let s = skip_nl(ts, s);
                match expect(ts, s, TokenType::CloseBracket, "Expected ']' after list elements"@) {
                    (s, Err(e)) => (s, Err(e)),
                    (s, Ok(end)) => {
                        if !lt(ts, st, s) {
                            stuck(s)
                        } else {
                            postfix(ts, s, ExprTree { kind: ExprShape::ListLiteral(elements), span: combine(start, end) })
                        }
                    },
                }
            },
        }
    }
    }),
{
    reveal(list_literal);
    reveal(list_elements);
    reveal(postfix);
}

#[verifier::opaque]
pub open spec fn list_elements(ts: Seq<&Token>, st: State) -> Step<Seq<ExprTree>> {
    list_elements_rec(ts, st)
}

pub open spec fn list_elements_rec(ts: Seq<&Token>, st: State) -> Step<Seq<ExprTree>>
    decreases ts.len() - st.cur, 70int,
{
    let s = st;
    if tok(ts, st.cur, TokenType::CloseBracket) {
        (s, Ok(seq![]))
    } else {
        list_elements_from_rec(ts, st, seq![])
    }
}

pub proof fn list_elements_def(ts: Seq<&Token>, st: State)
    ensures
        list_elements(ts, st) == ({
    let s = st;
    if tok(ts, st.cur, TokenType::CloseBracket) {
        (s, Ok(seq![]))
    } else {
        list_elements_from(ts, st, seq![])
    }
    }),
{
    reveal(list_elements);
    reveal(list_elements_from);
}

#[verifier::opaque]
pub open spec fn list_elements_from(ts: Seq<&Token>, st: State, acc: Seq<ExprTree>) -> Step<Seq<ExprTree>> {
    list_elements_from_rec(ts, st, acc)
}

pub open spec fn list_elements_from_rec(ts: Seq<&Token>, st: State, acc: Seq<ExprTree>) -> Step<Seq<ExprTree>>
    decreases ts.len() - st.cur, 60int,
{
    let s = st;
    match expression_rec(ts, st) {
        (s, Err(e)) => (s, Err(e)),
        (s, Ok(e)) => {
            let s = skip_nl(ts, s);
            if tok(ts, s.cur, TokenType::Comma) {
                let s = skip_nl(ts, s.next());
                if tok(ts, s.cur, TokenType::CloseBracket) {
                    (s, Ok(acc.push(e)))
                } else {
                    if !lt(ts, st, s) {
                        stuck(s)
                    } else {
                        list_elements_from_rec(ts, s, acc.push(e))
                    }
                }
            } else {
                let (s, more) = comma_after_newlines(ts, s, TokenType::CloseBracket);
                if more {
                    if !lt(ts, st, s) {
                        stuck(s)
                    } else {
                        list_elements_from_rec(ts, s, acc.push(e))
                    }
                } else {
                    (s, Ok(acc.push(e)))
                }
            }
        },
    }
}

pub proof fn list_elements_from_def(ts: Seq<&Token>, st: State, acc: Seq<ExprTree>)
    ensures
        list_elements_from(ts, st, acc) == ({
    let s = st;
    match expression(ts, st) {
        (s, Err(e)) => (s, Err(e)),
        (s, Ok(e)) => {
            let s = skip_nl(ts, s);
            if tok(ts, s.cur, TokenType::Comma) {
                let s = skip_nl(ts, s.next());
                if tok(ts, s.cur, TokenType::CloseBracket) {
                    (s, Ok(acc.push(e)))
                } else {
                    if !lt(ts, st, s) {
                        stuck(s)
                    } else {
                        list_elements_from(ts, s, acc.push(e))
                    }
                }
            } else {
                let (s, more) = comma_after_newlines(ts, s, TokenType::CloseBracket);
                if more {
                    if !lt(ts, st, s) {
                        stuck(s)
                    } else {
                        list_elements_from(ts, s, acc.push(e))
                    }
                } else {
                    (s, Ok(acc.push(e)))
                }
            }
        },
    }
    }),
{
    reveal(list_elements_from);
    reveal(expression);
}

#[verifier::opaque]
pub open spec fn collection(ts: Seq<&Token>, st: State, start: Span) -> Step<ExprTree> {
    collection_rec(ts, st, start)
}

pub open spec fn collection_rec(ts: Seq<&Token>, st: State, start: Span) -> Step<ExprTree>
    decreases ts.len() - st.cur, 80int,
{
    let s = st;
    let s = skip_nl(ts, st);
    if tok(ts, s.cur, TokenType::CloseBrace) {
        (s.next(), Ok(ExprTree { kind: ExprShape::SetLiteral(seq![]), span: combine(start, ts[s.cur].span) }))
    } else {
        if tok(ts, s.cur, TokenType::Colon) {
            empty_map(ts, s, start)
        } else {
            if !le(ts, st, s) {
                stuck(s)
            } else {
                match expression_rec(ts, s) {
                    (s, Err(e)) => (s, Err(e)),
                    (s, Ok(first)) => {
                        if tok(ts, s.cur, TokenType::Colon) {
                            let s = s.next();
                            if !lt(ts, st, s) {
                                stuck(s)
                            } else {
                                match expression_rec(ts, s) {
                                    (s, Err(e)) => (s, Err(e)),
                                    (s, Ok(value)) => {
                                        if !lt(ts, st, s) {
                                            stuck(s)
                                        } else {
                                            match map_entries_rec(ts, s, seq![MapEntryTree { key: first, value }]) {
                                                (s, Err(e)) => (s, Err(e)),
                                                (s, Ok(entries)) => {
                                                    match expect(ts, s, TokenType::CloseBrace, "Expected '}' after collection"@) {
                                                        (s, Err(e)) => (s, Err(e)),
                                                        (s, Ok(end)) => {
                                                            (s, Ok(ExprTree { kind: ExprShape::MapLiteral { key_type: auto_type(start), value_type: auto_type(start), entries }, span: combine(start, end) }))
                                                        },
                                                    }
                                                },
                                            }
                                        }
                                    },
                                }
                            }
                        } else {
                            if !lt(ts, st, s) {
                                stuck(s)
                            } else {
                                match set_entries_rec(ts, s, seq![first]) {
                                    (s, Err(e)) => (s, Err(e)),
                                    (s, Ok(elements)) => {
                                        match expect(ts, s, TokenType::CloseBrace, "Expected '}' after collection"@) {
                                            (s, Err(e)) => (s, Err(e)),
                                            (s, Ok(end)) => {
                                                (s, Ok(ExprTree { kind: ExprShape::SetLiteral(elements), span: combine(start, end) }))
                                            },
                                        }
                                    },
                                }
                            }
                        }
                    },
                }
            }
        }
    }
}

pub proof fn collection_def(ts: Seq<&Token>, st: State, start: Span)
    ensures
        collection(ts, st, start) == ({
    let s = st;
    let s = skip_nl(ts, st);
    if tok(ts, s.cur, TokenType::CloseBrace) {
        (s.next(), Ok(ExprTree { kind: ExprShape::SetLiteral(seq![]), span: combine(start, ts[s.cur].span) }))
    } else {
        if tok(ts, s.cur, TokenType::Colon) {
            empty_map(ts, s, start)
        } else {
            if !le(ts, st, s) {
                stuck(s)
            } else {
                match expression(ts, s) {
                    (s, Err(e)) => (s, Err(e)),
                    (s, Ok(first)) => {
                        if tok(ts, s.cur, TokenType::Colon) {
                            let s = s.next();
                            if !lt(ts, st, s) {
                                stuck(s)
                            } else {
                                match expression(ts, s) {
                                    (s, Err(e)) => (s, Err(e)),
                                    (s, Ok(value)) => {
                                        if !lt(ts, st, s) {
                                            stuck(s)
                                        } else {
                                            match map_entries(ts, s, seq![MapEntryTree { key: first, value }]) {
                                                (s, Err(e)) => (s, Err(e)),
                                                (s, Ok(entries)) => {
                                                    match expect(ts, s, TokenType::CloseBrace, "Expected '}' after collection"@) {
                                                        (s, Err(e)) => (s, Err(e)),
                                                        (s, Ok(end)) => {
                                                            (s, Ok(ExprTree { kind: ExprShape::MapLiteral { key_type: auto_type(start), value_type: auto_type(start), entries }, span: combine(start, end) }))
                                                        },
                                                    }
                                                },
                                            }
                                        }
                                    },
                                }
                            }
                        } else {
                            if !lt(ts, st, s) {
                                stuck(s)
                            } else {
                                match set_entries(ts, s, seq![first]) {
                                    (s, Err(e)) => (s, Err(e)),
                                    (s, Ok(elements)) => {
                                        match expect(ts, s, TokenType::CloseBrace, "Expected '}' after collection"@) {
                                            (s, Err(e)) => (s, Err(e)),
                                            (s, Ok(end)) => {
                                                (s, Ok(ExprTree { kind: ExprShape::SetLiteral(elements), span: combine(start, end) }))
                                            },
                                        }
                                    },
                                }
                            }
                        }
                    },
                }
            }
        }
    }
    }),
{
    reveal(collection);
    reveal(expression);
    reveal(map_entries);
    reveal(set_entries);
}

#[verifier::opaque]
pub open spec fn set_entries(ts: Seq<&Token>, st: State, acc: Seq<ExprTree>) -> Step<Seq<ExprTree>> {
    set_entries_rec(ts, st, acc)
}

pub open spec fn set_entries_rec(ts: Seq<&Token>, st: State, acc: Seq<ExprTree>) -> Step<Seq<ExprTree>>
    decreases ts.len() - st.cur, 60int,
{
    let s = st;
    let (s, more) = more_entries(ts, skip_nl(ts, st));
    if !more {
        (s, Ok(acc))
    } else {
        if !le(ts, st, s) {
            stuck(s)
        } else {
            match expression_rec(ts, s) {
                (s, Err(e)) => (s, Err(e)),
                (s, Ok(e)) => {
                    if !lt(ts, st, s) {
                        stuck(s)
                    } else {
                        set_entries_rec(ts, s, acc.push(e))
                    }
                },
            }
        }
    }
}

pub proof fn set_entries_def(ts: Seq<&Token>, st: State, acc: Seq<ExprTree>)
    ensures
        set_entries(ts, st, acc) == ({
    let s = st;
    let (s, more) = more_entries(ts, skip_nl(ts, st));
    if !more {
        (s, Ok(acc))
    } else {
        if !le(ts, st, s) {
            stuck(s)
        } else {
            match expression(ts, s) {
                (s, Err(e)) => (s, Err(e)),
                (s, Ok(e)) => {
                    if !lt(ts, st, s) {
                        stuck(s)
                    } else {
                        set_entries(ts, s, acc.push(e))
                    }
                },
            }
        }
    }
    }),
{
    reveal(set_entries);
    reveal(expression);
}

#[verifier::opaque]
pub open spec fn map_entries(ts: Seq<&Token>, st: State, acc: Seq<MapEntryTree>) -> Step<Seq<MapEntryTree>> {
    map_entries_rec(ts, st, acc)
}

pub open spec fn map_entries_rec(ts: Seq<&Token>, st: State, acc: Seq<MapEntryTree>) -> Step<Seq<MapEntryTree>>
    decreases ts.len() - st.cur, 60int,
{
    let s = st;
    let (s, more) = more_entries(ts, skip_nl(ts, st));
    if !more {
        (s, Ok(acc))
    } else {
        if !le(ts, st, s) {
            stuck(s)
        } else {
            match expression_rec(ts, s) {
                (s, Err(e)) => (s, Err(e)),
                (s, Ok(key)) => {
                    match expect(ts, s, TokenType::Colon, "Expected ':' after map key"@) {
                        (s, Err(e)) => (s, Err(e)),
                        (s, Ok(_)) => {
                            if !lt(ts, st, s) {
                                stuck(s)
                            } else {
                                match expression_rec(ts, s) {
                                    (s, Err(e)) => (s, Err(e)),
                                    (s, Ok(value)) => {
                                        if !lt(ts, st, s) {
                                            stuck(s)
                                        } else {
                                            map_entries_rec(ts, s, acc.push(MapEntryTree { key, value }))
                                        }
                                    },
                                }
                            }
                        },
                    }
                },
            }
        }
    }
}

pub proof fn map_entries_def(ts: Seq<&Token>, st: State, acc: Seq<MapEntryTree>)
    ensures
        map_entries(ts, st, acc) == ({
    let s = st;
    let (s, more) = more_entries(ts, skip_nl(ts, st));
    if !more {
        (s, Ok(acc))
    } else {
        if !le(ts, st, s) {
            stuck(s)
        } else {
            match expression(ts, s) {
                (s, Err(e)) => (s, Err(e)),
                (s, Ok(key)) => {
                    match expect(ts, s, TokenType::Colon, "Expected ':' after map key"@) {
                        (s, Err(e)) => (s, Err(e)),
                        (s, Ok(_)) => {
                            if !lt(ts, st, s) {
                                stuck(s)
                            } else {
                                match expression(ts, s) {
                                    (s, Err(e)) => (s, Err(e)),
                                    (s, Ok(value)) => {
                                        if !lt(ts, st, s) {
                                            stuck(s)
                                        } else {
                                            map_entries(ts, s, acc.push(MapEntryTree { key, value }))
                                        }
                                    },
                                }
                            }
                        },
                    }
                },
            }
        }
    }
    }),
{
    reveal(map_entries);
    reveal(expression);
}

#[verifier::opaque]
pub open spec fn lambda(ts: Seq<&Token>, st: State, start: Span) -> Step<ExprTree> {
    lambda_rec(ts, st, start)
}

pub open spec fn lambda_rec(ts: Seq<&Token>, st: State, start: Span) -> Step<ExprTree>
    decreases ts.len() - st.cur, 90int,
{
    let s = st;
    match expect(ts, st, TokenType::OpenParen, "Expected '(' after 'func' in lambda"@) {
        (s, Err(e)) => (s, Err(e)),
        (s, Ok(_)) => {
            match lambda_params(ts, s) {
                (s, Err(e)) => (s, Err(e)),
                (s, Ok(params)) => {
                    match expect(ts, s, TokenType::CloseParen, "Expected ')' after parameters"@) {
                        (s, Err(e)) => (s, Err(e)),
                        (s, Ok(_)) => {
                            if !lt(ts, st, s) {
                                stuck(s)
                            } else {
                                match where_clause_rec(ts, s) {
                                    (s, Err(e)) => (s, Err(e)),
                                    (s, Ok(clause)) => {
                                        let s = if clause is Some { skip_nl(ts, s) } else { s };
                                        if !tok(ts, s.cur, TokenType::Returns) {
                                            (s, Err(fault_help(DiagnosticCode::ParseExpectedToken, "Expected 'returns' after lambda parameters, found "@ + describe(seen(ts, s.cur).token_type), seen(ts, s.cur).span, "Lambda expressions require an explicit return type. Example: func(int x) returns int { return x + 1 }"@)))
                                        } else {
                                            match ty(ts, s.next()) {
                                                (s, Err(e)) => (s, Err(e)),
                                                (s, Ok(return_type)) => {
                                                    if !lt(ts, st, s) {
                                                        stuck(s)
                                                    } else {
                                                        match block_rec(ts, s) {
                                                            (s, Err(e)) => (s, Err(e)),
                                                            (s, Ok(b)) => {
                                                                if !lt(ts, st, s) {
                                                                    stuck(s)
                                                                } else {
                                                                    postfix_rec(ts, s, ExprTree { kind: ExprShape::Lambda { params, return_type, body: b.0, where_clause: clause }, span: combine(start, last_span(b.0, start)) })
                                                                }
                                                            },
                                                        }
                                                    }
                                                },
                                            }
                                        }
                                    },
                                }
                            }
                        },
                    }
                },
            }
        },
    }
}

pub proof fn lambda_def(ts: Seq<&Token>, st: State, start: Span)
    ensures
        lambda(ts, st, start) == ({
    let s = st;
    match expect(ts, st, TokenType::OpenParen, "Expected '(' after 'func' in lambda"@) {
        (s, Err(e)) => (s, Err(e)),
        (s, Ok(_)) => {
            match lambda_params(ts, s) {
                (s, Err(e)) => (s, Err(e)),
                (s, Ok(params)) => {
                    match expect(ts, s, TokenType::CloseParen, "Expected ')' after parameters"@) {
                        (s, Err(e)) => (s, Err(e)),
                        (s, Ok(_)) => {
                            if !lt(ts, st, s) {
                                stuck(s)
                            } else {
                                match where_clause(ts, s) {
                                    (s, Err(e)) => (s, Err(e)),
                                    (s, Ok(clause)) => {
                                        let s = if clause is Some { skip_nl(ts, s) } else { s };
                                        if !tok(ts, s.cur, TokenType::Returns) {
                                            (s, Err(fault_help(DiagnosticCode::ParseExpectedToken, "Expected 'returns' after lambda parameters, found "@ + describe(seen(ts, s.cur).token_type), seen(ts, s.cur).span, "Lambda expressions require an explicit return type. Example: func(int x) returns int { return x + 1 }"@)))
                                        } else {
                                            match ty(ts, s.next()) {
                                                (s, Err(e)) => (s, Err(e)),
                                                (s, Ok(return_type)) => {
                                                    if !lt(ts, st, s) {
                                                        stuck(s)
                                                    } else {
                                                        match block(ts, s) {
                                                            (s, Err(e)) => (s, Err(e)),
                                                            (s, Ok(b)) => {
                                                                if !lt(ts, st, s) {
                                                                    stuck(s)
                                                                } else {
                                                                    postfix(ts, s, ExprTree { kind: ExprShape::Lambda { params, return_type, body: b.0, where_clause: clause }, span: combine(start, last_span(b.0, start)) })
                                                                }
                                                            },
                                                        }
                                                    }
                                                },
                                            }
                                        }
                                    },
                                }
                            }
                        },
                    }
                },
            }
        },
    }
    }),
{
    reveal(lambda);
    reveal(block);
    reveal(postfix);
    reveal(where_clause);
}

pub open spec fn lambda_params(ts: Seq<&Token>, st: State) -> Step<Seq<ParamTree>>
{
    let s = st;
    if tok(ts, st.cur, TokenType::CloseParen) {
        (s, Ok(seq![]))
    } else {
        lambda_params_from(ts, st, seq![])
    }
}

pub open spec fn lambda_params_from(ts: Seq<&Token>, st: State, acc: Seq<ParamTree>) -> Step<Seq<ParamTree>>
    decreases ts.len() - st.cur, 0int,
{
    let s = st;
    match ty(ts, st) {
        (s, Err(e)) => (s, Err(e)),
        (s, Ok(t)) => {
            match identifier(ts, s, "Expected parameter name"@) {
                (s, Err(e)) => (s, Err(e)),
                (s, Ok(name)) => {
                    if tok(ts, s.cur, TokenType::Eq) {
                        (s.next(), Err(fault_help(DiagnosticCode::ParseExpectedToken, "Default arguments are not supported in lambda expressions"@, ts[s.cur].span, "Lambda parameters cannot have default values. Define a named function instead if you need default parameters."@)))
                    } else {
                        let more = acc.push(ParamTree { name, type_: t, default_value: None });
                        if tok(ts, s.cur, TokenType::Comma) {
                            let s = skip_nl(ts, s.next());
                            if !lt(ts, st, s) {
                                stuck(s)
                            } else {
                                lambda_params_from(ts, s, more)
                            }
                        } else {
                            (s, Ok(more))
                        }
                    }
                },
            }
        },
    }
}

#[verifier::opaque]
pub open spec fn if_expression(ts: Seq<&Token>, st: State, start: Span) -> Step<ExprTree> {
    if_expression_rec(ts, st, start)
}

pub open spec fn if_expression_rec(ts: Seq<&Token>, st: State, start: Span) -> Step<ExprTree>
    decreases ts.len() - st.cur, 90int,
{
    let s = st;
    match expression_rec(ts, st) {
        (s, Err(e)) => (s, Err(e)),
        (s, Ok(cond)) => {
            if !lt(ts, st, s) {
                stuck(s)
            } else {
                match branch_rec(ts, s, "then expression"@) {
                    (s, Err(e)) => (s, Err(e)),
                    (s, Ok(yes)) => {
                        let s = skip_nl(ts, s);
                        match expect(ts, s, TokenType::Else, "Expected 'else' after then branch"@) {
                            (s, Err(e)) => (s, Err(e)),
                            (s, Ok(_)) => {
                                let s = skip_nl(ts, s);
                                if tok(ts, s.cur, TokenType::If) {
                                    let inner = ts[s.cur].span;
                                    let s = s.next();
                                    if !lt(ts, st, s) {
                                        stuck(s)
                                    } else {
                                        match if_expression_rec(ts, s, inner) {
                                            (s, Err(e)) => (s, Err(e)),
                                            (s, Ok(no)) => {
                                                (s, Ok(ExprTree { kind: ExprShape::If { cond: Box::new(cond), then_expr: Box::new(yes), else_expr: Box::new(no) }, span: combine(start, before(ts, s.cur).span) }))
                                            },
                                        }
                                    }
                                } else {
                                    if !lt(ts, st, s) {
                                        stuck(s)
                                    } else {
                                        match branch_rec(ts, s, "else expression"@) {
                                            (s, Err(e)) => (s, Err(e)),
                                            (s, Ok(no)) => {
                                                (s, Ok(ExprTree { kind: ExprShape::If { cond: Box::new(cond), then_expr: Box::new(yes), else_expr: Box::new(no) }, span: combine(start, before(ts, s.cur).span) }))
                                            },
                                        }
                                    }
                                }
                            },
                        }
                    },
                }
            }
        },
    }
}

pub proof fn if_expression_def(ts: Seq<&Token>, st: State, start: Span)
    ensures
        if_expression(ts, st, start) == ({
    let s = st;
    match expression(ts, st) {
        (s, Err(e)) => (s, Err(e)),
        (s, Ok(cond)) => {
            if !lt(ts, st, s) {
                stuck(s)
            } else {
                match branch(ts, s, "then expression"@) {
                    (s, Err(e)) => (s, Err(e)),
                    (s, Ok(yes)) => {
                        let s = skip_nl(ts, s);
                        match expect(ts, s, TokenType::Else, "Expected 'else' after then branch"@) {
                            (s, Err(e)) => (s, Err(e)),
                            (s, Ok(_)) => {
                                let s = skip_nl(ts, s);
                                if tok(ts, s.cur, TokenType::If) {
                                    let inner = ts[s.cur].span;
                                    let s = s.next();
                                    if !lt(ts, st, s) {
                                        stuck(s)
                                    } else {
                                        match if_expression(ts, s, inner) {
                                            (s, Err(e)) => (s, Err(e)),
                                            (s, Ok(no)) => {
                                                (s, Ok(ExprTree { kind: ExprShape::If { cond: Box::new(cond), then_expr: Box::new(yes), else_expr: Box::new(no) }, span: combine(start, before(ts, s.cur).span) }))
                                            },
                                        }
                                    }
                                } else {
                                    if !lt(ts, st, s) {
                                        stuck(s)
                                    } else {
                                        match branch(ts, s, "else expression"@) {
                                            (s, Err(e)) => (s, Err(e)),
                                            (s, Ok(no)) => {
                                                (s, Ok(ExprTree { kind: ExprShape::If { cond: Box::new(cond), then_expr: Box::new(yes), else_expr: Box::new(no) }, span: combine(start, before(ts, s.cur).span) }))
                                            },
                                        }
                                    }
                                }
                            },
                        }
                    },
                }
            }
        },
    }
    }),
{
    reveal(if_expression);
    reveal(branch);
    reveal(expression);
}

#[verifier::opaque]
pub open spec fn branch(ts: Seq<&Token>, st: State, what: Seq<char>) -> Step<ExprTree> {
    branch_rec(ts, st, what)
}

pub open spec fn branch_rec(ts: Seq<&Token>, st: State, what: Seq<char>) -> Step<ExprTree>
    decreases ts.len() - st.cur, 60int,
{
    let s = st;
    match expect(ts, st, TokenType::OpenBrace, "Expected '{' before "@ + what) {
        (s, Err(e)) => (s, Err(e)),
        (s, Ok(_)) => {
            let s = skip_nl(ts, s);
            if !lt(ts, st, s) {
                stuck(s)
            } else {
                match expression_rec(ts, s) {
                    (s, Err(e)) => (s, Err(e)),
                    (s, Ok(e)) => {
                        let s = skip_nl(ts, s);
                        match expect(ts, s, TokenType::CloseBrace, "Expected '}' after "@ + what) {
                            (s, Err(e)) => (s, Err(e)),
                            (s, Ok(_)) => {
                                (s, Ok(e))
                            },
                        }
                    },
                }
            }
        },
    }
}

pub proof fn branch_def(ts: Seq<&Token>, st: State, what: Seq<char>)
    ensures
        branch(ts, st, what) == ({
    let s = st;
    match expect(ts, st, TokenType::OpenBrace, "Expected '{' before "@ + what) {
        (s, Err(e)) => (s, Err(e)),
        (s, Ok(_)) => {
            let s = skip_nl(ts, s);
            if !lt(ts, st, s) {
                stuck(s)
            } else {
                match expression(ts, s) {
                    (s, Err(e)) => (s, Err(e)),
                    (s, Ok(e)) => {
                        let s = skip_nl(ts, s);
                        match expect(ts, s, TokenType::CloseBrace, "Expected '}' after "@ + what) {
                            (s, Err(e)) => (s, Err(e)),
                            (s, Ok(_)) => {
                                (s, Ok(e))
                            },
                        }
                    },
                }
            }
        },
    }
    }),
{
    reveal(branch);
    reveal(expression);
}

#[verifier::opaque]
pub open spec fn where_clause(ts: Seq<&Token>, st: State) -> Step<Option<WhereClauseTree>> {
    where_clause_rec(ts, st)
}

pub open spec fn where_clause_rec(ts: Seq<&Token>, st: State) -> Step<Option<WhereClauseTree>>
    decreases ts.len() - st.cur, 70int,
{
    let s = st;
    let p = nl_end(ts, st.cur);
    if !tok(ts, p, TokenType::Where) {
        (s, Ok(None))
    } else {
        let start = ts[p].span;
        let s = skip_nl(ts, st.at(p + 1));
        match expect(ts, s, TokenType::OpenBrace, "Expected '{' after 'where'"@) {
            (s, Err(e)) => (s, Err(e)),
            (s, Ok(_)) => {
                if !lt(ts, st, s) {
                    stuck(s)
                } else {
                    match where_predicates_rec(ts, s, seq![]) {
                        (s, Err(e)) => (s, Err(e)),
                        (s, Ok(predicates)) => {
                            let s = skip_nl(ts, s);
                            match expect(ts, s, TokenType::CloseBrace, "Expected '}' after where predicates (predicates are comma-separated)"@) {
                                (s, Err(e)) => (s, Err(e)),
                                (s, Ok(end)) => {
                                    if predicates.len() == 0 {
                                        (s, Err(fault_help(DiagnosticCode::ParseExpectedToken, "Empty 'where' block"@, combine(start, end), "A where block must contain at least one boolean predicate. Example: where { value > 0 }"@)))
                                    } else {
                                        (s, Ok(Some(WhereClauseTree { predicates, span: combine(start, end) })))
                                    }
                                },
                            }
                        },
                    }
                }
            },
        }
    }
}

pub proof fn where_clause_def(ts: Seq<&Token>, st: State)
    ensures
        where_clause(ts, st) == ({
    let s = st;
    let p = nl_end(ts, st.cur);
    if !tok(ts, p, TokenType::Where) {
        (s, Ok(None))
    } else {
        let start = ts[p].span;
        let s = skip_nl(ts, st.at(p + 1));
        match expect(ts, s, TokenType::OpenBrace, "Expected '{' after 'where'"@) {
            (s, Err(e)) => (s, Err(e)),
            (s, Ok(_)) => {
                if !lt(ts, st, s) {
                    stuck(s)
                } else {
                    match where_predicates(ts, s, seq![]) {
                        (s, Err(e)) => (s, Err(e)),
                        (s, Ok(predicates)) => {
                            let s = skip_nl(ts, s);
                            match expect(ts, s, TokenType::CloseBrace, "Expected '}' after where predicates (predicates are comma-separated)"@) {
                                (s, Err(e)) => (s, Err(e)),
                                (s, Ok(end)) => {
                                    if predicates.len() == 0 {
                                        (s, Err(fault_help(DiagnosticCode::ParseExpectedToken, "Empty 'where' block"@, combine(start, end), "A where block must contain at least one boolean predicate. Example: where { value > 0 }"@)))
                                    } else {
                                        (s, Ok(Some(WhereClauseTree { predicates, span: combine(start, end) })))
                                    }
                                },
                            }
                        },
                    }
                }
            },
        }
    }
    }),
{
    reveal(where_clause);
    reveal(where_predicates);
}

#[verifier::opaque]
pub open spec fn where_predicates(ts: Seq<&Token>, st: State, acc: Seq<ExprTree>) -> Step<Seq<ExprTree>> {
    where_predicates_rec(ts, st, acc)
}

pub open spec fn where_predicates_rec(ts: Seq<&Token>, st: State, acc: Seq<ExprTree>) -> Step<Seq<ExprTree>>
    decreases ts.len() - st.cur, 60int,
{
    let s = st;
    let s = skip_nl(ts, st);
    if tok(ts, s.cur, TokenType::CloseBrace) {
        (s, Ok(acc))
    } else {
        if !le(ts, st, s) {
            stuck(s)
        } else {
            match expression_rec(ts, s) {
                (s, Err(e)) => (s, Err(e)),
                (s, Ok(e)) => {
                    let s = skip_nl(ts, s);
                    if !tok(ts, s.cur, TokenType::Comma) {
                        (s, Ok(acc.push(e)))
                    } else {
                        let s = s.next();
                        if !lt(ts, st, s) {
                            stuck(s)
                        } else {
                            where_predicates_rec(ts, s, acc.push(e))
                        }
                    }
                },
            }
        }
    }
}

pub proof fn where_predicates_def(ts: Seq<&Token>, st: State, acc: Seq<ExprTree>)
    ensures
        where_predicates(ts, st, acc) == ({
    let s = st;
    let s = skip_nl(ts, st);
    if tok(ts, s.cur, TokenType::CloseBrace) {
        (s, Ok(acc))
    } else {
        if !le(ts, st, s) {
            stuck(s)
        } else {
            match expression(ts, s) {
                (s, Err(e)) => (s, Err(e)),
                (s, Ok(e)) => {
                    let s = skip_nl(ts, s);
                    if !tok(ts, s.cur, TokenType::Comma) {
                        (s, Ok(acc.push(e)))
                    } else {
                        let s = s.next();
                        if !lt(ts, st, s) {
                            stuck(s)
                        } else {
                            where_predicates(ts, s, acc.push(e))
                        }
                    }
                },
            }
        }
    }
    }),
{
    reveal(where_predicates);
    reveal(expression);
}

#[verifier::opaque]
pub open spec fn block(ts: Seq<&Token>, st: State) -> Step<(Seq<StmtTree>, Span)> {
    block_rec(ts, st)
}

pub open spec fn block_rec(ts: Seq<&Token>, st: State) -> Step<(Seq<StmtTree>, Span)>
    decreases ts.len() - st.cur, 80int,
{
    let s = st;
    match expect(ts, st, TokenType::OpenBrace, "Expected '{' before block"@) {
        (s, Err(e)) => (s, Err(e)),
        (s, Ok(start)) => {
            let s = skip_nl(ts, s);
            if tok(ts, s.cur, TokenType::CloseBrace) {
                (s.next(), Ok((seq![], combine(start, ts[s.cur].span))))
            } else {
                if !lt(ts, st, s) {
                    stuck(s)
                } else {
                    match block_nodes_rec(ts, s, seq![]) {
                        (s, Err(e)) => (s, Err(e)),
                        (s, Ok(nodes)) => {
                            if !tok(ts, s.cur, TokenType::CloseBrace) {
                                (s, Err(fault(DiagnosticCode::ParseExpectedToken, "Expected '}' after block"@, seen(ts, s.cur).span)))
                            } else {
                                (s.next(), Ok((statements_in(nodes), combine(start, ts[s.cur].span))))
                            }
                        },
                    }
                }
            }
        },
    }
}

pub proof fn block_def(ts: Seq<&Token>, st: State)
    ensures
        block(ts, st) == ({
    let s = st;
    match expect(ts, st, TokenType::OpenBrace, "Expected '{' before block"@) {
        (s, Err(e)) => (s, Err(e)),
        (s, Ok(start)) => {
            let s = skip_nl(ts, s);
            if tok(ts, s.cur, TokenType::CloseBrace) {
                (s.next(), Ok((seq![], combine(start, ts[s.cur].span))))
            } else {
                if !lt(ts, st, s) {
                    stuck(s)
                } else {
                    match block_nodes(ts, s, seq![]) {
                        (s, Err(e)) => (s, Err(e)),
                        (s, Ok(nodes)) => {
                            if !tok(ts, s.cur, TokenType::CloseBrace) {
                                (s, Err(fault(DiagnosticCode::ParseExpectedToken, "Expected '}' after block"@, seen(ts, s.cur).span)))
                            } else {
                                (s.next(), Ok((statements_in(nodes), combine(start, ts[s.cur].span))))
                            }
                        },
                    }
                }
            }
        },
    }
    }),
{
    reveal(block);
    reveal(block_nodes);
}

#[verifier::opaque]
pub open spec fn block_nodes(ts: Seq<&Token>, st: State, acc: Seq<NodeTree>) -> Step<Seq<NodeTree>> {
    block_nodes_rec(ts, st, acc)
}

pub open spec fn block_nodes_rec(ts: Seq<&Token>, st: State, acc: Seq<NodeTree>) -> Step<Seq<NodeTree>>
    decreases ts.len() - st.cur, 200int,
{
    let s = st;
    if tok(ts, st.cur, TokenType::CloseBrace) || st.cur >= ts.len() {
        (s, Ok(acc))
    } else {
        let s = skip_nl(ts, st);
        if tok(ts, s.cur, TokenType::CloseBrace) {
            (s, Ok(acc))
        } else {
            if !le(ts, st, s) {
                stuck(s)
            } else {
                match declaration_rec(ts, s) {
                    (s, Err(e)) => (s, Err(e)),
                    (s, Ok(d)) => {
                        match d {
                            Some(node) => {
                                let s = skip_nl(ts, s);
                                if !lt(ts, st, s) {
                                    stuck(s)
                                } else {
                                    block_nodes_rec(ts, s, acc.push(node))
                                }
                            },
                            None => {
                                let s = if !tok(ts, s.cur, TokenType::CloseBrace) && s.cur < ts.len() { s.next() } else { s };
                                if tok(ts, s.cur, TokenType::CloseBrace) || s.cur >= ts.len() {
                                    (s, Ok(acc))
                                } else {
                                    if !lt(ts, st, s) {
                                        stuck(s)
                                    } else {
                                        block_nodes_rec(ts, s, acc)
                                    }
                                }
                            },
                        }
                    },
                }
            }
        }
    }
}

pub proof fn block_nodes_def(ts: Seq<&Token>, st: State, acc: Seq<NodeTree>)
    ensures
        block_nodes(ts, st, acc) == ({
    let s = st;
    if tok(ts, st.cur, TokenType::CloseBrace) || st.cur >= ts.len() {
        (s, Ok(acc))
    } else {
        let s = skip_nl(ts, st);
        if tok(ts, s.cur, TokenType::CloseBrace) {
            (s, Ok(acc))
        } else {
            if !le(ts, st, s) {
                stuck(s)
            } else {
                match declaration(ts, s) {
                    (s, Err(e)) => (s, Err(e)),
                    (s, Ok(d)) => {
                        match d {
                            Some(node) => {
                                let s = skip_nl(ts, s);
                                if !lt(ts, st, s) {
                                    stuck(s)
                                } else {
                                    block_nodes(ts, s, acc.push(node))
                                }
                            },
                            None => {
                                let s = if !tok(ts, s.cur, TokenType::CloseBrace) && s.cur < ts.len() { s.next() } else { s };
                                if tok(ts, s.cur, TokenType::CloseBrace) || s.cur >= ts.len() {
                                    (s, Ok(acc))
                                } else {
                                    if !lt(ts, st, s) {
                                        stuck(s)
                                    } else {
                                        block_nodes(ts, s, acc)
                                    }
                                }
                            },
                        }
                    },
                }
            }
        }
    }
    }),
{
    reveal(block_nodes);
    reveal(declaration);
}

#[verifier::opaque]
pub open spec fn declaration(ts: Seq<&Token>, st: State) -> Step<Option<NodeTree>> {
    declaration_rec(ts, st)
}

pub open spec fn declaration_rec(ts: Seq<&Token>, st: State) -> Step<Option<NodeTree>>
    decreases ts.len() - st.cur, 180int,
{
    let s = st;
    let s = skip_nl(ts, st);
    if s.cur >= ts.len() {
        (s, Ok(None))
    } else {
        let start = s.cur;
        if !le(ts, st, s) {
            stuck(s)
        } else {
            match declaration_content_rec(ts, s) {
                (s, Ok(node)) => {
                    let s = skip_nl(ts, s);
                    (s, Ok(node))
                },
                (s, Err(e)) => {
                    let s = skip_nl(ts, s).record(e);
                    if s.stopped || s.cur >= ts.len() || tok(ts, s.cur, TokenType::CloseBrace) {
                        (s, Ok(None))
                    } else {
                        let s = if s.cur == start { s.next() } else { s };
                        if !lt(ts, st, s) {
                            stuck(s)
                        } else {
                            declaration_rec(ts, s)
                        }
                    }
                },
            }
        }
    }
}

pub proof fn declaration_def(ts: Seq<&Token>, st: State)
    ensures
        declaration(ts, st) == ({
    let s = st;
    let s = skip_nl(ts, st);
    if s.cur >= ts.len() {
        (s, Ok(None))
    } else {
        let start = s.cur;
        if !le(ts, st, s) {
            stuck(s)
        } else {
            match declaration_content(ts, s) {
                (s, Ok(node)) => {
                    let s = skip_nl(ts, s);
                    (s, Ok(node))
                },
                (s, Err(e)) => {
                    let s = skip_nl(ts, s).record(e);
                    if s.stopped || s.cur >= ts.len() || tok(ts, s.cur, TokenType::CloseBrace) {
                        (s, Ok(None))
                    } else {
                        let s = if s.cur == start { s.next() } else { s };
                        if !lt(ts, st, s) {
                            stuck(s)
                        } else {
                            declaration(ts, s)
                        }
                    }
                },
            }
        }
    }
    }),
{
    reveal(declaration);
    reveal(declaration_content);
}

#[verifier::opaque]
pub open spec fn declaration_content(ts: Seq<&Token>, st: State) -> Step<Option<NodeTree>> {
    declaration_content_rec(ts, st)
}

pub open spec fn declaration_content_rec(ts: Seq<&Token>, st: State) -> Step<Option<NodeTree>>
    decreases ts.len() - st.cur, 170int,
{
    let s = st;
    if tok(ts, st.cur, TokenType::Auto) {
        match auto_declaration_rec(ts, st) {
            (s, Err(e)) => (s, Err(e)),
            (s, Ok(d)) => {
                (s, Ok(Some(NodeTree::Statement(d))))
            },
        }
    } else if tok(ts, st.cur, TokenType::Const) {
        match const_declaration_rec(ts, st) {
            (s, Err(e)) => (s, Err(e)),
            (s, Ok(d)) => {
                (s, Ok(Some(NodeTree::Statement(d))))
            },
        }
    } else if tok(ts, st.cur, TokenType::Common) {
        let s = st.next();
        if !lt(ts, st, s) {
            stuck(s)
        } else {
            match function_declaration_rec(ts, s, true) {
                (s, Err(e)) => (s, Err(e)),
                (s, Ok(f)) => {
                    (s, Ok(Some(NodeTree::Function(f))))
                },
            }
        }
    } else if tok(ts, st.cur, TokenType::Func) {
        match function_declaration_rec(ts, st, false) {
            (s, Err(e)) => (s, Err(e)),
            (s, Ok(f)) => {
                (s, Ok(Some(NodeTree::Function(f))))
            },
        }
    } else if seen(ts, st.cur).token_type is Id {
        id_declaration_rec(ts, st)
    } else if tok(ts, st.cur, TokenType::Class) {
        match class_declaration_rec(ts, st) {
            (s, Err(e)) => (s, Err(e)),
            (s, Ok(d)) => {
                (s, Ok(Some(d)))
            },
        }
    } else if tok(ts, st.cur, TokenType::Interface) {
        match interface_declaration_rec(ts, st) {
            (s, Err(e)) => (s, Err(e)),
            (s, Ok(d)) => {
                (s, Ok(Some(d)))
            },
        }
    } else if tok(ts, st.cur, TokenType::Enum) {
        match enum_declaration_rec(ts, st) {
            (s, Err(e)) => (s, Err(e)),
            (s, Ok(d)) => {
                (s, Ok(Some(d)))
            },
        }
    } else if tok(ts, st.cur, TokenType::Import) {
        match import_declaration(ts, st) {
            (s, Err(e)) => (s, Err(e)),
            (s, Ok(d)) => {
                (s, Ok(Some(NodeTree::Statement(d))))
            },
        }
    } else {
        match statement_rec(ts, st) {
            (s, Err(e)) => (s, Err(e)),
            (s, Ok(d)) => {
                (s, Ok(Some(d)))
            },
        }
    }
}

pub proof fn declaration_content_def(ts: Seq<&Token>, st: State)
    ensures
        declaration_content(ts, st) == ({
    let s = st;
    if tok(ts, st.cur, TokenType::Auto) {
        match auto_declaration(ts, st) {
            (s, Err(e)) => (s, Err(e)),
            (s, Ok(d)) => {
                (s, Ok(Some(NodeTree::Statement(d))))
            },
        }
    } else if tok(ts, st.cur, TokenType::Const) {
        match const_declaration(ts, st) {
            (s, Err(e)) => (s, Err(e)),
            (s, Ok(d)) => {
                (s, Ok(Some(NodeTree::Statement(d))))
            },
        }
    } else if tok(ts, st.cur, TokenType::Common) {
        let s = st.next();
        if !lt(ts, st, s) {
            stuck(s)
        } else {
            match function_declaration(ts, s, true) {
                (s, Err(e)) => (s, Err(e)),
                (s, Ok(f)) => {
                    (s, Ok(Some(NodeTree::Function(f))))
                },
            }
        }
    } else if tok(ts, st.cur, TokenType::Func) {
        match function_declaration(ts, st, false) {
            (s, Err(e)) => (s, Err(e)),
            (s, Ok(f)) => {
                (s, Ok(Some(NodeTree::Function(f))))
            },
        }
    } else if seen(ts, st.cur).token_type is Id {
        id_declaration(ts, st)
    } else if tok(ts, st.cur, TokenType::Class) {
        match class_declaration(ts, st) {
            (s, Err(e)) => (s, Err(e)),
            (s, Ok(d)) => {
                (s, Ok(Some(d)))
            },
        }
    } else if tok(ts, st.cur, TokenType::Interface) {
        match interface_declaration(ts, st) {
            (s, Err(e)) => (s, Err(e)),
            (s, Ok(d)) => {
                (s, Ok(Some(d)))
            },
        }
    } else if tok(ts, st.cur, TokenType::Enum) {
        match enum_declaration(ts, st) {
            (s, Err(e)) => (s, Err(e)),
            (s, Ok(d)) => {
                (s, Ok(Some(d)))
            },
        }
    } else if tok(ts, st.cur, TokenType::Import) {
        match import_declaration(ts, st) {
            (s, Err(e)) => (s, Err(e)),
            (s, Ok(d)) => {
                (s, Ok(Some(NodeTree::Statement(d))))
            },
        }
    } else {
        match statement(ts, st) {
            (s, Err(e)) => (s, Err(e)),
            (s, Ok(d)) => {
                (s, Ok(Some(d)))
            },
        }
    }
    }),
{
    reveal(declaration_content);
    reveal(auto_declaration);
    reveal(class_declaration);
    reveal(const_declaration);
    reveal(enum_declaration);
    reveal(function_declaration);
    reveal(id_declaration);
    reveal(interface_declaration);
    reveal(statement);
}

#[verifier::opaque]
pub open spec fn id_declaration(ts: Seq<&Token>, st: State) -> Step<Option<NodeTree>> {
    id_declaration_rec(ts, st)
}

pub open spec fn id_declaration_rec(ts: Seq<&Token>, st: State) -> Step<Option<NodeTree>>
    decreases ts.len() - st.cur, 165int,
{
    let s = st;
    let (after, t) = ty(ts, st);
    let s = after.at(st.cur);
    if t is Ok && seen(ts, after.cur).token_type is Id && tok(ts, after.cur + 1, TokenType::Eq) {
        typed_recovery_rec(ts, s)
    } else {
        match statement_rec(ts, s) {
            (s, Err(e)) => (s, Err(e)),
            (s, Ok(d)) => {
                (s, Ok(Some(d)))
            },
        }
    }
}

pub proof fn id_declaration_def(ts: Seq<&Token>, st: State)
    ensures
        id_declaration(ts, st) == ({
    let s = st;
    let (after, t) = ty(ts, st);
    let s = after.at(st.cur);
    if t is Ok && seen(ts, after.cur).token_type is Id && tok(ts, after.cur + 1, TokenType::Eq) {
        typed_recovery(ts, s)
    } else {
        match statement(ts, s) {
            (s, Err(e)) => (s, Err(e)),
            (s, Ok(d)) => {
                (s, Ok(Some(d)))
            },
        }
    }
    }),
{
    reveal(id_declaration);
    reveal(statement);
    reveal(typed_recovery);
}

#[verifier::opaque]
pub open spec fn typed_recovery(ts: Seq<&Token>, st: State) -> Step<Option<NodeTree>> {
    typed_recovery_rec(ts, st)
}

pub open spec fn typed_recovery_rec(ts: Seq<&Token>, st: State) -> Step<Option<NodeTree>>
    decreases ts.len() - st.cur, 160int,
{
    let s = st;
    match typed_declaration_rec(ts, st) {
        (s, Ok(d)) => {
            (s, Ok(Some(NodeTree::Statement(d))))
        },
        (s, Err(e)) => {
            if recoverable(e) {
                let s = synchronize(ts, s.record(e));
                (s, Ok(None))
            } else {
                (s, Err(e))
            }
        },
    }
}

pub proof fn typed_recovery_def(ts: Seq<&Token>, st: State)
    ensures
        typed_recovery(ts, st) == ({
    let s = st;
    match typed_declaration(ts, st) {
        (s, Ok(d)) => {
            (s, Ok(Some(NodeTree::Statement(d))))
        },
        (s, Err(e)) => {
            if recoverable(e) {
                let s = synchronize(ts, s.record(e));
                (s, Ok(None))
            } else {
                (s, Err(e))
            }
        },
    }
    }),
{
    reveal(typed_recovery);
    reveal(typed_declaration);
}

#[verifier::opaque]
pub open spec fn auto_declaration(ts: Seq<&Token>, st: State) -> Step<StmtTree> {
    auto_declaration_rec(ts, st)
}

pub open spec fn auto_declaration_rec(ts: Seq<&Token>, st: State) -> Step<StmtTree>
    decreases ts.len() - st.cur, 150int,
{
    let s = st;
    let start = seen(ts, st.cur).span;
    let s = st.next();
    match identifier(ts, s, "Expected variable name after 'auto'"@) {
        (s, Err(e)) => (s, Err(e)),
        (s, Ok(name)) => {
            let name_span = before(ts, s.cur).span;
            match expect(ts, s, TokenType::Eq, "Expected '=' after variable name"@) {
                (s, Err(e)) => (s, Err(e)),
                (s, Ok(_)) => {
                    if !lt(ts, st, s) {
                        stuck(s)
                    } else {
                        match expression_rec(ts, s) {
                            (s, Err(e)) => (s, Err(e)),
                            (s, Ok(value)) => {
                                match nested_update(value) {
                                    Some(e) => {
                                        (s, Err(e))
                                    },
                                    None => {
                                        if !in_block(ts, s.cur) && s.cur < ts.len() && starts_statement(ts[s.cur].token_type) && !(before(ts, s.cur).token_type is NewLine) {
                                            (s, Err(fault(DiagnosticCode::ParseExpectedToken, "Expected newline after statement"@, ts[s.cur].span)))
                                        } else {
                                            let s = if in_block(ts, s.cur) { skip_nl(ts, s) } else { s };
                                            (s, Ok(stmt(StmtShape::AutoDecl(name, TypeTree { kind: TypeShape::Auto, span: name_span }, value), combine(start, value.span))))
                                        }
                                    },
                                }
                            },
                        }
                    }
                },
            }
        },
    }
}

pub proof fn auto_declaration_def(ts: Seq<&Token>, st: State)
    ensures
        auto_declaration(ts, st) == ({
    let s = st;
    let start = seen(ts, st.cur).span;
    let s = st.next();
    match identifier(ts, s, "Expected variable name after 'auto'"@) {
        (s, Err(e)) => (s, Err(e)),
        (s, Ok(name)) => {
            let name_span = before(ts, s.cur).span;
            match expect(ts, s, TokenType::Eq, "Expected '=' after variable name"@) {
                (s, Err(e)) => (s, Err(e)),
                (s, Ok(_)) => {
                    if !lt(ts, st, s) {
                        stuck(s)
                    } else {
                        match expression(ts, s) {
                            (s, Err(e)) => (s, Err(e)),
                            (s, Ok(value)) => {
                                match nested_update(value) {
                                    Some(e) => {
                                        (s, Err(e))
                                    },
                                    None => {
                                        if !in_block(ts, s.cur) && s.cur < ts.len() && starts_statement(ts[s.cur].token_type) && !(before(ts, s.cur).token_type is NewLine) {
                                            (s, Err(fault(DiagnosticCode::ParseExpectedToken, "Expected newline after statement"@, ts[s.cur].span)))
                                        } else {
                                            let s = if in_block(ts, s.cur) { skip_nl(ts, s) } else { s };
                                            (s, Ok(stmt(StmtShape::AutoDecl(name, TypeTree { kind: TypeShape::Auto, span: name_span }, value), combine(start, value.span))))
                                        }
                                    },
                                }
                            },
                        }
                    }
                },
            }
        },
    }
    }),
{
    reveal(auto_declaration);
    reveal(expression);
}

#[verifier::opaque]
pub open spec fn const_declaration(ts: Seq<&Token>, st: State) -> Step<StmtTree> {
    const_declaration_rec(ts, st)
}

pub open spec fn const_declaration_rec(ts: Seq<&Token>, st: State) -> Step<StmtTree>
    decreases ts.len() - st.cur, 150int,
{
    let s = st;
    let start = seen(ts, st.cur).span;
    let s = st.next();
    match ty(ts, s) {
        (s, Err(e)) => (s, Err(e)),
        (s, Ok(t)) => {
            match identifier(ts, s, "Expected constant name after type"@) {
                (s, Err(e)) => (s, Err(e)),
                (s, Ok(name)) => {
                    match expect(ts, s, TokenType::Eq, "Expected '=' after constant name"@) {
                        (s, Err(e)) => (s, Err(e)),
                        (s, Ok(_)) => {
                            if !lt(ts, st, s) {
                                stuck(s)
                            } else {
                                match expression_rec(ts, s) {
                                    (s, Err(e)) => (s, Err(e)),
                                    (s, Ok(value)) => {
                                        match nested_update(value) {
                                            Some(e) => {
                                                (s, Err(e))
                                            },
                                            None => {
                                                (s, Ok(stmt(StmtShape::ConstDecl(name, t, value), combine(start, value.span))))
                                            },
                                        }
                                    },
                                }
                            }
                        },
                    }
                },
            }
        },
    }
}

pub proof fn const_declaration_def(ts: Seq<&Token>, st: State)
    ensures
        const_declaration(ts, st) == ({
    let s = st;
    let start = seen(ts, st.cur).span;
    let s = st.next();
    match ty(ts, s) {
        (s, Err(e)) => (s, Err(e)),
        (s, Ok(t)) => {
            match identifier(ts, s, "Expected constant name after type"@) {
                (s, Err(e)) => (s, Err(e)),
                (s, Ok(name)) => {
                    match expect(ts, s, TokenType::Eq, "Expected '=' after constant name"@) {
                        (s, Err(e)) => (s, Err(e)),
                        (s, Ok(_)) => {
                            if !lt(ts, st, s) {
                                stuck(s)
                            } else {
                                match expression(ts, s) {
                                    (s, Err(e)) => (s, Err(e)),
                                    (s, Ok(value)) => {
                                        match nested_update(value) {
                                            Some(e) => {
                                                (s, Err(e))
                                            },
                                            None => {
                                                (s, Ok(stmt(StmtShape::ConstDecl(name, t, value), combine(start, value.span))))
                                            },
                                        }
                                    },
                                }
                            }
                        },
                    }
                },
            }
        },
    }
    }),
{
    reveal(const_declaration);
    reveal(expression);
}

#[verifier::opaque]
pub open spec fn typed_declaration(ts: Seq<&Token>, st: State) -> Step<StmtTree> {
    typed_declaration_rec(ts, st)
}

pub open spec fn typed_declaration_rec(ts: Seq<&Token>, st: State) -> Step<StmtTree>
    decreases ts.len() - st.cur, 150int,
{
    let s = st;
    let start = seen(ts, st.cur).span;
    match ty(ts, st) {
        (s, Err(e)) => (s, Err(e)),
        (s, Ok(t)) => {
            match identifier(ts, s, "Expected variable name after type"@) {
                (s, Err(e)) => (s, Err(e)),
                (s, Ok(name)) => {
                    if !tok(ts, s.cur, TokenType::Eq) {
                        (s, Ok(stmt(StmtShape::UninitDecl(name, t), combine(start, before(ts, s.cur).span))))
                    } else {
                        let s = s.next();
                        if !lt(ts, st, s) {
                            stuck(s)
                        } else {
                            match expression_rec(ts, s) {
                                (s, Err(e)) => (s, Err(e)),
                                (s, Ok(value)) => {
                                    match nested_update(value) {
                                        Some(e) => {
                                            (s, Err(e))
                                        },
                                        None => {
                                            (s, Ok(stmt(StmtShape::TypedDecl(name, t, value), combine(start, value.span))))
                                        },
                                    }
                                },
                            }
                        }
                    }
                },
            }
        },
    }
}

pub proof fn typed_declaration_def(ts: Seq<&Token>, st: State)
    ensures
        typed_declaration(ts, st) == ({
    let s = st;
    let start = seen(ts, st.cur).span;
    match ty(ts, st) {
        (s, Err(e)) => (s, Err(e)),
        (s, Ok(t)) => {
            match identifier(ts, s, "Expected variable name after type"@) {
                (s, Err(e)) => (s, Err(e)),
                (s, Ok(name)) => {
                    if !tok(ts, s.cur, TokenType::Eq) {
                        (s, Ok(stmt(StmtShape::UninitDecl(name, t), combine(start, before(ts, s.cur).span))))
                    } else {
                        let s = s.next();
                        if !lt(ts, st, s) {
                            stuck(s)
                        } else {
                            match expression(ts, s) {
                                (s, Err(e)) => (s, Err(e)),
                                (s, Ok(value)) => {
                                    match nested_update(value) {
                                        Some(e) => {
                                            (s, Err(e))
                                        },
                                        None => {
                                            (s, Ok(stmt(StmtShape::TypedDecl(name, t, value), combine(start, value.span))))
                                        },
                                    }
                                },
                            }
                        }
                    }
                },
            }
        },
    }
    }),
{
    reveal(typed_declaration);
    reveal(expression);
}

#[verifier::opaque]
pub open spec fn class_declaration(ts: Seq<&Token>, st: State) -> Step<NodeTree> {
    class_declaration_rec(ts, st)
}

pub open spec fn class_declaration_rec(ts: Seq<&Token>, st: State) -> Step<NodeTree>
    decreases ts.len() - st.cur, 150int,
{
    let s = st;
    match expect(ts, st, TokenType::Class, "Expected 'class' keyword"@) {
        (s, Err(e)) => (s, Err(e)),
        (s, Ok(start)) => {
            match identifier(ts, s, "Expected class name"@) {
                (s, Err(e)) => (s, Err(e)),
                (s, Ok(name)) => {
                    match type_params(ts, s, Bounds::Class) {
                        (s, Err(e)) => (s, Err(e)),
                        (s, Ok(params)) => {
                            match trait_list(ts, s) {
                                (s, Err(e)) => (s, Err(e)),
                                (s, Ok(traits)) => {
                                    match expect(ts, s, TokenType::OpenBrace, "Expected '{' after class header"@) {
                                        (s, Err(e)) => (s, Err(e)),
                                        (s, Ok(_)) => {
                                            if !lt(ts, st, s) {
                                                stuck(s)
                                            } else {
                                                match class_body_rec(ts, s, params, seq![], seq![]) {
                                                    (s, Err(e)) => (s, Err(e)),
                                                    (s, Ok(b)) => {
                                                        match expect(ts, s, TokenType::CloseBrace, "Expected '}' after class body"@) {
                                                            (s, Err(e)) => (s, Err(e)),
                                                            (s, Ok(end)) => {
                                                                if !lt(ts, st, s) {
                                                                    stuck(s)
                                                                } else {
                                                                    match where_clause_rec(ts, s) {
                                                                        (s, Err(e)) => (s, Err(e)),
                                                                        (s, Ok(clause)) => {
                                                                            (s, Ok(NodeTree::Class { name, type_params: params, traits, fields: b.0, methods: b.1, where_clause: clause, span: match clause { Some(c) => combine(start, c.span), None => combine(start, end) } }))
                                                                        },
                                                                    }
                                                                }
                                                            },
                                                        }
                                                    },
                                                }
                                            }
                                        },
                                    }
                                },
                            }
                        },
                    }
                },
            }
        },
    }
}

pub proof fn class_declaration_def(ts: Seq<&Token>, st: State)
    ensures
        class_declaration(ts, st) == ({
    let s = st;
    match expect(ts, st, TokenType::Class, "Expected 'class' keyword"@) {
        (s, Err(e)) => (s, Err(e)),
        (s, Ok(start)) => {
            match identifier(ts, s, "Expected class name"@) {
                (s, Err(e)) => (s, Err(e)),
                (s, Ok(name)) => {
                    match type_params(ts, s, Bounds::Class) {
                        (s, Err(e)) => (s, Err(e)),
                        (s, Ok(params)) => {
                            match trait_list(ts, s) {
                                (s, Err(e)) => (s, Err(e)),
                                (s, Ok(traits)) => {
                                    match expect(ts, s, TokenType::OpenBrace, "Expected '{' after class header"@) {
                                        (s, Err(e)) => (s, Err(e)),
                                        (s, Ok(_)) => {
                                            if !lt(ts, st, s) {
                                                stuck(s)
                                            } else {
                                                match class_body(ts, s, params, seq![], seq![]) {
                                                    (s, Err(e)) => (s, Err(e)),
                                                    (s, Ok(b)) => {
                                                        match expect(ts, s, TokenType::CloseBrace, "Expected '}' after class body"@) {
                                                            (s, Err(e)) => (s, Err(e)),
                                                            (s, Ok(end)) => {
                                                                if !lt(ts, st, s) {
                                                                    stuck(s)
                                                                } else {
                                                                    match where_clause(ts, s) {
                                                                        (s, Err(e)) => (s, Err(e)),
                                                                        (s, Ok(clause)) => {
                                                                            (s, Ok(NodeTree::Class { name, type_params: params, traits, fields: b.0, methods: b.1, where_clause: clause, span: match clause { Some(c) => combine(start, c.span), None => combine(start, end) } }))
                                                                        },
                                                                    }
                                                                }
                                                            },
                                                        }
                                                    },
                                                }
                                            }
                                        },
                                    }
                                },
                            }
                        },
                    }
                },
            }
        },
    }
    }),
{
    reveal(class_declaration);
    reveal(class_body);
    reveal(where_clause);
}

#[verifier::opaque]
pub open spec fn class_body(ts: Seq<&Token>, st: State, params: Seq<TypeParamTree>, fields: Seq<FieldTree>, methods: Seq<FunctionTree>) -> Step<(Seq<FieldTree>, Seq<FunctionTree>)> {
    class_body_rec(ts, st, params, fields, methods)
}

pub open spec fn class_body_rec(ts: Seq<&Token>, st: State, params: Seq<TypeParamTree>, fields: Seq<FieldTree>, methods: Seq<FunctionTree>) -> Step<(Seq<FieldTree>, Seq<FunctionTree>)>
    decreases ts.len() - st.cur, 200int,
{
    let s = st;
    if tok(ts, st.cur, TokenType::CloseBrace) || st.cur >= ts.len() {
        (s, Ok((fields, methods)))
    } else {
        match class_member_rec(ts, st, params) {
            (s, Err(e)) => {
                let end = member_end(ts, st.cur, 0);
                let s = s.record(e).at(if end == st.cur { st.cur + 1 } else { end });
                if !lt(ts, st, s) {
                    stuck(s)
                } else {
                    class_body_rec(ts, s, params, fields, methods)
                }
            },
            (s, Ok(Member::Field(f))) => {
                if !lt(ts, st, s) {
                    stuck(s)
                } else {
                    class_body_rec(ts, s, params, fields.push(f), methods)
                }
            },
            (s, Ok(Member::Method(m))) => {
                if !lt(ts, st, s) {
                    stuck(s)
                } else {
                    class_body_rec(ts, s, params, fields, methods.push(m))
                }
            },
            (s, Ok(Member::Nothing)) => {
                if !lt(ts, st, s) {
                    stuck(s)
                } else {
                    class_body_rec(ts, s, params, fields, methods)
                }
            },
        }
    }
}

pub proof fn class_body_def(ts: Seq<&Token>, st: State, params: Seq<TypeParamTree>, fields: Seq<FieldTree>, methods: Seq<FunctionTree>)
    ensures
        class_body(ts, st, params, fields, methods) == ({
    let s = st;
    if tok(ts, st.cur, TokenType::CloseBrace) || st.cur >= ts.len() {
        (s, Ok((fields, methods)))
    } else {
        match class_member(ts, st, params) {
            (s, Err(e)) => {
                let end = member_end(ts, st.cur, 0);
                let s = s.record(e).at(if end == st.cur { st.cur + 1 } else { end });
                if !lt(ts, st, s) {
                    stuck(s)
                } else {
                    class_body(ts, s, params, fields, methods)
                }
            },
            (s, Ok(Member::Field(f))) => {
                if !lt(ts, st, s) {
                    stuck(s)
                } else {
                    class_body(ts, s, params, fields.push(f), methods)
                }
            },
            (s, Ok(Member::Method(m))) => {
                if !lt(ts, st, s) {
                    stuck(s)
                } else {
                    class_body(ts, s, params, fields, methods.push(m))
                }
            },
            (s, Ok(Member::Nothing)) => {
                if !lt(ts, st, s) {
                    stuck(s)
                } else {
                    class_body(ts, s, params, fields, methods)
                }
            },
        }
    }
    }),
{
    reveal(class_body);
    reveal(class_member);
}

#[verifier::opaque]
pub open spec fn class_member(ts: Seq<&Token>, st: State, params: Seq<TypeParamTree>) -> Step<Member> {
    class_member_rec(ts, st, params)
}

pub open spec fn class_member_rec(ts: Seq<&Token>, st: State, params: Seq<TypeParamTree>) -> Step<Member>
    decreases ts.len() - st.cur, 155int,
{
    let s = st;
    match seen(ts, st.cur).token_type {
        TokenType::Func => {
            match function_declaration_rec(ts, st, false) {
                (s, Err(e)) => (s, Err(e)),
                (s, Ok(f)) => {
                    class_method(ts, s, st.cur + 1, f)
                },
            }
        },
        TokenType::Common => {
            let s = st.next();
            if !lt(ts, st, s) {
                stuck(s)
            } else {
                match function_declaration_rec(ts, s, true) {
                    (s, Err(e)) => (s, Err(e)),
                    (s, Ok(f)) => {
                        class_method(ts, s, st.cur + 2, f)
                    },
                }
            }
        },
        TokenType::Id(_) | TokenType::Const => {
            match field_declaration_rec(ts, st, params) {
                (s, Err(e)) => (s, Err(e)),
                (s, Ok(f)) => {
                    (s, Ok(Member::Field(f)))
                },
            }
        },
        TokenType::NewLine => {
            match expect(ts, st, TokenType::NewLine, "Expected newline"@) {
                (s, Err(e)) => (s, Err(e)),
                (s, Ok(_)) => {
                    (s, Ok(Member::Nothing))
                },
            }
        },
        _ => {
            (s, Err(fault_help(DiagnosticCode::ParseExpectedToken, "Expected field or method declaration in class body, found "@ + describe(seen(ts, st.cur).token_type), seen(ts, st.cur).span, "Class bodies can only contain field declarations (e.g., 'int x = 0') and method declarations (e.g., 'func foo() returns void { ... }')"@)))
        },
    }
}

pub proof fn class_member_def(ts: Seq<&Token>, st: State, params: Seq<TypeParamTree>)
    ensures
        class_member(ts, st, params) == ({
    let s = st;
    match seen(ts, st.cur).token_type {
        TokenType::Func => {
            match function_declaration(ts, st, false) {
                (s, Err(e)) => (s, Err(e)),
                (s, Ok(f)) => {
                    class_method(ts, s, st.cur + 1, f)
                },
            }
        },
        TokenType::Common => {
            let s = st.next();
            if !lt(ts, st, s) {
                stuck(s)
            } else {
                match function_declaration(ts, s, true) {
                    (s, Err(e)) => (s, Err(e)),
                    (s, Ok(f)) => {
                        class_method(ts, s, st.cur + 2, f)
                    },
                }
            }
        },
        TokenType::Id(_) | TokenType::Const => {
            match field_declaration(ts, st, params) {
                (s, Err(e)) => (s, Err(e)),
                (s, Ok(f)) => {
                    (s, Ok(Member::Field(f)))
                },
            }
        },
        TokenType::NewLine => {
            match expect(ts, st, TokenType::NewLine, "Expected newline"@) {
                (s, Err(e)) => (s, Err(e)),
                (s, Ok(_)) => {
                    (s, Ok(Member::Nothing))
                },
            }
        },
        _ => {
            (s, Err(fault_help(DiagnosticCode::ParseExpectedToken, "Expected field or method declaration in class body, found "@ + describe(seen(ts, st.cur).token_type), seen(ts, st.cur).span, "Class bodies can only contain field declarations (e.g., 'int x = 0') and method declarations (e.g., 'func foo() returns void { ... }')"@)))
        },
    }
    }),
{
    reveal(class_member);
    reveal(field_declaration);
    reveal(function_declaration);
}

#[verifier::opaque]
pub open spec fn field_declaration(ts: Seq<&Token>, st: State, params: Seq<TypeParamTree>) -> Step<FieldTree> {
    field_declaration_rec(ts, st, params)
}

pub open spec fn field_declaration_rec(ts: Seq<&Token>, st: State, params: Seq<TypeParamTree>) -> Step<FieldTree>
    decreases ts.len() - st.cur, 100int,
{
    let s = st;
    let is_const = tok(ts, st.cur, TokenType::Const);
    let s = if is_const { st.next() } else { st };
    match ty(ts, s) {
        (s, Err(e)) => (s, Err(e)),
        (s, Ok(t)) => {
            match identifier(ts, s, "Expected field name"@) {
                (s, Err(e)) => (s, Err(e)),
                (s, Ok(name)) => {
                    if !lt(ts, st, s) {
                        stuck(s)
                    } else {
                        match field_default_rec(ts, s) {
                            (s, Err(e)) => (s, Err(e)),
                            (s, Ok(default_value)) => {
                                if is_const && default_value is None {
                                    (s, Err(fault_help(DiagnosticCode::ParseExpectedToken, "Const fields must have a default value"@, before(ts, s.cur).span, "Add a default value to the const field. Example: const int MAX_SIZE = 100"@)))
                                } else {
                                    if !lt(ts, st, s) {
                                        stuck(s)
                                    } else {
                                        match same_line_where_rec(ts, s) {
                                            (s, Err(e)) => (s, Err(e)),
                                            (s, Ok(clause)) => {
                                                (s, Ok(FieldTree { name, type_: t, is_generic_param: is_type_parameter(t, params), is_const, default_value, where_clause: clause }))
                                            },
                                        }
                                    }
                                }
                            },
                        }
                    }
                },
            }
        },
    }
}

pub proof fn field_declaration_def(ts: Seq<&Token>, st: State, params: Seq<TypeParamTree>)
    ensures
        field_declaration(ts, st, params) == ({
    let s = st;
    let is_const = tok(ts, st.cur, TokenType::Const);
    let s = if is_const { st.next() } else { st };
    match ty(ts, s) {
        (s, Err(e)) => (s, Err(e)),
        (s, Ok(t)) => {
            match identifier(ts, s, "Expected field name"@) {
                (s, Err(e)) => (s, Err(e)),
                (s, Ok(name)) => {
                    if !lt(ts, st, s) {
                        stuck(s)
                    } else {
                        match field_default(ts, s) {
                            (s, Err(e)) => (s, Err(e)),
                            (s, Ok(default_value)) => {
                                if is_const && default_value is None {
                                    (s, Err(fault_help(DiagnosticCode::ParseExpectedToken, "Const fields must have a default value"@, before(ts, s.cur).span, "Add a default value to the const field. Example: const int MAX_SIZE = 100"@)))
                                } else {
                                    if !lt(ts, st, s) {
                                        stuck(s)
                                    } else {
                                        match same_line_where(ts, s) {
                                            (s, Err(e)) => (s, Err(e)),
                                            (s, Ok(clause)) => {
                                                (s, Ok(FieldTree { name, type_: t, is_generic_param: is_type_parameter(t, params), is_const, default_value, where_clause: clause }))
                                            },
                                        }
                                    }
                                }
                            },
                        }
                    }
                },
            }
        },
    }
    }),
{
    reveal(field_declaration);
    reveal(field_default);
    reveal(same_line_where);
}

#[verifier::opaque]
pub open spec fn field_default(ts: Seq<&Token>, st: State) -> Step<Option<ExprTree>> {
    field_default_rec(ts, st)
}

pub open spec fn field_default_rec(ts: Seq<&Token>, st: State) -> Step<Option<ExprTree>>
    decreases ts.len() - st.cur, 90int,
{
    let s = st;
    if tok(ts, st.cur, TokenType::Eq) {
        let s = st.next();
        if !lt(ts, st, s) {
            stuck(s)
        } else {
            match expression_rec(ts, s) {
                (s, Err(e)) => (s, Err(e)),
                (s, Ok(e)) => {
                    (s, Ok(Some(e)))
                },
            }
        }
    } else {
        (s, Ok(None))
    }
}

pub proof fn field_default_def(ts: Seq<&Token>, st: State)
    ensures
        field_default(ts, st) == ({
    let s = st;
    if tok(ts, st.cur, TokenType::Eq) {
        let s = st.next();
        if !lt(ts, st, s) {
            stuck(s)
        } else {
            match expression(ts, s) {
                (s, Err(e)) => (s, Err(e)),
                (s, Ok(e)) => {
                    (s, Ok(Some(e)))
                },
            }
        }
    } else {
        (s, Ok(None))
    }
    }),
{
    reveal(field_default);
    reveal(expression);
}

#[verifier::opaque]
pub open spec fn same_line_where(ts: Seq<&Token>, st: State) -> Step<Option<WhereClauseTree>> {
    same_line_where_rec(ts, st)
}

pub open spec fn same_line_where_rec(ts: Seq<&Token>, st: State) -> Step<Option<WhereClauseTree>>
    decreases ts.len() - st.cur, 90int,
{
    let s = st;
    if tok(ts, st.cur, TokenType::Where) {
        where_clause_rec(ts, st)
    } else {
        (s, Ok(None))
    }
}

pub proof fn same_line_where_def(ts: Seq<&Token>, st: State)
    ensures
        same_line_where(ts, st) == ({
    let s = st;
    if tok(ts, st.cur, TokenType::Where) {
        where_clause(ts, st)
    } else {
        (s, Ok(None))
    }
    }),
{
    reveal(same_line_where);
    reveal(where_clause);
}

#[verifier::opaque]
pub open spec fn interface_declaration(ts: Seq<&Token>, st: State) -> Step<NodeTree> {
    interface_declaration_rec(ts, st)
}

pub open spec fn interface_declaration_rec(ts: Seq<&Token>, st: State) -> Step<NodeTree>
    decreases ts.len() - st.cur, 150int,
{
    let s = st;
    match expect(ts, st, TokenType::Interface, "Expected 'interface' keyword"@) {
        (s, Err(e)) => (s, Err(e)),
        (s, Ok(start)) => {
            match identifier(ts, s, "Expected interface name"@) {
                (s, Err(e)) => (s, Err(e)),
                (s, Ok(name)) => {
                    match type_params(ts, s, Bounds::Colon) {
                        (s, Err(e)) => (s, Err(e)),
                        (s, Ok(params)) => {
                            match expect(ts, s, TokenType::OpenBrace, "Expected '{' after interface header"@) {
                                (s, Err(e)) => (s, Err(e)),
                                (s, Ok(_)) => {
                                    if !lt(ts, st, s) {
                                        stuck(s)
                                    } else {
                                        match interface_body_rec(ts, s, params, start, seq![], seq![]) {
                                            (s, Err(e)) => (s, Err(e)),
                                            (s, Ok(b)) => {
                                                match expect(ts, s, TokenType::CloseBrace, "Expected '}' after interface body"@) {
                                                    (s, Err(e)) => (s, Err(e)),
                                                    (s, Ok(end)) => {
                                                        (s, Ok(NodeTree::Interface { name, type_params: params, fields: b.0, methods: b.1, span: combine(start, end) }))
                                                    },
                                                }
                                            },
                                        }
                                    }
                                },
                            }
                        },
                    }
                },
            }
        },
    }
}

pub proof fn interface_declaration_def(ts: Seq<&Token>, st: State)
    ensures
        interface_declaration(ts, st) == ({
    let s = st;
    match expect(ts, st, TokenType::Interface, "Expected 'interface' keyword"@) {
        (s, Err(e)) => (s, Err(e)),
        (s, Ok(start)) => {
            match identifier(ts, s, "Expected interface name"@) {
                (s, Err(e)) => (s, Err(e)),
                (s, Ok(name)) => {
                    match type_params(ts, s, Bounds::Colon) {
                        (s, Err(e)) => (s, Err(e)),
                        (s, Ok(params)) => {
                            match expect(ts, s, TokenType::OpenBrace, "Expected '{' after interface header"@) {
                                (s, Err(e)) => (s, Err(e)),
                                (s, Ok(_)) => {
                                    if !lt(ts, st, s) {
                                        stuck(s)
                                    } else {
                                        match interface_body(ts, s, params, start, seq![], seq![]) {
                                            (s, Err(e)) => (s, Err(e)),
                                            (s, Ok(b)) => {
                                                match expect(ts, s, TokenType::CloseBrace, "Expected '}' after interface body"@) {
                                                    (s, Err(e)) => (s, Err(e)),
                                                    (s, Ok(end)) => {
                                                        (s, Ok(NodeTree::Interface { name, type_params: params, fields: b.0, methods: b.1, span: combine(start, end) }))
                                                    },
                                                }
                                            },
                                        }
                                    }
                                },
                            }
                        },
                    }
                },
            }
        },
    }
    }),
{
    reveal(interface_declaration);
    reveal(interface_body);
}

#[verifier::opaque]
pub open spec fn interface_body(ts: Seq<&Token>, st: State, params: Seq<TypeParamTree>, start: Span, fields: Seq<FieldTree>, methods: Seq<FunctionTree>) -> Step<(Seq<FieldTree>, Seq<FunctionTree>)> {
    interface_body_rec(ts, st, params, start, fields, methods)
}

pub open spec fn interface_body_rec(ts: Seq<&Token>, st: State, params: Seq<TypeParamTree>, start: Span, fields: Seq<FieldTree>, methods: Seq<FunctionTree>) -> Step<(Seq<FieldTree>, Seq<FunctionTree>)>
    decreases ts.len() - st.cur, 200int,
{
    let s = st;
    if st.cur >= ts.len() {
        (s, Ok((fields, methods)))
    } else {
        let s = skip_nl(ts, st);
        if tok(ts, s.cur, TokenType::CloseBrace) {
            (s, Ok((fields, methods)))
        } else {
            if s.cur >= ts.len() {
                (s, Err(missing(ts, s.cur, "Expected newline"@)))
            } else {
                if !le(ts, st, s) {
                    stuck(s)
                } else {
                    match interface_member_rec(ts, s, params, start) {
                        (s, Err(e)) => (s, Err(e)),
                        (s, Ok(m)) => {
                            match m {
                                Member::Field(f) => {
                                    if !lt(ts, st, s) {
                                        stuck(s)
                                    } else {
                                        interface_body_rec(ts, s, params, start, fields.push(f), methods)
                                    }
                                },
                                Member::Method(f) => {
                                    if !lt(ts, st, s) {
                                        stuck(s)
                                    } else {
                                        interface_body_rec(ts, s, params, start, fields, methods.push(f))
                                    }
                                },
                                Member::Nothing => {
                                    if !lt(ts, st, s) {
                                        stuck(s)
                                    } else {
                                        interface_body_rec(ts, s, params, start, fields, methods)
                                    }
                                },
                            }
                        },
                    }
                }
            }
        }
    }
}

pub proof fn interface_body_def(ts: Seq<&Token>, st: State, params: Seq<TypeParamTree>, start: Span, fields: Seq<FieldTree>, methods: Seq<FunctionTree>)
    ensures
        interface_body(ts, st, params, start, fields, methods) == ({
    let s = st;
    if st.cur >= ts.len() {
        (s, Ok((fields, methods)))
    } else {
        let s = skip_nl(ts, st);
        if tok(ts, s.cur, TokenType::CloseBrace) {
            (s, Ok((fields, methods)))
        } else {
            if s.cur >= ts.len() {
                (s, Err(missing(ts, s.cur, "Expected newline"@)))
            } else {
                if !le(ts, st, s) {
                    stuck(s)
                } else {
                    match interface_member(ts, s, params, start) {
                        (s, Err(e)) => (s, Err(e)),
                        (s, Ok(m)) => {
                            match m {
                                Member::Field(f) => {
                                    if !lt(ts, st, s) {
                                        stuck(s)
                                    } else {
                                        interface_body(ts, s, params, start, fields.push(f), methods)
                                    }
                                },
                                Member::Method(f) => {
                                    if !lt(ts, st, s) {
                                        stuck(s)
                                    } else {
                                        interface_body(ts, s, params, start, fields, methods.push(f))
                                    }
                                },
                                Member::Nothing => {
                                    if !lt(ts, st, s) {
                                        stuck(s)
                                    } else {
                                        interface_body(ts, s, params, start, fields, methods)
                                    }
                                },
                            }
                        },
                    }
                }
            }
        }
    }
    }),
{
    reveal(interface_body);
    reveal(interface_member);
}

#[verifier::opaque]
pub open spec fn interface_member(ts: Seq<&Token>, st: State, params: Seq<TypeParamTree>, start: Span) -> Step<Member> {
    interface_member_rec(ts, st, params, start)
}

pub open spec fn interface_member_rec(ts: Seq<&Token>, st: State, params: Seq<TypeParamTree>, start: Span) -> Step<Member>
    decreases ts.len() - st.cur, 155int,
{
    let s = st;
    match seen(ts, st.cur).token_type {
        TokenType::Func => {
            match interface_method_rec(ts, st, start) {
                (s, Err(e)) => (s, Err(e)),
                (s, Ok(f)) => {
                    (s, Ok(Member::Method(f)))
                },
            }
        },
        TokenType::Id(_) | TokenType::Const => {
            match field_declaration_rec(ts, st, params) {
                (s, Err(e)) => (s, Err(e)),
                (s, Ok(f)) => {
                    (s, Ok(Member::Field(f)))
                },
            }
        },
        TokenType::NewLine => {
            match expect(ts, st, TokenType::NewLine, "Expected newline"@) {
                (s, Err(e)) => (s, Err(e)),
                (s, Ok(_)) => {
                    (s, Ok(Member::Nothing))
                },
            }
        },
        _ => {
            (s, Err(fault(DiagnosticCode::ParseExpectedToken, "Expected field or function declaration in interface"@, seen(ts, st.cur).span)))
        },
    }
}

pub proof fn interface_member_def(ts: Seq<&Token>, st: State, params: Seq<TypeParamTree>, start: Span)
    ensures
        interface_member(ts, st, params, start) == ({
    let s = st;
    match seen(ts, st.cur).token_type {
        TokenType::Func => {
            match interface_method(ts, st, start) {
                (s, Err(e)) => (s, Err(e)),
                (s, Ok(f)) => {
                    (s, Ok(Member::Method(f)))
                },
            }
        },
        TokenType::Id(_) | TokenType::Const => {
            match field_declaration(ts, st, params) {
                (s, Err(e)) => (s, Err(e)),
                (s, Ok(f)) => {
                    (s, Ok(Member::Field(f)))
                },
            }
        },
        TokenType::NewLine => {
            match expect(ts, st, TokenType::NewLine, "Expected newline"@) {
                (s, Err(e)) => (s, Err(e)),
                (s, Ok(_)) => {
                    (s, Ok(Member::Nothing))
                },
            }
        },
        _ => {
            (s, Err(fault(DiagnosticCode::ParseExpectedToken, "Expected field or function declaration in interface"@, seen(ts, st.cur).span)))
        },
    }
    }),
{
    reveal(interface_member);
    reveal(field_declaration);
    reveal(interface_method);
}

#[verifier::opaque]
pub open spec fn interface_method(ts: Seq<&Token>, st: State, start: Span) -> Step<FunctionTree> {
    interface_method_rec(ts, st, start)
}

pub open spec fn interface_method_rec(ts: Seq<&Token>, st: State, start: Span) -> Step<FunctionTree>
    decreases ts.len() - st.cur, 100int,
{
    let s = st;
    let s = st.next();
    match identifier(ts, s, "Expected method name"@) {
        (s, Err(e)) => (s, Err(e)),
        (s, Ok(name)) => {
            match type_params(ts, s, Bounds::Bare) {
                (s, Err(e)) => (s, Err(e)),
                (s, Ok(params)) => {
                    match expect(ts, s, TokenType::OpenParen, "Expected '(' after method name"@) {
                        (s, Err(e)) => (s, Err(e)),
                        (s, Ok(_)) => {
                            match param_list(ts, s) {
                                (s, Err(e)) => (s, Err(e)),
                                (s, Ok(ps)) => {
                                    match expect(ts, s, TokenType::CloseParen, "Expected ')' after parameters"@) {
                                        (s, Err(e)) => (s, Err(e)),
                                        (s, Ok(_)) => {
                                            if !lt(ts, st, s) {
                                                stuck(s)
                                            } else {
                                                match where_clause_rec(ts, s) {
                                                    (s, Err(e)) => (s, Err(e)),
                                                    (s, Ok(clause)) => {
                                                        let s = if clause is Some && tok(ts, nl_end(ts, s.cur), TokenType::Returns) { skip_nl(ts, s) } else { s };
                                                        match optional_return_type(ts, s) {
                                                            (s, Err(e)) => (s, Err(e)),
                                                            (s, Ok(ret_type)) => {
                                                                (s, Ok(FunctionTree { name, type_params: params, params: ps, return_type: ret_type, body: seq![], span: start, is_common: false, where_clause: clause }))
                                                            },
                                                        }
                                                    },
                                                }
                                            }
                                        },
                                    }
                                },
                            }
                        },
                    }
                },
            }
        },
    }
}

pub proof fn interface_method_def(ts: Seq<&Token>, st: State, start: Span)
    ensures
        interface_method(ts, st, start) == ({
    let s = st;
    let s = st.next();
    match identifier(ts, s, "Expected method name"@) {
        (s, Err(e)) => (s, Err(e)),
        (s, Ok(name)) => {
            match type_params(ts, s, Bounds::Bare) {
                (s, Err(e)) => (s, Err(e)),
                (s, Ok(params)) => {
                    match expect(ts, s, TokenType::OpenParen, "Expected '(' after method name"@) {
                        (s, Err(e)) => (s, Err(e)),
                        (s, Ok(_)) => {
                            match param_list(ts, s) {
                                (s, Err(e)) => (s, Err(e)),
                                (s, Ok(ps)) => {
                                    match expect(ts, s, TokenType::CloseParen, "Expected ')' after parameters"@) {
                                        (s, Err(e)) => (s, Err(e)),
                                        (s, Ok(_)) => {
                                            if !lt(ts, st, s) {
                                                stuck(s)
                                            } else {
                                                match where_clause(ts, s) {
                                                    (s, Err(e)) => (s, Err(e)),
                                                    (s, Ok(clause)) => {
                                                        let s = if clause is Some && tok(ts, nl_end(ts, s.cur), TokenType::Returns) { skip_nl(ts, s) } else { s };
                                                        match optional_return_type(ts, s) {
                                                            (s, Err(e)) => (s, Err(e)),
                                                            (s, Ok(ret_type)) => {
                                                                (s, Ok(FunctionTree { name, type_params: params, params: ps, return_type: ret_type, body: seq![], span: start, is_common: false, where_clause: clause }))
                                                            },
                                                        }
                                                    },
                                                }
                                            }
                                        },
                                    }
                                },
                            }
                        },
                    }
                },
            }
        },
    }
    }),
{
    reveal(interface_method);
    reveal(where_clause);
}

pub open spec fn optional_return_type(ts: Seq<&Token>, st: State) -> Step<TypeTree>
{
    let s = st;
    if tok(ts, st.cur, TokenType::Minus) || tok(ts, st.cur, TokenType::Gt) || tok(ts, st.cur, TokenType::Returns) {
        ty(ts, st.next())
    } else {
        (s, Ok(TypeTree { kind: TypeShape::Primitive(PrimitiveType::Void), span: seen(ts, st.cur).span }))
    }
}

pub open spec fn param_list(ts: Seq<&Token>, st: State) -> Step<Seq<ParamTree>>
{
    let s = st;
    if tok(ts, st.cur, TokenType::CloseParen) {
        (s, Ok(seq![]))
    } else {
        param_list_from(ts, st, seq![])
    }
}

pub open spec fn param_list_from(ts: Seq<&Token>, st: State, acc: Seq<ParamTree>) -> Step<Seq<ParamTree>>
    decreases ts.len() - st.cur, 0int,
{
    let s = st;
    match ty(ts, st) {
        (s, Err(e)) => (s, Err(e)),
        (s, Ok(t)) => {
            match identifier(ts, s, "Expected parameter name"@) {
                (s, Err(e)) => (s, Err(e)),
                (s, Ok(name)) => {
                    let more = acc.push(ParamTree { name, type_: t, default_value: None });
                    if tok(ts, s.cur, TokenType::Comma) {
                        let s = s.next();
                        if !lt(ts, st, s) {
                            stuck(s)
                        } else {
                            param_list_from(ts, s, more)
                        }
                    } else {
                        (s, Ok(more))
                    }
                },
            }
        },
    }
}

#[verifier::opaque]
pub open spec fn enum_declaration(ts: Seq<&Token>, st: State) -> Step<NodeTree> {
    enum_declaration_rec(ts, st)
}

pub open spec fn enum_declaration_rec(ts: Seq<&Token>, st: State) -> Step<NodeTree>
    decreases ts.len() - st.cur, 150int,
{
    let s = st;
    match expect(ts, st, TokenType::Enum, "Expected 'enum' keyword"@) {
        (s, Err(e)) => (s, Err(e)),
        (s, Ok(start)) => {
            match identifier(ts, s, "Expected enum name"@) {
                (s, Err(e)) => (s, Err(e)),
                (s, Ok(name)) => {
                    match type_params(ts, s, Bounds::Colon) {
                        (s, Err(e)) => (s, Err(e)),
                        (s, Ok(params)) => {
                            match expect(ts, s, TokenType::OpenBrace, "Expected '{' after enum header"@) {
                                (s, Err(e)) => (s, Err(e)),
                                (s, Ok(_)) => {
                                    let s = skip_nl(ts, s);
                                    if !lt(ts, st, s) {
                                        stuck(s)
                                    } else {
                                        match enum_variants_rec(ts, s, seq![]) {
                                            (s, Err(e)) => (s, Err(e)),
                                            (s, Ok(variants)) => {
                                                match expect(ts, s, TokenType::CloseBrace, "Expected '}' after enum variants"@) {
                                                    (s, Err(e)) => (s, Err(e)),
                                                    (s, Ok(end)) => {
                                                        (s, Ok(NodeTree::Enum { name, type_params: params, variants, span: combine(start, end) }))
                                                    },
                                                }
                                            },
                                        }
                                    }
                                },
                            }
                        },
                    }
                },
            }
        },
    }
}

pub proof fn enum_declaration_def(ts: Seq<&Token>, st: State)
    ensures
        enum_declaration(ts, st) == ({
    let s = st;
    match expect(ts, st, TokenType::Enum, "Expected 'enum' keyword"@) {
        (s, Err(e)) => (s, Err(e)),
        (s, Ok(start)) => {
            match identifier(ts, s, "Expected enum name"@) {
                (s, Err(e)) => (s, Err(e)),
                (s, Ok(name)) => {
                    match type_params(ts, s, Bounds::Colon) {
                        (s, Err(e)) => (s, Err(e)),
                        (s, Ok(params)) => {
                            match expect(ts, s, TokenType::OpenBrace, "Expected '{' after enum header"@) {
                                (s, Err(e)) => (s, Err(e)),
                                (s, Ok(_)) => {
                                    let s = skip_nl(ts, s);
                                    if !lt(ts, st, s) {
                                        stuck(s)
                                    } else {
                                        match enum_variants(ts, s, seq![]) {
                                            (s, Err(e)) => (s, Err(e)),
                                            (s, Ok(variants)) => {
                                                match expect(ts, s, TokenType::CloseBrace, "Expected '}' after enum variants"@) {
                                                    (s, Err(e)) => (s, Err(e)),
                                                    (s, Ok(end)) => {
                                                        (s, Ok(NodeTree::Enum { name, type_params: params, variants, span: combine(start, end) }))
                                                    },
                                                }
                                            },
                                        }
                                    }
                                },
                            }
                        },
                    }
                },
            }
        },
    }
    }),
{
    reveal(enum_declaration);
    reveal(enum_variants);
}

#[verifier::opaque]
pub open spec fn enum_variants(ts: Seq<&Token>, st: State, acc: Seq<EnumVariantTree>) -> Step<Seq<EnumVariantTree>> {
    enum_variants_rec(ts, st, acc)
}

pub open spec fn enum_variants_rec(ts: Seq<&Token>, st: State, acc: Seq<EnumVariantTree>) -> Step<Seq<EnumVariantTree>>
    decreases ts.len() - st.cur, 110int,
{
    let s = st;
    if tok(ts, st.cur, TokenType::CloseBrace) || st.cur >= ts.len() {
        (s, Ok(acc))
    } else {
        match enum_variant_rec(ts, st) {
            (s, Err(e)) => (s, Err(e)),
            (s, Ok(v)) => {
                if !tok(ts, s.cur, TokenType::Comma) {
                    let s = skip_nl(ts, s);
                    (s, Ok(acc.push(v)))
                } else {
                    let s = skip_nl(ts, s.next());
                    if !lt(ts, st, s) {
                        stuck(s)
                    } else {
                        enum_variants_rec(ts, s, acc.push(v))
                    }
                }
            },
        }
    }
}

pub proof fn enum_variants_def(ts: Seq<&Token>, st: State, acc: Seq<EnumVariantTree>)
    ensures
        enum_variants(ts, st, acc) == ({
    let s = st;
    if tok(ts, st.cur, TokenType::CloseBrace) || st.cur >= ts.len() {
        (s, Ok(acc))
    } else {
        match enum_variant(ts, st) {
            (s, Err(e)) => (s, Err(e)),
            (s, Ok(v)) => {
                if !tok(ts, s.cur, TokenType::Comma) {
                    let s = skip_nl(ts, s);
                    (s, Ok(acc.push(v)))
                } else {
                    let s = skip_nl(ts, s.next());
                    if !lt(ts, st, s) {
                        stuck(s)
                    } else {
                        enum_variants(ts, s, acc.push(v))
                    }
                }
            },
        }
    }
    }),
{
    reveal(enum_variants);
    reveal(enum_variant);
}

#[verifier::opaque]
pub open spec fn enum_variant(ts: Seq<&Token>, st: State) -> Step<EnumVariantTree> {
    enum_variant_rec(ts, st)
}

pub open spec fn enum_variant_rec(ts: Seq<&Token>, st: State) -> Step<EnumVariantTree>
    decreases ts.len() - st.cur, 100int,
{
    let s = st;
    match identifier(ts, st, "Expected variant name"@) {
        (s, Err(e)) => (s, Err(e)),
        (s, Ok(name)) => {
            match variant_data(ts, s) {
                (s, Err(e)) => (s, Err(e)),
                (s, Ok(data)) => {
                    if !lt(ts, st, s) {
                        stuck(s)
                    } else {
                        match same_line_where_rec(ts, s) {
                            (s, Err(e)) => (s, Err(e)),
                            (s, Ok(clause)) => {
                                (s, Ok(EnumVariantTree { name, data, where_clause: clause }))
                            },
                        }
                    }
                },
            }
        },
    }
}

pub proof fn enum_variant_def(ts: Seq<&Token>, st: State)
    ensures
        enum_variant(ts, st) == ({
    let s = st;
    match identifier(ts, st, "Expected variant name"@) {
        (s, Err(e)) => (s, Err(e)),
        (s, Ok(name)) => {
            match variant_data(ts, s) {
                (s, Err(e)) => (s, Err(e)),
                (s, Ok(data)) => {
                    if !lt(ts, st, s) {
                        stuck(s)
                    } else {
                        match same_line_where(ts, s) {
                            (s, Err(e)) => (s, Err(e)),
                            (s, Ok(clause)) => {
                                (s, Ok(EnumVariantTree { name, data, where_clause: clause }))
                            },
                        }
                    }
                },
            }
        },
    }
    }),
{
    reveal(enum_variant);
    reveal(same_line_where);
}

pub open spec fn variant_data(ts: Seq<&Token>, st: State) -> Step<Option<Seq<EnumVariantFieldTree>>>
{
    let s = st;
    if !tok(ts, st.cur, TokenType::OpenParen) {
        (s, Ok(None))
    } else {
        let s = st.next();
        if tok(ts, s.cur, TokenType::CloseParen) {
            (s.next(), Ok(Some(seq![])))
        } else {
            match variant_fields_from(ts, s, seq![]) {
                (s, Err(e)) => (s, Err(e)),
                (s, Ok(fields)) => {
                    match expect(ts, s, TokenType::CloseParen, "Expected ')' after variant data"@) {
                        (s, Err(e)) => (s, Err(e)),
                        (s, Ok(_)) => {
                            (s, Ok(Some(fields)))
                        },
                    }
                },
            }
        }
    }
}

pub open spec fn variant_fields_from(ts: Seq<&Token>, st: State, acc: Seq<EnumVariantFieldTree>) -> Step<Seq<EnumVariantFieldTree>>
    decreases ts.len() - st.cur, 0int,
{
    let s = st;
    match ty(ts, st) {
        (s, Err(e)) => (s, Err(e)),
        (s, Ok(t)) => {
            let named = is_id(ts, s.cur);
            let name = if named { Some(ts[s.cur].token_type->Id_0@) } else { None };
            let s = if named { s.next() } else { s };
            let more = acc.push(EnumVariantFieldTree { name, type_: t });
            if tok(ts, s.cur, TokenType::Comma) {
                let s = s.next();
                if !lt(ts, st, s) {
                    stuck(s)
                } else {
                    variant_fields_from(ts, s, more)
                }
            } else {
                (s, Ok(more))
            }
        },
    }
}

#[verifier::opaque]
pub open spec fn function_declaration(ts: Seq<&Token>, st: State, is_common: bool) -> Step<FunctionTree> {
    function_declaration_rec(ts, st, is_common)
}

pub open spec fn function_declaration_rec(ts: Seq<&Token>, st: State, is_common: bool) -> Step<FunctionTree>
    decreases ts.len() - st.cur, 150int,
{
    let s = st;
    match expect(ts, st, TokenType::Func, "Expected 'func' keyword"@) {
        (s, Err(e)) => (s, Err(e)),
        (s, Ok(start)) => {
            match identifier(ts, s, "Expected function name"@) {
                (s, Err(e)) => (s, Err(e)),
                (s, Ok(name)) => {
                    match type_params(ts, s, Bounds::Function) {
                        (s, Err(e)) => (s, Err(e)),
                        (s, Ok(params)) => {
                            match expect(ts, s, TokenType::OpenParen, "Expected '(' after function name"@) {
                                (s, Err(e)) => (s, Err(e)),
                                (s, Ok(_)) => {
                                    if !lt(ts, st, s) {
                                        stuck(s)
                                    } else {
                                        match function_params_rec(ts, s) {
                                            (s, Err(e)) => (s, Err(e)),
                                            (s, Ok(ps)) => {
                                                match expect(ts, s, TokenType::CloseParen, "Expected ')' after parameters"@) {
                                                    (s, Err(e)) => (s, Err(e)),
                                                    (s, Ok(_)) => {
                                                        if !lt(ts, st, s) {
                                                            stuck(s)
                                                        } else {
                                                            match where_clause_rec(ts, s) {
                                                                (s, Err(e)) => (s, Err(e)),
                                                                (s, Ok(clause)) => {
                                                                    let s = if clause is Some { skip_nl(ts, s) } else { s };
                                                                    match required_return_type(ts, s) {
                                                                        (s, Err(e)) => (s, Err(e)),
                                                                        (s, Ok(return_type)) => {
                                                                            let s = skip_nl(ts, s);
                                                                            if !lt(ts, st, s) {
                                                                                stuck(s)
                                                                            } else {
                                                                                match block_rec(ts, s) {
                                                                                    (s, Err(e)) => (s, Err(e)),
                                                                                    (s, Ok(b)) => {
                                                                                        (s, Ok(FunctionTree { name, type_params: params, params: ps, return_type, body: b.0, span: combine(start, last_span(b.0, start)), is_common, where_clause: clause }))
                                                                                    },
                                                                                }
                                                                            }
                                                                        },
                                                                    }
                                                                },
                                                            }
                                                        }
                                                    },
                                                }
                                            },
                                        }
                                    }
                                },
                            }
                        },
                    }
                },
            }
        },
    }
}

pub proof fn function_declaration_def(ts: Seq<&Token>, st: State, is_common: bool)
    ensures
        function_declaration(ts, st, is_common) == ({
    let s = st;
    match expect(ts, st, TokenType::Func, "Expected 'func' keyword"@) {
        (s, Err(e)) => (s, Err(e)),
        (s, Ok(start)) => {
            match identifier(ts, s, "Expected function name"@) {
                (s, Err(e)) => (s, Err(e)),
                (s, Ok(name)) => {
                    match type_params(ts, s, Bounds::Function) {
                        (s, Err(e)) => (s, Err(e)),
                        (s, Ok(params)) => {
                            match expect(ts, s, TokenType::OpenParen, "Expected '(' after function name"@) {
                                (s, Err(e)) => (s, Err(e)),
                                (s, Ok(_)) => {
                                    if !lt(ts, st, s) {
                                        stuck(s)
                                    } else {
                                        match function_params(ts, s) {
                                            (s, Err(e)) => (s, Err(e)),
                                            (s, Ok(ps)) => {
                                                match expect(ts, s, TokenType::CloseParen, "Expected ')' after parameters"@) {
                                                    (s, Err(e)) => (s, Err(e)),
                                                    (s, Ok(_)) => {
                                                        if !lt(ts, st, s) {
                                                            stuck(s)
                                                        } else {
                                                            match where_clause(ts, s) {
                                                                (s, Err(e)) => (s, Err(e)),
                                                                (s, Ok(clause)) => {
                                                                    let s = if clause is Some { skip_nl(ts, s) } else { s };
                                                                    match required_return_type(ts, s) {
                                                                        (s, Err(e)) => (s, Err(e)),
                                                                        (s, Ok(return_type)) => {
                                                                            let s = skip_nl(ts, s);
                                                                            if !lt(ts, st, s) {
                                                                                stuck(s)
                                                                            } else {
                                                                                match block(ts, s) {
                                                                                    (s, Err(e)) => (s, Err(e)),
                                                                                    (s, Ok(b)) => {
                                                                                        (s, Ok(FunctionTree { name, type_params: params, params: ps, return_type, body: b.0, span: combine(start, last_span(b.0, start)), is_common, where_clause: clause }))
                                                                                    },
                                                                                }
                                                                            }
                                                                        },
                                                                    }
                                                                },
                                                            }
                                                        }
                                                    },
                                                }
                                            },
                                        }
                                    }
                                },
                            }
                        },
                    }
                },
            }
        },
    }
    }),
{
    reveal(function_declaration);
    reveal(block);
    reveal(function_params);
    reveal(where_clause);
}

pub open spec fn required_return_type(ts: Seq<&Token>, st: State) -> Step<TypeTree>
{
    let s = st;
    if tok(ts, st.cur, TokenType::Returns) {
        ty(ts, st.next())
    } else {
        (s, Err(fault_help(DiagnosticCode::ParseExpectedToken, "Expected 'returns' before return type, found "@ + describe(seen(ts, st.cur).token_type), seen(ts, st.cur).span, "All functions must declare a return type. Use 'returns void' for functions that return nothing. Example: func foo() returns int { ... }"@)))
    }
}

#[verifier::opaque]
pub open spec fn function_params(ts: Seq<&Token>, st: State) -> Step<Seq<ParamTree>> {
    function_params_rec(ts, st)
}

pub open spec fn function_params_rec(ts: Seq<&Token>, st: State) -> Step<Seq<ParamTree>>
    decreases ts.len() - st.cur, 140int,
{
    let s = st;
    if tok(ts, st.cur, TokenType::CloseParen) {
        (s, Ok(seq![]))
    } else {
        function_params_from_rec(ts, st, seq![], false)
    }
}

pub proof fn function_params_def(ts: Seq<&Token>, st: State)
    ensures
        function_params(ts, st) == ({
    let s = st;
    if tok(ts, st.cur, TokenType::CloseParen) {
        (s, Ok(seq![]))
    } else {
        function_params_from(ts, st, seq![], false)
    }
    }),
{
    reveal(function_params);
    reveal(function_params_from);
}

#[verifier::opaque]
pub open spec fn function_params_from(ts: Seq<&Token>, st: State, acc: Seq<ParamTree>, defaults: bool) -> Step<Seq<ParamTree>> {
    function_params_from_rec(ts, st, acc, defaults)
}

pub open spec fn function_params_from_rec(ts: Seq<&Token>, st: State, acc: Seq<ParamTree>, defaults: bool) -> Step<Seq<ParamTree>>
    decreases ts.len() - st.cur, 130int,
{
    let s = st;
    match single_param_rec(ts, st, defaults) {
        (s, Err(e)) => (s, Err(e)),
        (s, Ok(p)) => {
            if tok(ts, s.cur, TokenType::Comma) {
                let s = s.next();
                if !lt(ts, st, s) {
                    stuck(s)
                } else {
                    function_params_from_rec(ts, s, acc.push(p), defaults || p.default_value is Some)
                }
            } else {
                (s, Ok(acc.push(p)))
            }
        },
    }
}

pub proof fn function_params_from_def(ts: Seq<&Token>, st: State, acc: Seq<ParamTree>, defaults: bool)
    ensures
        function_params_from(ts, st, acc, defaults) == ({
    let s = st;
    match single_param(ts, st, defaults) {
        (s, Err(e)) => (s, Err(e)),
        (s, Ok(p)) => {
            if tok(ts, s.cur, TokenType::Comma) {
                let s = s.next();
                if !lt(ts, st, s) {
                    stuck(s)
                } else {
                    function_params_from(ts, s, acc.push(p), defaults || p.default_value is Some)
                }
            } else {
                (s, Ok(acc.push(p)))
            }
        },
    }
    }),
{
    reveal(function_params_from);
    reveal(single_param);
}

#[verifier::opaque]
pub open spec fn single_param(ts: Seq<&Token>, st: State, defaults: bool) -> Step<ParamTree> {
    single_param_rec(ts, st, defaults)
}

pub open spec fn single_param_rec(ts: Seq<&Token>, st: State, defaults: bool) -> Step<ParamTree>
    decreases ts.len() - st.cur, 125int,
{
    let s = st;
    match ty(ts, st) {
        (s, Err(e)) => (s, Err(e)),
        (s, Ok(t)) => {
            match identifier(ts, s, "Expected parameter name"@) {
                (s, Err(e)) => (s, Err(e)),
                (s, Ok(name)) => {
                    if !lt(ts, st, s) {
                        stuck(s)
                    } else {
                        match param_default_rec(ts, s, defaults) {
                            (s, Err(e)) => (s, Err(e)),
                            (s, Ok(d)) => {
                                (s, Ok(ParamTree { name, type_: t, default_value: d }))
                            },
                        }
                    }
                },
            }
        },
    }
}

pub proof fn single_param_def(ts: Seq<&Token>, st: State, defaults: bool)
    ensures
        single_param(ts, st, defaults) == ({
    let s = st;
    match ty(ts, st) {
        (s, Err(e)) => (s, Err(e)),
        (s, Ok(t)) => {
            match identifier(ts, s, "Expected parameter name"@) {
                (s, Err(e)) => (s, Err(e)),
                (s, Ok(name)) => {
                    if !lt(ts, st, s) {
                        stuck(s)
                    } else {
                        match param_default(ts, s, defaults) {
                            (s, Err(e)) => (s, Err(e)),
                            (s, Ok(d)) => {
                                (s, Ok(ParamTree { name, type_: t, default_value: d }))
                            },
                        }
                    }
                },
            }
        },
    }
    }),
{
    reveal(single_param);
    reveal(param_default);
}

#[verifier::opaque]
pub open spec fn param_default(ts: Seq<&Token>, st: State, defaults: bool) -> Step<Option<ExprTree>> {
    param_default_rec(ts, st, defaults)
}

pub open spec fn param_default_rec(ts: Seq<&Token>, st: State, defaults: bool) -> Step<Option<ExprTree>>
    decreases ts.len() - st.cur, 120int,
{
    let s = st;
    if !tok(ts, st.cur, TokenType::Eq) {
        if defaults {
            (s, Err(fault_help(DiagnosticCode::ParseExpectedToken, "Required parameter cannot follow a parameter with a default value"@, before(ts, st.cur).span, "Move all parameters with default values to the end of the parameter list"@)))
        } else {
            (s, Ok(None))
        }
    } else {
        let s = st.next();
        if !lt(ts, st, s) {
            stuck(s)
        } else {
            match expression_rec(ts, s) {
                (s, Err(e)) => (s, Err(e)),
                (s, Ok(e)) => {
                    if !(e.kind is Literal) {
                        (s, Err(fault_help(DiagnosticCode::ParseExpectedToken, "Default parameter values must be literals"@, e.span, "Only literal values (int, float, string, bool, char) are allowed as default parameter values. Example: func foo(int x = 10) returns void { ... }"@)))
                    } else {
                        (s, Ok(Some(e)))
                    }
                },
            }
        }
    }
}

pub proof fn param_default_def(ts: Seq<&Token>, st: State, defaults: bool)
    ensures
        param_default(ts, st, defaults) == ({
    let s = st;
    if !tok(ts, st.cur, TokenType::Eq) {
        if defaults {
            (s, Err(fault_help(DiagnosticCode::ParseExpectedToken, "Required parameter cannot follow a parameter with a default value"@, before(ts, st.cur).span, "Move all parameters with default values to the end of the parameter list"@)))
        } else {
            (s, Ok(None))
        }
    } else {
        let s = st.next();
        if !lt(ts, st, s) {
            stuck(s)
        } else {
            match expression(ts, s) {
                (s, Err(e)) => (s, Err(e)),
                (s, Ok(e)) => {
                    if !(e.kind is Literal) {
                        (s, Err(fault_help(DiagnosticCode::ParseExpectedToken, "Default parameter values must be literals"@, e.span, "Only literal values (int, float, string, bool, char) are allowed as default parameter values. Example: func foo(int x = 10) returns void { ... }"@)))
                    } else {
                        (s, Ok(Some(e)))
                    }
                },
            }
        }
    }
    }),
{
    reveal(param_default);
    reveal(expression);
}

#[verifier::opaque]
pub open spec fn statement(ts: Seq<&Token>, st: State) -> Step<NodeTree> {
    statement_rec(ts, st)
}

pub open spec fn statement_rec(ts: Seq<&Token>, st: State) -> Step<NodeTree>
    decreases ts.len() - st.cur, 160int,
{
    let s = st;
    match statement_content_rec(ts, st) {
        (s, Err(e)) => (s, Err(e)),
        (s, Ok(node)) => {
            if !in_block(ts, s.cur) && !is_control_flow(node) {
                match termination(ts, s.cur) {
                    Some(e) => {
                        (s.record(e), Ok(node))
                    },
                    None => {
                        (s, Ok(node))
                    },
                }
            } else {
                (s, Ok(node))
            }
        },
    }
}

pub proof fn statement_def(ts: Seq<&Token>, st: State)
    ensures
        statement(ts, st) == ({
    let s = st;
    match statement_content(ts, st) {
        (s, Err(e)) => (s, Err(e)),
        (s, Ok(node)) => {
            if !in_block(ts, s.cur) && !is_control_flow(node) {
                match termination(ts, s.cur) {
                    Some(e) => {
                        (s.record(e), Ok(node))
                    },
                    None => {
                        (s, Ok(node))
                    },
                }
            } else {
                (s, Ok(node))
            }
        },
    }
    }),
{
    reveal(statement);
    reveal(statement_content);
}

#[verifier::opaque]
pub open spec fn statement_content(ts: Seq<&Token>, st: State) -> Step<NodeTree> {
    statement_content_rec(ts, st)
}

pub open spec fn statement_content_rec(ts: Seq<&Token>, st: State) -> Step<NodeTree>
    decreases ts.len() - st.cur, 155int,
{
    let s = st;
    if tok(ts, st.cur, TokenType::If) {
        let s = st.next();
        if !lt(ts, st, s) {
            stuck(s)
        } else {
            match if_statement_rec(ts, s) {
                (s, Err(e)) => (s, Err(e)),
                (s, Ok(d)) => {
                    (s, Ok(NodeTree::Statement(d)))
                },
            }
        }
    } else if tok(ts, st.cur, TokenType::While) {
        let s = st.next();
        if !lt(ts, st, s) {
            stuck(s)
        } else {
            match while_statement_rec(ts, s) {
                (s, Err(e)) => (s, Err(e)),
                (s, Ok(d)) => {
                    (s, Ok(NodeTree::Statement(d)))
                },
            }
        }
    } else if tok(ts, st.cur, TokenType::For) {
        let s = st.next();
        if !lt(ts, st, s) {
            stuck(s)
        } else {
            match for_statement_rec(ts, s) {
                (s, Err(e)) => (s, Err(e)),
                (s, Ok(d)) => {
                    (s, Ok(NodeTree::Statement(d)))
                },
            }
        }
    } else if tok(ts, st.cur, TokenType::Match) {
        let s = st.next();
        if !lt(ts, st, s) {
            stuck(s)
        } else {
            match match_statement_rec(ts, s) {
                (s, Err(e)) => (s, Err(e)),
                (s, Ok(d)) => {
                    (s, Ok(NodeTree::Statement(d)))
                },
            }
        }
    } else if tok(ts, st.cur, TokenType::Break) {
        let s = st.next();
        match loop_exit(ts, s, true) {
            (s, Err(e)) => (s, Err(e)),
            (s, Ok(d)) => {
                (s, Ok(NodeTree::Statement(d)))
            },
        }
    } else if tok(ts, st.cur, TokenType::Continue) {
        let s = st.next();
        match loop_exit(ts, s, false) {
            (s, Err(e)) => (s, Err(e)),
            (s, Ok(d)) => {
                (s, Ok(NodeTree::Statement(d)))
            },
        }
    } else if tok(ts, st.cur, TokenType::Return) {
        let s = st.next();
        if !lt(ts, st, s) {
            stuck(s)
        } else {
            match return_statement_rec(ts, s) {
                (s, Err(e)) => (s, Err(e)),
                (s, Ok(d)) => {
                    (s, Ok(NodeTree::Statement(d)))
                },
            }
        }
    } else if tok(ts, st.cur, TokenType::Func) {
        let s = st.next();
        if !lt(ts, st, s) {
            stuck(s)
        } else {
            match function_declaration_rec(ts, s, false) {
                (s, Err(e)) => (s, Err(e)),
                (s, Ok(f)) => {
                    (s, Ok(NodeTree::Function(f)))
                },
            }
        }
    } else if looks_like_declaration(ts, st.cur) {
        match typed_declaration_rec(ts, st) {
            (s, Err(e)) => (s, Err(e)),
            (s, Ok(d)) => {
                (s, Ok(NodeTree::Statement(d)))
            },
        }
    } else if tok(ts, st.cur, TokenType::OpenBrace) {
        match block_rec(ts, st) {
            (s, Err(e)) => (s, Err(e)),
            (s, Ok(b)) => {
                (s, Ok(NodeTree::Statement(stmt(StmtShape::Block(b.0), b.1))))
            },
        }
    } else {
        match expression_statement_rec(ts, st) {
            (s, Err(e)) => (s, Err(e)),
            (s, Ok(d)) => {
                (s, Ok(NodeTree::Statement(d)))
            },
        }
    }
}

pub proof fn statement_content_def(ts: Seq<&Token>, st: State)
    ensures
        statement_content(ts, st) == ({
    let s = st;
    if tok(ts, st.cur, TokenType::If) {
        let s = st.next();
        if !lt(ts, st, s) {
            stuck(s)
        } else {
            match if_statement(ts, s) {
                (s, Err(e)) => (s, Err(e)),
                (s, Ok(d)) => {
                    (s, Ok(NodeTree::Statement(d)))
                },
            }
        }
    } else if tok(ts, st.cur, TokenType::While) {
        let s = st.next();
        if !lt(ts, st, s) {
            stuck(s)
        } else {
            match while_statement(ts, s) {
                (s, Err(e)) => (s, Err(e)),
                (s, Ok(d)) => {
                    (s, Ok(NodeTree::Statement(d)))
                },
            }
        }
    } else if tok(ts, st.cur, TokenType::For) {
        let s = st.next();
        if !lt(ts, st, s) {
            stuck(s)
        } else {
            match for_statement(ts, s) {
                (s, Err(e)) => (s, Err(e)),
                (s, Ok(d)) => {
                    (s, Ok(NodeTree::Statement(d)))
                },
            }
        }
    } else if tok(ts, st.cur, TokenType::Match) {
        let s = st.next();
        if !lt(ts, st, s) {
            stuck(s)
        } else {
            match match_statement(ts, s) {
                (s, Err(e)) => (s, Err(e)),
                (s, Ok(d)) => {
                    (s, Ok(NodeTree::Statement(d)))
                },
            }
        }
    } else if tok(ts, st.cur, TokenType::Break) {
        let s = st.next();
        match loop_exit(ts, s, true) {
            (s, Err(e)) => (s, Err(e)),
            (s, Ok(d)) => {
                (s, Ok(NodeTree::Statement(d)))
            },
        }
    } else if tok(ts, st.cur, TokenType::Continue) {
        let s = st.next();
        match loop_exit(ts, s, false) {
            (s, Err(e)) => (s, Err(e)),
            (s, Ok(d)) => {
                (s, Ok(NodeTree::Statement(d)))
            },
        }
    } else if tok(ts, st.cur, TokenType::Return) {
        let s = st.next();
        if !lt(ts, st, s) {
            stuck(s)
        } else {
            match return_statement(ts, s) {
                (s, Err(e)) => (s, Err(e)),
                (s, Ok(d)) => {
                    (s, Ok(NodeTree::Statement(d)))
                },
            }
        }
    } else if tok(ts, st.cur, TokenType::Func) {
        let s = st.next();
        if !lt(ts, st, s) {
            stuck(s)
        } else {
            match function_declaration(ts, s, false) {
                (s, Err(e)) => (s, Err(e)),
                (s, Ok(f)) => {
                    (s, Ok(NodeTree::Function(f)))
                },
            }
        }
    } else if looks_like_declaration(ts, st.cur) {
        match typed_declaration(ts, st) {
            (s, Err(e)) => (s, Err(e)),
            (s, Ok(d)) => {
                (s, Ok(NodeTree::Statement(d)))
            },
        }
    } else if tok(ts, st.cur, TokenType::OpenBrace) {
        match block(ts, st) {
            (s, Err(e)) => (s, Err(e)),
            (s, Ok(b)) => {
                (s, Ok(NodeTree::Statement(stmt(StmtShape::Block(b.0), b.1))))
            },
        }
    } else {
        match expression_statement(ts, st) {
            (s, Err(e)) => (s, Err(e)),
            (s, Ok(d)) => {
                (s, Ok(NodeTree::Statement(d)))
            },
        }
    }
    }),
{
    reveal(statement_content);
    reveal(block);
    reveal(expression_statement);
    reveal(for_statement);
    reveal(function_declaration);
    reveal(if_statement);
    reveal(match_statement);
    reveal(return_statement);
    reveal(typed_declaration);
    reveal(while_statement);
}

#[verifier::opaque]
pub open spec fn if_statement(ts: Seq<&Token>, st: State) -> Step<StmtTree> {
    if_statement_rec(ts, st)
}

pub open spec fn if_statement_rec(ts: Seq<&Token>, st: State) -> Step<StmtTree>
    decreases ts.len() - st.cur, 150int,
{
    let s = st;
    let start = before(ts, st.cur).span;
    match expression_rec(ts, st) {
        (s, Err(e)) => (s, Err(e)),
        (s, Ok(cond)) => {
            match nested_update(cond) {
                Some(e) => {
                    (s, Err(e))
                },
                None => {
                    let s = skip_nl(ts, s);
                    if !lt(ts, st, s) {
                        stuck(s)
                    } else {
                        match block_rec(ts, s) {
                            (s, Err(e)) => (s, Err(e)),
                            (s, Ok(b)) => {
                                let s = skip_nl(ts, s);
                                if !tok(ts, s.cur, TokenType::Else) {
                                    (s, Ok(stmt(StmtShape::If { cond, then_block: b.0, else_block: None }, combine(start, last_span(b.0, start)))))
                                } else {
                                    let s = skip_nl(ts, s.next());
                                    if tok(ts, s.cur, TokenType::If) {
                                        let s = s.next();
                                        if !lt(ts, st, s) {
                                            stuck(s)
                                        } else {
                                            match if_statement_rec(ts, s) {
                                                (s, Err(e)) => (s, Err(e)),
                                                (s, Ok(inner)) => {
                                                    (s, Ok(stmt(StmtShape::If { cond, then_block: b.0, else_block: Some(seq![inner]) }, combine(start, inner.span))))
                                                },
                                            }
                                        }
                                    } else {
                                        if !tok(ts, s.cur, TokenType::OpenBrace) {
                                            (s, Err(fault(DiagnosticCode::ParseExpectedToken, "Expected '{' after else"@, seen(ts, s.cur).span)))
                                        } else {
                                            if !lt(ts, st, s) {
                                                stuck(s)
                                            } else {
                                                match block_rec(ts, s) {
                                                    (s, Err(e)) => (s, Err(e)),
                                                    (s, Ok(no)) => {
                                                        (s, Ok(stmt(StmtShape::If { cond, then_block: b.0, else_block: Some(no.0) }, combine(start, last_span(no.0, before(ts, s.cur).span)))))
                                                    },
                                                }
                                            }
                                        }
                                    }
                                }
                            },
                        }
                    }
                },
            }
        },
    }
}

pub proof fn if_statement_def(ts: Seq<&Token>, st: State)
    ensures
        if_statement(ts, st) == ({
    let s = st;
    let start = before(ts, st.cur).span;
    match expression(ts, st) {
        (s, Err(e)) => (s, Err(e)),
        (s, Ok(cond)) => {
            match nested_update(cond) {
                Some(e) => {
                    (s, Err(e))
                },
                None => {
                    let s = skip_nl(ts, s);
                    if !lt(ts, st, s) {
                        stuck(s)
                    } else {
                        match block(ts, s) {
                            (s, Err(e)) => (s, Err(e)),
                            (s, Ok(b)) => {
                                let s = skip_nl(ts, s);
                                if !tok(ts, s.cur, TokenType::Else) {
                                    (s, Ok(stmt(StmtShape::If { cond, then_block: b.0, else_block: None }, combine(start, last_span(b.0, start)))))
                                } else {
                                    let s = skip_nl(ts, s.next());
                                    if tok(ts, s.cur, TokenType::If) {
                                        let s = s.next();
                                        if !lt(ts, st, s) {
                                            stuck(s)
                                        } else {
                                            match if_statement(ts, s) {
                                                (s, Err(e)) => (s, Err(e)),
                                                (s, Ok(inner)) => {
                                                    (s, Ok(stmt(StmtShape::If { cond, then_block: b.0, else_block: Some(seq![inner]) }, combine(start, inner.span))))
                                                },
                                            }
                                        }
                                    } else {
                                        if !tok(ts, s.cur, TokenType::OpenBrace) {
                                            (s, Err(fault(DiagnosticCode::ParseExpectedToken, "Expected '{' after else"@, seen(ts, s.cur).span)))
                                        } else {
                                            if !lt(ts, st, s) {
                                                stuck(s)
                                            } else {
                                                match block(ts, s) {
                                                    (s, Err(e)) => (s, Err(e)),
                                                    (s, Ok(no)) => {
                                                        (s, Ok(stmt(StmtShape::If { cond, then_block: b.0, else_block: Some(no.0) }, combine(start, last_span(no.0, before(ts, s.cur).span)))))
                                                    },
                                                }
                                            }
                                        }
                                    }
                                }
                            },
                        }
                    }
                },
            }
        },
    }
    }),
{
    reveal(if_statement);
    reveal(block);
    reveal(expression);
}

#[verifier::opaque]
pub open spec fn while_statement(ts: Seq<&Token>, st: State) -> Step<StmtTree> {
    while_statement_rec(ts, st)
}

pub open spec fn while_statement_rec(ts: Seq<&Token>, st: State) -> Step<StmtTree>
    decreases ts.len() - st.cur, 150int,
{
    let s = st;
    let start = seen(ts, st.cur).span;
    match expression_rec(ts, st) {
        (s, Err(e)) => (s, Err(e)),
        (s, Ok(cond)) => {
            match nested_update(cond) {
                Some(e) => {
                    (s, Err(e))
                },
                None => {
                    let s = skip_nl(ts, s).enter_loop();
                    if !lt(ts, st, s) {
                        stuck(s)
                    } else {
                        match block_rec(ts, s) {
                            (s, Err(e)) => (s, Err(e)),
                            (s, Ok(b)) => {
                                let s = s.leave_loop();
                                (s, Ok(stmt(StmtShape::While { cond, body: b.0 }, combine(start, last_span(b.0, start)))))
                            },
                        }
                    }
                },
            }
        },
    }
}

pub proof fn while_statement_def(ts: Seq<&Token>, st: State)
    ensures
        while_statement(ts, st) == ({
    let s = st;
    let start = seen(ts, st.cur).span;
    match expression(ts, st) {
        (s, Err(e)) => (s, Err(e)),
        (s, Ok(cond)) => {
            match nested_update(cond) {
                Some(e) => {
                    (s, Err(e))
                },
                None => {
                    let s = skip_nl(ts, s).enter_loop();
                    if !lt(ts, st, s) {
                        stuck(s)
                    } else {
                        match block(ts, s) {
                            (s, Err(e)) => (s, Err(e)),
                            (s, Ok(b)) => {
                                let s = s.leave_loop();
                                (s, Ok(stmt(StmtShape::While { cond, body: b.0 }, combine(start, last_span(b.0, start)))))
                            },
                        }
                    }
                },
            }
        },
    }
    }),
{
    reveal(while_statement);
    reveal(block);
    reveal(expression);
}

#[verifier::opaque]
pub open spec fn for_statement(ts: Seq<&Token>, st: State) -> Step<StmtTree> {
    for_statement_rec(ts, st)
}

pub open spec fn for_statement_rec(ts: Seq<&Token>, st: State) -> Step<StmtTree>
    decreases ts.len() - st.cur, 150int,
{
    let s = st;
    let start = seen(ts, st.cur).span;
    match ty(ts, st) {
        (s, Err(e)) => (s, Err(e)),
        (s, Ok(t)) => {
            match identifier(ts, s, "Expected variable name"@) {
                (s, Err(e)) => (s, Err(e)),
                (s, Ok(var)) => {
                    match expect(ts, s, TokenType::In, "Expected 'in' after variable"@) {
                        (s, Err(e)) => (s, Err(e)),
                        (s, Ok(_)) => {
                            if !lt(ts, st, s) {
                                stuck(s)
                            } else {
                                match expression_rec(ts, s) {
                                    (s, Err(e)) => (s, Err(e)),
                                    (s, Ok(iter)) => {
                                        match nested_update(iter) {
                                            Some(e) => {
                                                (s, Err(e))
                                            },
                                            None => {
                                                let s = skip_nl(ts, s).enter_loop();
                                                if !lt(ts, st, s) {
                                                    stuck(s)
                                                } else {
                                                    match block_or_statement_rec(ts, s) {
                                                        (s, Err(e)) => (s, Err(e)),
                                                        (s, Ok(node)) => {
                                                            let s = s.leave_loop();
                                                            match node {
                                                                NodeTree::Statement(b) => {
                                                                    let body = unblock(b);
                                                                    (s, Ok(stmt(StmtShape::For { var, var_type: t, iter, body }, combine(start, last_span(body, start)))))
                                                                },
                                                                _ => {
                                                                    (s, Err(fault(DiagnosticCode::ParseExpectedToken, "Expected statement after for loop"@, start)))
                                                                },
                                                            }
                                                        },
                                                    }
                                                }
                                            },
                                        }
                                    },
                                }
                            }
                        },
                    }
                },
            }
        },
    }
}

pub proof fn for_statement_def(ts: Seq<&Token>, st: State)
    ensures
        for_statement(ts, st) == ({
    let s = st;
    let start = seen(ts, st.cur).span;
    match ty(ts, st) {
        (s, Err(e)) => (s, Err(e)),
        (s, Ok(t)) => {
            match identifier(ts, s, "Expected variable name"@) {
                (s, Err(e)) => (s, Err(e)),
                (s, Ok(var)) => {
                    match expect(ts, s, TokenType::In, "Expected 'in' after variable"@) {
                        (s, Err(e)) => (s, Err(e)),
                        (s, Ok(_)) => {
                            if !lt(ts, st, s) {
                                stuck(s)
                            } else {
                                match expression(ts, s) {
                                    (s, Err(e)) => (s, Err(e)),
                                    (s, Ok(iter)) => {
                                        match nested_update(iter) {
                                            Some(e) => {
                                                (s, Err(e))
                                            },
                                            None => {
                                                let s = skip_nl(ts, s).enter_loop();
                                                if !lt(ts, st, s) {
                                                    stuck(s)
                                                } else {
                                                    match block_or_statement(ts, s) {
                                                        (s, Err(e)) => (s, Err(e)),
                                                        (s, Ok(node)) => {
                                                            let s = s.leave_loop();
                                                            match node {
                                                                NodeTree::Statement(b) => {
                                                                    let body = unblock(b);
                                                                    (s, Ok(stmt(StmtShape::For { var, var_type: t, iter, body }, combine(start, last_span(body, start)))))
                                                                },
                                                                _ => {
                                                                    (s, Err(fault(DiagnosticCode::ParseExpectedToken, "Expected statement after for loop"@, start)))
                                                                },
                                                            }
                                                        },
                                                    }
                                                }
                                            },
                                        }
                                    },
                                }
                            }
                        },
                    }
                },
            }
        },
    }
    }),
{
    reveal(for_statement);
    reveal(block_or_statement);
    reveal(expression);
}

#[verifier::opaque]
pub open spec fn block_or_statement(ts: Seq<&Token>, st: State) -> Step<NodeTree> {
    block_or_statement_rec(ts, st)
}

pub open spec fn block_or_statement_rec(ts: Seq<&Token>, st: State) -> Step<NodeTree>
    decreases ts.len() - st.cur, 165int,
{
    let s = st;
    if tok(ts, st.cur, TokenType::OpenBrace) {
        match block_rec(ts, st) {
            (s, Err(e)) => (s, Err(e)),
            (s, Ok(b)) => {
                (s, Ok(NodeTree::Statement(stmt(StmtShape::Block(b.0), b.1))))
            },
        }
    } else {
        statement_rec(ts, st)
    }
}

pub proof fn block_or_statement_def(ts: Seq<&Token>, st: State)
    ensures
        block_or_statement(ts, st) == ({
    let s = st;
    if tok(ts, st.cur, TokenType::OpenBrace) {
        match block(ts, st) {
            (s, Err(e)) => (s, Err(e)),
            (s, Ok(b)) => {
                (s, Ok(NodeTree::Statement(stmt(StmtShape::Block(b.0), b.1))))
            },
        }
    } else {
        statement(ts, st)
    }
    }),
{
    reveal(block_or_statement);
    reveal(block);
    reveal(statement);
}

#[verifier::opaque]
pub open spec fn match_statement(ts: Seq<&Token>, st: State) -> Step<StmtTree> {
    match_statement_rec(ts, st)
}

pub open spec fn match_statement_rec(ts: Seq<&Token>, st: State) -> Step<StmtTree>
    decreases ts.len() - st.cur, 150int,
{
    let s = st;
    let start = seen(ts, st.cur).span;
    match expression_rec(ts, st) {
        (s, Err(e)) => (s, Err(e)),
        (s, Ok(expr)) => {
            match nested_update(expr) {
                Some(e) => {
                    (s, Err(e))
                },
                None => {
                    match expect(ts, s, TokenType::OpenBrace, "Expected '{' after match expression"@) {
                        (s, Err(e)) => (s, Err(e)),
                        (s, Ok(_)) => {
                            let s = skip_nl(ts, s);
                            if !lt(ts, st, s) {
                                stuck(s)
                            } else {
                                match match_arms_rec(ts, s, start, seq![]) {
                                    (s, Err(e)) => (s, Err(e)),
                                    (s, Ok(arms)) => {
                                        match expect(ts, s, TokenType::CloseBrace, "Expected '}' after match arms"@) {
                                            (s, Err(e)) => (s, Err(e)),
                                            (s, Ok(end)) => {
                                                (s, Ok(stmt(StmtShape::Match { expr, arms }, combine(start, end))))
                                            },
                                        }
                                    },
                                }
                            }
                        },
                    }
                },
            }
        },
    }
}

pub proof fn match_statement_def(ts: Seq<&Token>, st: State)
    ensures
        match_statement(ts, st) == ({
    let s = st;
    let start = seen(ts, st.cur).span;
    match expression(ts, st) {
        (s, Err(e)) => (s, Err(e)),
        (s, Ok(expr)) => {
            match nested_update(expr) {
                Some(e) => {
                    (s, Err(e))
                },
                None => {
                    match expect(ts, s, TokenType::OpenBrace, "Expected '{' after match expression"@) {
                        (s, Err(e)) => (s, Err(e)),
                        (s, Ok(_)) => {
                            let s = skip_nl(ts, s);
                            if !lt(ts, st, s) {
                                stuck(s)
                            } else {
                                match match_arms(ts, s, start, seq![]) {
                                    (s, Err(e)) => (s, Err(e)),
                                    (s, Ok(arms)) => {
                                        match expect(ts, s, TokenType::CloseBrace, "Expected '}' after match arms"@) {
                                            (s, Err(e)) => (s, Err(e)),
                                            (s, Ok(end)) => {
                                                (s, Ok(stmt(StmtShape::Match { expr, arms }, combine(start, end))))
                                            },
                                        }
                                    },
                                }
                            }
                        },
                    }
                },
            }
        },
    }
    }),
{
    reveal(match_statement);
    reveal(expression);
    reveal(match_arms);
}

#[verifier::opaque]
pub open spec fn match_arms(ts: Seq<&Token>, st: State, start: Span, acc: Seq<MatchArmTree>) -> Step<Seq<MatchArmTree>> {
    match_arms_rec(ts, st, start, acc)
}

pub open spec fn match_arms_rec(ts: Seq<&Token>, st: State, start: Span, acc: Seq<MatchArmTree>) -> Step<Seq<MatchArmTree>>
    decreases ts.len() - st.cur, 180int,
{
    let s = st;
    if tok(ts, st.cur, TokenType::CloseBrace) || st.cur >= ts.len() {
        (s, Ok(acc))
    } else {
        match match_arm_rec(ts, st, start) {
            (s, Err(e)) => (s, Err(e)),
            (s, Ok(arm)) => {
                let s = skip_nl(ts, s);
                let s = if tok(ts, s.cur, TokenType::Comma) { skip_nl(ts, s.next()) } else { s };
                if !lt(ts, st, s) {
                    stuck(s)
                } else {
                    match_arms_rec(ts, s, start, acc.push(arm))
                }
            },
        }
    }
}

pub proof fn match_arms_def(ts: Seq<&Token>, st: State, start: Span, acc: Seq<MatchArmTree>)
    ensures
        match_arms(ts, st, start, acc) == ({
    let s = st;
    if tok(ts, st.cur, TokenType::CloseBrace) || st.cur >= ts.len() {
        (s, Ok(acc))
    } else {
        match match_arm(ts, st, start) {
            (s, Err(e)) => (s, Err(e)),
            (s, Ok(arm)) => {
                let s = skip_nl(ts, s);
                let s = if tok(ts, s.cur, TokenType::Comma) { skip_nl(ts, s.next()) } else { s };
                if !lt(ts, st, s) {
                    stuck(s)
                } else {
                    match_arms(ts, s, start, acc.push(arm))
                }
            },
        }
    }
    }),
{
    reveal(match_arms);
    reveal(match_arm);
}

#[verifier::opaque]
pub open spec fn match_arm(ts: Seq<&Token>, st: State, start: Span) -> Step<MatchArmTree> {
    match_arm_rec(ts, st, start)
}

pub open spec fn match_arm_rec(ts: Seq<&Token>, st: State, start: Span) -> Step<MatchArmTree>
    decreases ts.len() - st.cur, 175int,
{
    let s = st;
    match pattern(ts, st) {
        (s, Err(e)) => (s, Err(e)),
        (s, Ok(p)) => {
            if !lt(ts, st, s) {
                stuck(s)
            } else {
                match match_guard_rec(ts, s) {
                    (s, Err(e)) => (s, Err(e)),
                    (s, Ok(guard)) => {
                        let s = skip_nl(ts, s);
                        if !lt(ts, st, s) {
                            stuck(s)
                        } else {
                            match match_arm_body_rec(ts, s, start) {
                                (s, Err(e)) => (s, Err(e)),
                                (s, Ok(body)) => {
                                    (s, Ok(MatchArmTree { pattern: p, guard, body }))
                                },
                            }
                        }
                    },
                }
            }
        },
    }
}

pub proof fn match_arm_def(ts: Seq<&Token>, st: State, start: Span)
    ensures
        match_arm(ts, st, start) == ({
    let s = st;
    match pattern(ts, st) {
        (s, Err(e)) => (s, Err(e)),
        (s, Ok(p)) => {
            if !lt(ts, st, s) {
                stuck(s)
            } else {
                match match_guard(ts, s) {
                    (s, Err(e)) => (s, Err(e)),
                    (s, Ok(guard)) => {
                        let s = skip_nl(ts, s);
                        if !lt(ts, st, s) {
                            stuck(s)
                        } else {
                            match match_arm_body(ts, s, start) {
                                (s, Err(e)) => (s, Err(e)),
                                (s, Ok(body)) => {
                                    (s, Ok(MatchArmTree { pattern: p, guard, body }))
                                },
                            }
                        }
                    },
                }
            }
        },
    }
    }),
{
    reveal(match_arm);
    reveal(match_arm_body);
    reveal(match_guard);
}

#[verifier::opaque]
pub open spec fn match_guard(ts: Seq<&Token>, st: State) -> Step<Option<ExprTree>> {
    match_guard_rec(ts, st)
}

pub open spec fn match_guard_rec(ts: Seq<&Token>, st: State) -> Step<Option<ExprTree>>
    decreases ts.len() - st.cur, 60int,
{
    let s = st;
    if tok(ts, st.cur, TokenType::If) {
        let s = st.next();
        if !lt(ts, st, s) {
            stuck(s)
        } else {
            match expression_rec(ts, s) {
                (s, Err(e)) => (s, Err(e)),
                (s, Ok(e)) => {
                    (s, Ok(Some(e)))
                },
            }
        }
    } else {
        (s, Ok(None))
    }
}

pub proof fn match_guard_def(ts: Seq<&Token>, st: State)
    ensures
        match_guard(ts, st) == ({
    let s = st;
    if tok(ts, st.cur, TokenType::If) {
        let s = st.next();
        if !lt(ts, st, s) {
            stuck(s)
        } else {
            match expression(ts, s) {
                (s, Err(e)) => (s, Err(e)),
                (s, Ok(e)) => {
                    (s, Ok(Some(e)))
                },
            }
        }
    } else {
        (s, Ok(None))
    }
    }),
{
    reveal(match_guard);
    reveal(expression);
}

#[verifier::opaque]
pub open spec fn match_arm_body(ts: Seq<&Token>, st: State, start: Span) -> Step<Seq<StmtTree>> {
    match_arm_body_rec(ts, st, start)
}

pub open spec fn match_arm_body_rec(ts: Seq<&Token>, st: State, start: Span) -> Step<Seq<StmtTree>>
    decreases ts.len() - st.cur, 170int,
{
    let s = st;
    let s = if tok(ts, st.cur, TokenType::Colon) { skip_nl(ts, st.next()) } else { st };
    if !le(ts, st, s) {
        stuck(s)
    } else {
        match block_or_statement_rec(ts, s) {
            (s, Err(e)) => (s, Err(e)),
            (s, Ok(node)) => {
                match node {
                    NodeTree::Statement(b) => {
                        (s, Ok(unblock(b)))
                    },
                    _ => {
                        (s, Err(fault(DiagnosticCode::ParseExpectedToken, "Expected statement for match arm body"@, start)))
                    },
                }
            },
        }
    }
}

pub proof fn match_arm_body_def(ts: Seq<&Token>, st: State, start: Span)
    ensures
        match_arm_body(ts, st, start) == ({
    let s = st;
    let s = if tok(ts, st.cur, TokenType::Colon) { skip_nl(ts, st.next()) } else { st };
    if !le(ts, st, s) {
        stuck(s)
    } else {
        match block_or_statement(ts, s) {
            (s, Err(e)) => (s, Err(e)),
            (s, Ok(node)) => {
                match node {
                    NodeTree::Statement(b) => {
                        (s, Ok(unblock(b)))
                    },
                    _ => {
                        (s, Err(fault(DiagnosticCode::ParseExpectedToken, "Expected statement for match arm body"@, start)))
                    },
                }
            },
        }
    }
    }),
{
    reveal(match_arm_body);
    reveal(block_or_statement);
}

#[verifier::opaque]
pub open spec fn return_statement(ts: Seq<&Token>, st: State) -> Step<StmtTree> {
    return_statement_rec(ts, st)
}

pub open spec fn return_statement_rec(ts: Seq<&Token>, st: State) -> Step<StmtTree>
    decreases ts.len() - st.cur, 150int,
{
    let s = st;
    let start = seen(ts, st.cur).span;
    if st.cur >= ts.len() || tok(ts, st.cur, TokenType::NewLine) || tok(ts, st.cur, TokenType::CloseBrace) {
        (s, Ok(stmt(StmtShape::Return(None), combine(start, start))))
    } else {
        match expression_rec(ts, st) {
            (s, Err(e)) => (s, Err(e)),
            (s, Ok(e)) => {
                match nested_update(e) {
                    Some(f) => {
                        (s, Err(f))
                    },
                    None => {
                        (s, Ok(stmt(StmtShape::Return(Some(e)), combine(start, e.span))))
                    },
                }
            },
        }
    }
}

pub proof fn return_statement_def(ts: Seq<&Token>, st: State)
    ensures
        return_statement(ts, st) == ({
    let s = st;
    let start = seen(ts, st.cur).span;
    if st.cur >= ts.len() || tok(ts, st.cur, TokenType::NewLine) || tok(ts, st.cur, TokenType::CloseBrace) {
        (s, Ok(stmt(StmtShape::Return(None), combine(start, start))))
    } else {
        match expression(ts, st) {
            (s, Err(e)) => (s, Err(e)),
            (s, Ok(e)) => {
                match nested_update(e) {
                    Some(f) => {
                        (s, Err(f))
                    },
                    None => {
                        (s, Ok(stmt(StmtShape::Return(Some(e)), combine(start, e.span))))
                    },
                }
            },
        }
    }
    }),
{
    reveal(return_statement);
    reveal(expression);
}

pub open spec fn loop_exit(ts: Seq<&Token>, st: State, is_break: bool) -> Step<StmtTree>
{
    let s = st;
    let start = seen(ts, st.cur).span;
    if st.loops == 0 {
        if is_break {
            (s, Err(fault_help(DiagnosticCode::ParseControlFlowOutsideLoop, "Cannot use 'break' outside of a loop"@, start, "'break' can only be used inside a 'for' or 'while' loop"@)))
        } else {
            (s, Err(fault_help(DiagnosticCode::ParseControlFlowOutsideLoop, "Cannot use 'continue' outside of a loop"@, start, "'continue' can only be used inside a 'for' or 'while' loop"@)))
        }
    } else {
        (s, Ok(stmt(if is_break { StmtShape::Break } else { StmtShape::Continue }, start)))
    }
}

#[verifier::opaque]
pub open spec fn expression_statement(ts: Seq<&Token>, st: State) -> Step<StmtTree> {
    expression_statement_rec(ts, st)
}

pub open spec fn expression_statement_rec(ts: Seq<&Token>, st: State) -> Step<StmtTree>
    decreases ts.len() - st.cur, 150int,
{
    let s = st;
    match expression_rec(ts, st) {
        (s, Err(e)) => (s, Err(e)),
        (s, Ok(e)) => {
            if !in_block(ts, s.cur) && s.cur < ts.len() && !tok(ts, s.cur, TokenType::NewLine) && starts_statement(ts[s.cur].token_type) {
                (s, Err(fault(DiagnosticCode::ParseExpectedToken, "Expected newline before statement"@, ts[s.cur].span)))
            } else {
                let s = skip_nl(ts, s);
                match misplaced_update(e) {
                    Some(f) => {
                        (s, Err(f))
                    },
                    None => {
                        (s, Ok(stmt(StmtShape::Expression(e), e.span)))
                    },
                }
            }
        },
    }
}

pub proof fn expression_statement_def(ts: Seq<&Token>, st: State)
    ensures
        expression_statement(ts, st) == ({
    let s = st;
    match expression(ts, st) {
        (s, Err(e)) => (s, Err(e)),
        (s, Ok(e)) => {
            if !in_block(ts, s.cur) && s.cur < ts.len() && !tok(ts, s.cur, TokenType::NewLine) && starts_statement(ts[s.cur].token_type) {
                (s, Err(fault(DiagnosticCode::ParseExpectedToken, "Expected newline before statement"@, ts[s.cur].span)))
            } else {
                let s = skip_nl(ts, s);
                match misplaced_update(e) {
                    Some(f) => {
                        (s, Err(f))
                    },
                    None => {
                        (s, Ok(stmt(StmtShape::Expression(e), e.span)))
                    },
                }
            }
        },
    }
    }),
{
    reveal(expression_statement);
    reveal(expression);
}

#[verifier::opaque]
pub open spec fn program(ts: Seq<&Token>, st: State, acc: Seq<NodeTree>) -> (State, Seq<NodeTree>) {
    program_rec(ts, st, acc)
}

pub open spec fn program_rec(ts: Seq<&Token>, st: State, acc: Seq<NodeTree>) -> (State, Seq<NodeTree>)
    decreases ts.len() - st.cur, 210int,
{
    let s = st;
    if st.cur >= ts.len() || st.stopped {
        (s, acc)
    } else {
        match declaration_rec(ts, st) {
            (s, Ok(Some(node))) => {
                let s = match termination(ts, s.cur) { Some(e) => if needs_newline(node) { synchronize(ts, s.record(e)) } else { s }, None => s };
                let s = skip_nl(ts, s);
                if !lt(ts, st, s) {
                    (s, acc)
                } else {
                    program_rec(ts, s, acc.push(node))
                }
            },
            (s, Ok(None)) => {
                let s = skip_nl(ts, if s.cur == st.cur && s.cur < ts.len() { s.next() } else { s });
                if !lt(ts, st, s) {
                    (s, acc)
                } else {
                    program_rec(ts, s, acc)
                }
            },
            (s, Err(_)) => {
                (s, acc)
            },
        }
    }
}

pub proof fn program_def(ts: Seq<&Token>, st: State, acc: Seq<NodeTree>)
    ensures
        program(ts, st, acc) == ({
    let s = st;
    if st.cur >= ts.len() || st.stopped {
        (s, acc)
    } else {
        match declaration(ts, st) {
            (s, Ok(Some(node))) => {
                let s = match termination(ts, s.cur) { Some(e) => if needs_newline(node) { synchronize(ts, s.record(e)) } else { s }, None => s };
                let s = skip_nl(ts, s);
                if !lt(ts, st, s) {
                    (s, acc)
                } else {
                    program(ts, s, acc.push(node))
                }
            },
            (s, Ok(None)) => {
                let s = skip_nl(ts, if s.cur == st.cur && s.cur < ts.len() { s.next() } else { s });
                if !lt(ts, st, s) {
                    (s, acc)
                } else {
                    program(ts, s, acc)
                }
            },
            (s, Err(_)) => {
                (s, acc)
            },
        }
    }
    }),
{
    reveal(program);
    reveal(declaration);
}

} // verus!
