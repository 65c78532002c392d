//! Which part of the source becomes which part of a tree.
//!
//! Each law takes what its parts are read as, one behind the other, and says
//! where they stand in the tree of the whole.

use crate::ast::tree::{
    EnumVariantTree, ExprShape, ExprTree, MapEntryTree, MatchArmTree, NodeTree, ParamTree,
    StmtShape, StmtTree, TypeParamTree, TypeShape, TypeTree, WhereClauseTree,
};
use crate::lexer::{Span, Token, TokenType};
use crate::parser::error::Fault;
use crate::parser::grammar::{
    auto_declaration_def, block, block_nodes, block_nodes_def, block_or_statement_def, branch,
    call_args, call_args_from, call_args_from_def, call_rest, call_rest_def,
    const_declaration_def, declaration, declaration_content, declaration_content_def,
    enum_declaration_def, enum_variant, enum_variants, enum_variants_def, expression,
    field_rest, for_statement_def, function_declaration_def, function_params,
    function_params_from, function_params_from_def, if_expression, if_expression_def,
    if_statement, if_statement_def, index_or_slice, index_or_slice_def, list_elements_from,
    list_elements_from_def, map_entries, map_entries_def, match_arm, match_arm_body_def,
    match_arm_def, match_arms, match_arms_def, match_guard_def, match_statement_def,
    nested_update, param_default, parenthesized_def, postfix, postfix_def, primary, primary_def,
    return_statement_def, single_param, single_param_def, slice_def, statement_content,
    statement_content_def, statements_in, typed_declaration, typed_declaration_def, unblock,
    where_clause, while_statement_def,
};
use crate::parser::state::{in_block, is_id, nl_end_bounds, skip_nl, tok, State, Step};
use crate::parser::type_grammar::{pattern, ty, type_params, Bounds};
use vstd::prelude::*;

verus! {

/// Something is read from a state on, up to another, and is a value.
pub open spec fn reads<T>(ts: Seq<&Token>, from: State, r: Step<T>, to: State, v: T) -> bool {
    &&& r == (to, Ok::<T, Fault>(v))
    &&& 0 <= from.cur < to.cur <= ts.len()
}

/// A statement of a shape, read up to a state.
pub open spec fn gives_statement(r: Step<NodeTree>, to: State, shape: StmtShape) -> bool {
    &&& r.0 == to
    &&& r.1 matches Ok(NodeTree::Statement(s)) && s.kind == shape
}

/// A declaration that is a statement of a shape, read up to a state.
pub open spec fn gives_declaration(r: Step<Option<NodeTree>>, to: State, shape: StmtShape) -> bool {
    &&& r.0 == to
    &&& r.1 matches Ok(Some(NodeTree::Statement(s))) && s.kind == shape
}

/// An expression of a shape, read up to a state.
pub open spec fn gives_expression(r: Step<ExprTree>, to: State, shape: ExprShape) -> bool {
    &&& r.0 == to
    &&& r.1 matches Ok(e) && e.kind == shape
}

/// `if` and a condition: the block behind the condition is what is done where
/// it holds. The block behind `else`, or another `if`, is what is done where it
/// does not.
pub proof fn if_has_its_blocks(
    ts: Seq<&Token>,
    st: State,
    after_cond: State,
    cond: ExprTree,
    after_then: State,
    yes: (Seq<StmtTree>, Span),
)
    requires
        tok(ts, st.cur, TokenType::If),
        reads(ts, st.next(), expression(ts, st.next()), after_cond, cond),
        nested_update(cond) is None,
        reads(
            ts,
            skip_nl(ts, after_cond),
            block(ts, skip_nl(ts, after_cond)),
            after_then,
            yes,
        ),
    ensures
        ({
            let end = skip_nl(ts, after_then);
            let inner = skip_nl(ts, end.next());
            let r = statement_content(ts, st);
            &&& !tok(ts, end.cur, TokenType::Else) ==> gives_statement(
                r,
                end,
                StmtShape::If { cond, then_block: yes.0, else_block: None },
            )
            &&& forall|to: State, no: (Seq<StmtTree>, Span)|
                tok(ts, end.cur, TokenType::Else) && tok(ts, inner.cur, TokenType::OpenBrace)
                    && #[trigger] reads(ts, inner, block(ts, inner), to, no) ==> gives_statement(
                    r,
                    to,
                    StmtShape::If { cond, then_block: yes.0, else_block: Some(no.0) },
                )
            &&& forall|to: State, no: StmtTree|
                tok(ts, end.cur, TokenType::Else) && tok(ts, inner.cur, TokenType::If)
                    && #[trigger] reads(
                    ts,
                    inner.next(),
                    if_statement(ts, inner.next()),
                    to,
                    no,
                ) ==> gives_statement(
                    r,
                    to,
                    StmtShape::If { cond, then_block: yes.0, else_block: Some(seq![no]) },
                )
        }),
{
    reveal(tok);
    statement_content_def(ts, st);
    if_statement_def(ts, st.next());
    nl_end_bounds(ts, after_cond.cur);
    nl_end_bounds(ts, after_then.cur);
    let end = skip_nl(ts, after_then);
    if tok(ts, end.cur, TokenType::Else) {
        nl_end_bounds(ts, end.cur + 1);
    }
}

/// `while` and a condition: the block behind it is what is repeated, and it is
/// inside of a loop.
pub proof fn while_has_its_body(
    ts: Seq<&Token>,
    st: State,
    after_cond: State,
    cond: ExprTree,
    after_body: State,
    body: (Seq<StmtTree>, Span),
)
    requires
        tok(ts, st.cur, TokenType::While),
        reads(ts, st.next(), expression(ts, st.next()), after_cond, cond),
        nested_update(cond) is None,
        reads(
            ts,
            skip_nl(ts, after_cond).enter_loop(),
            block(ts, skip_nl(ts, after_cond).enter_loop()),
            after_body,
            body,
        ),
    ensures
        gives_statement(
            statement_content(ts, st),
            after_body.leave_loop(),
            StmtShape::While { cond, body: body.0 },
        ),
{
    reveal(tok);
    statement_content_def(ts, st);
    while_statement_def(ts, st.next());
    nl_end_bounds(ts, after_cond.cur);
}

/// `for`, a type, a name, `in` and an expression: the block behind them is
/// repeated for each value of the expression, and it is inside of a loop.
pub proof fn for_has_its_parts(
    ts: Seq<&Token>,
    st: State,
    after_type: State,
    t: TypeTree,
    after_iter: State,
    iter: ExprTree,
    after_body: State,
    body: (Seq<StmtTree>, Span),
)
    requires
        tok(ts, st.cur, TokenType::For),
        reads(ts, st.next(), ty(ts, st.next()), after_type, t),
        is_id(ts, after_type.cur),
        tok(ts, after_type.cur + 1, TokenType::In),
        reads(
            ts,
            after_type.at(after_type.cur + 2),
            expression(ts, after_type.at(after_type.cur + 2)),
            after_iter,
            iter,
        ),
        nested_update(iter) is None,
        tok(ts, skip_nl(ts, after_iter).cur, TokenType::OpenBrace),
        reads(
            ts,
            skip_nl(ts, after_iter).enter_loop(),
            block(ts, skip_nl(ts, after_iter).enter_loop()),
            after_body,
            body,
        ),
    ensures
        gives_statement(
            statement_content(ts, st),
            after_body.leave_loop(),
            StmtShape::For {
                var: ts[after_type.cur].token_type->Id_0@,
                var_type: t,
                iter,
                body: body.0,
            },
        ),
{
    reveal(tok);
    statement_content_def(ts, st);
    for_statement_def(ts, st.next());
    nl_end_bounds(ts, after_iter.cur);
    block_or_statement_def(ts, skip_nl(ts, after_iter).enter_loop());
    reveal(unblock);
}

/// `match`, an expression and arms in braces.
pub proof fn match_has_its_arms(
    ts: Seq<&Token>,
    st: State,
    after_subject: State,
    expr: ExprTree,
    after_arms: State,
    arms: Seq<MatchArmTree>,
    start: Span,
)
    requires
        tok(ts, st.cur, TokenType::Match),
        reads(ts, st.next(), expression(ts, st.next()), after_subject, expr),
        nested_update(expr) is None,
        tok(ts, after_subject.cur, TokenType::OpenBrace),
        start == crate::parser::state::seen(ts, st.cur + 1).span,
        reads(
            ts,
            skip_nl(ts, after_subject.next()),
            match_arms(ts, skip_nl(ts, after_subject.next()), start, seq![]),
            after_arms,
            arms,
        ),
        tok(ts, after_arms.cur, TokenType::CloseBrace),
    ensures
        gives_statement(
            statement_content(ts, st),
            after_arms.next(),
            StmtShape::Match { expr, arms },
        ),
{
    reveal(tok);
    statement_content_def(ts, st);
    match_statement_def(ts, st.next());
    nl_end_bounds(ts, after_subject.cur + 1);
}

/// An arm: its pattern, its guard behind `if` where it has one, and its block.
pub proof fn arm_has_its_parts(
    ts: Seq<&Token>,
    st: State,
    start: Span,
    after_pattern: State,
    p: crate::ast::tree::PatternTree,
    after_guard: State,
    guard: ExprTree,
    after_body: State,
    body: (Seq<StmtTree>, Span),
)
    requires
        reads(ts, st, pattern(ts, st), after_pattern, p),
        tok(ts, after_pattern.cur, TokenType::If) ==> reads(
            ts,
            after_pattern.next(),
            expression(ts, after_pattern.next()),
            after_guard,
            guard,
        ),
        !tok(ts, after_pattern.cur, TokenType::If) ==> after_guard == after_pattern,
        tok(ts, skip_nl(ts, after_guard).cur, TokenType::OpenBrace),
        reads(
            ts,
            skip_nl(ts, after_guard),
            block(ts, skip_nl(ts, after_guard)),
            after_body,
            body,
        ),
    ensures
        match_arm(ts, st, start) == (
            after_body,
            Ok::<MatchArmTree, Fault>(
                MatchArmTree {
                    pattern: p,
                    guard: if tok(ts, after_pattern.cur, TokenType::If) {
                        Some(guard)
                    } else {
                        None
                    },
                    body: body.0,
                },
            ),
        ),
{
    reveal(tok);
    match_arm_def(ts, st, start);
    match_guard_def(ts, after_pattern);
    nl_end_bounds(ts, after_guard.cur);
    match_arm_body_def(ts, skip_nl(ts, after_guard), start);
    block_or_statement_def(ts, skip_nl(ts, after_guard));
    reveal(unblock);
}

/// Arms stand in a match in the order of the source.
pub proof fn arms_keep_their_order(
    ts: Seq<&Token>,
    st: State,
    start: Span,
    before: Seq<MatchArmTree>,
    after_arm: State,
    arm: MatchArmTree,
)
    requires
        !tok(ts, st.cur, TokenType::CloseBrace),
        st.cur < ts.len(),
        reads(ts, st, match_arm(ts, st, start), after_arm, arm),
    ensures
        ({
            let s = skip_nl(ts, after_arm);
            let next = if tok(ts, s.cur, TokenType::Comma) {
                skip_nl(ts, s.next())
            } else {
                s
            };
            match_arms(ts, st, start, before) == match_arms(ts, next, start, before.push(arm))
        }),
        match_arms(ts, after_arm, start, before).1 is Ok && tok(
            ts,
            after_arm.cur,
            TokenType::CloseBrace,
        ) ==> match_arms(ts, after_arm, start, before) == (
            after_arm,
            Ok::<Seq<MatchArmTree>, Fault>(before),
        ),
{
    reveal(tok);
    match_arms_def(ts, st, start, before);
    match_arms_def(ts, after_arm, start, before);
    nl_end_bounds(ts, after_arm.cur);
    let s = skip_nl(ts, after_arm);
    if tok(ts, s.cur, TokenType::Comma) {
        nl_end_bounds(ts, s.cur + 1);
    }
}

/// `break` and `continue` are themselves inside of loops, and errors outside.
pub proof fn loop_exits_need_a_loop(ts: Seq<&Token>, st: State)
    requires
        st.loops >= 0,
    ensures
        tok(ts, st.cur, TokenType::Break) && st.loops > 0 ==> gives_statement(
            statement_content(ts, st),
            st.next(),
            StmtShape::Break,
        ),
        tok(ts, st.cur, TokenType::Continue) && st.loops > 0 ==> gives_statement(
            statement_content(ts, st),
            st.next(),
            StmtShape::Continue,
        ),
        (tok(ts, st.cur, TokenType::Break) || tok(ts, st.cur, TokenType::Continue)) && st.loops
            == 0 ==> statement_content(ts, st).1 is Err,
{
    reveal(tok);
    statement_content_def(ts, st);
}

/// `return` gives back the expression behind it, or nothing where the line or
/// the block ends.
pub proof fn return_has_its_value(ts: Seq<&Token>, st: State, after: State, value: ExprTree)
    requires
        tok(ts, st.cur, TokenType::Return),
    ensures
        (st.cur + 1 >= ts.len() || tok(ts, st.cur + 1, TokenType::NewLine) || tok(
            ts,
            st.cur + 1,
            TokenType::CloseBrace,
        )) ==> gives_statement(
            statement_content(ts, st),
            st.next(),
            StmtShape::Return(None),
        ),
        (st.cur + 1 < ts.len() && !tok(ts, st.cur + 1, TokenType::NewLine) && !tok(
            ts,
            st.cur + 1,
            TokenType::CloseBrace,
        ) && reads(ts, st.next(), expression(ts, st.next()), after, value) && nested_update(
            value,
        ) is None) ==> gives_statement(
            statement_content(ts, st),
            after,
            StmtShape::Return(Some(value)),
        ),
{
    reveal(tok);
    statement_content_def(ts, st);
    return_statement_def(ts, st.next());
}

/// `auto`, a name, `=` and an expression declare the name with the value.
pub proof fn auto_declares_its_name(ts: Seq<&Token>, st: State, after: State, value: ExprTree)
    requires
        tok(ts, st.cur, TokenType::Auto),
        is_id(ts, st.cur + 1),
        tok(ts, st.cur + 2, TokenType::Eq),
        reads(ts, st.at(st.cur + 3), expression(ts, st.at(st.cur + 3)), after, value),
        nested_update(value) is None,
        in_block(ts, after.cur),
    ensures
        ({
            let r = declaration_content(ts, st);
            &&& r.0 == skip_nl(ts, after)
            &&& r.1 matches Ok(Some(NodeTree::Statement(s))) && (s.kind matches StmtShape::AutoDecl(
                name,
                t,
                v,
            ) && name == ts[st.cur + 1].token_type->Id_0@ && t.kind == TypeShape::Auto && v
                == value)
        }),
{
    reveal(tok);
    declaration_content_def(ts, st);
    auto_declaration_def(ts, st);
}

/// `const`, a type, a name, `=` and an expression declare a constant.
pub proof fn const_declares_its_name(
    ts: Seq<&Token>,
    st: State,
    after_type: State,
    t: TypeTree,
    after: State,
    value: ExprTree,
)
    requires
        tok(ts, st.cur, TokenType::Const),
        reads(ts, st.next(), ty(ts, st.next()), after_type, t),
        is_id(ts, after_type.cur),
        tok(ts, after_type.cur + 1, TokenType::Eq),
        reads(
            ts,
            after_type.at(after_type.cur + 2),
            expression(ts, after_type.at(after_type.cur + 2)),
            after,
            value,
        ),
        nested_update(value) is None,
    ensures
        gives_declaration(
            declaration_content(ts, st),
            after,
            StmtShape::ConstDecl(ts[after_type.cur].token_type->Id_0@, t, value),
        ),
{
    reveal(tok);
    declaration_content_def(ts, st);
    const_declaration_def(ts, st);
}

/// A type and a name declare a variable, with the value behind `=` where there
/// is one.
pub proof fn type_declares_its_name(
    ts: Seq<&Token>,
    st: State,
    after_type: State,
    t: TypeTree,
    after: State,
    value: ExprTree,
)
    requires
        reads(ts, st, ty(ts, st), after_type, t),
        is_id(ts, after_type.cur),
    ensures
        !tok(ts, after_type.cur + 1, TokenType::Eq) ==> ({
            let r = typed_declaration(ts, st);
            &&& r.0 == after_type.next()
            &&& r.1 matches Ok(s) && s.kind == StmtShape::UninitDecl(
                ts[after_type.cur].token_type->Id_0@,
                t,
            )
        }),
        tok(ts, after_type.cur + 1, TokenType::Eq) && reads(
            ts,
            after_type.at(after_type.cur + 2),
            expression(ts, after_type.at(after_type.cur + 2)),
            after,
            value,
        ) && nested_update(value) is None ==> ({
            let r = typed_declaration(ts, st);
            &&& r.0 == after
            &&& r.1 matches Ok(s) && s.kind == StmtShape::TypedDecl(
                ts[after_type.cur].token_type->Id_0@,
                t,
                value,
            )
        }),
{
    reveal(tok);
    typed_declaration_def(ts, st);
}

/// `func`, a name, parameters in parentheses, `returns`, a type and a block
/// declare a function; `common` in front makes it one of its class.
pub proof fn function_has_its_parts(
    ts: Seq<&Token>,
    st: State,
    common: bool,
    generics: Seq<TypeParamTree>,
    after_generics: State,
    params: Seq<ParamTree>,
    after_params: State,
    return_type: TypeTree,
    after_type: State,
    body: (Seq<StmtTree>, Span),
    after: State,
)
    requires
        tok(ts, st.cur, if common { TokenType::Common } else { TokenType::Func }),
        common ==> tok(ts, st.cur + 1, TokenType::Func),
        ({
            let f = if common {
                st.next()
            } else {
                st
            };
            &&& is_id(ts, f.cur + 1)
            &&& type_params(ts, f.at(f.cur + 2), Bounds::Function) == (
                after_generics,
                Ok::<Seq<TypeParamTree>, Fault>(generics),
            )
            &&& f.cur + 2 <= after_generics.cur
        }),
        tok(ts, after_generics.cur, TokenType::OpenParen),
        function_params(ts, after_generics.next()) == (
            after_params,
            Ok::<Seq<ParamTree>, Fault>(params),
        ),
        after_generics.cur < after_params.cur,
        tok(ts, after_params.cur, TokenType::CloseParen),
        where_clause(ts, after_params.next()) == (
            after_params.next(),
            Ok::<Option<WhereClauseTree>, Fault>(None),
        ),
        tok(ts, after_params.cur + 1, TokenType::Returns),
        reads(
            ts,
            after_params.at(after_params.cur + 2),
            ty(ts, after_params.at(after_params.cur + 2)),
            after_type,
            return_type,
        ),
        reads(ts, skip_nl(ts, after_type), block(ts, skip_nl(ts, after_type)), after, body),
    ensures
        ({
            let f = if common {
                st.next()
            } else {
                st
            };
            let r = declaration_content(ts, st);
            &&& r.0 == after
            &&& r.1 matches Ok(Some(NodeTree::Function(d))) && d.name
                == ts[f.cur + 1].token_type->Id_0@ && d.type_params == generics && d.params
                == params && d.return_type == return_type && d.body == body.0 && d.is_common
                == common && d.where_clause is None
        }),
{
    reveal(tok);
    let f = if common {
        st.next()
    } else {
        st
    };
    declaration_content_def(ts, st);
    function_declaration_def(ts, f, common);
    nl_end_bounds(ts, after_type.cur);
}

/// A parameter is a type and a name, with the value behind `=` where there is
/// one; parameters keep the order of the source.
pub proof fn parameter_has_its_parts(
    ts: Seq<&Token>,
    st: State,
    defaults: bool,
    before: Seq<ParamTree>,
    after_type: State,
    t: TypeTree,
    after: State,
    d: Option<ExprTree>,
)
    requires
        reads(ts, st, ty(ts, st), after_type, t),
        is_id(ts, after_type.cur),
        param_default(ts, after_type.next(), defaults) == (
            after,
            Ok::<Option<ExprTree>, Fault>(d),
        ),
        after_type.cur < after.cur,
    ensures
        ({
            let p = ParamTree {
                name: ts[after_type.cur].token_type->Id_0@,
                type_: t,
                default_value: d,
            };
            &&& single_param(ts, st, defaults) == (after, Ok::<ParamTree, Fault>(p))
            &&& tok(ts, after.cur, TokenType::Comma) ==> function_params_from(
                ts,
                st,
                before,
                defaults,
            ) == function_params_from(ts, after.next(), before.push(p), defaults || d is Some)
            &&& !tok(ts, after.cur, TokenType::Comma) ==> function_params_from(
                ts,
                st,
                before,
                defaults,
            ) == (after, Ok::<Seq<ParamTree>, Fault>(before.push(p)))
        }),
{
    reveal(tok);
    single_param_def(ts, st, defaults);
    function_params_from_def(ts, st, before, defaults);
}

/// Behind an expression, parentheses call it, with the expressions between them
/// as arguments.
pub proof fn parentheses_call(
    ts: Seq<&Token>,
    st: State,
    e: ExprTree,
    after: State,
    args: Seq<ExprTree>,
)
    requires
        tok(ts, st.cur, TokenType::OpenParen),
        call_args(ts, st.next()) == (after, Ok::<Seq<ExprTree>, Fault>(args)),
        0 <= st.cur < after.cur,
        tok(ts, after.cur, TokenType::CloseParen),
    ensures
        exists|whole: ExprTree|
            whole.kind == (ExprShape::Call { func: Box::new(e), args }) && postfix(ts, st, e)
                == #[trigger] postfix(ts, after.next(), whole),
{
    reveal(tok);
    postfix_def(ts, st, e);
    call_rest_def(ts, st.next(), e);
    let whole = call_rest(ts, st.next(), e).1->Ok_0;
    assert(postfix(ts, st, e) == postfix(ts, after.next(), whole));
}

/// Arguments keep the order of the source.
pub proof fn arguments_keep_their_order(
    ts: Seq<&Token>,
    st: State,
    before: Seq<ExprTree>,
    after: State,
    e: ExprTree,
)
    requires
        0 <= st.cur <= ts.len(),
        reads(ts, skip_nl(ts, st), expression(ts, skip_nl(ts, st)), after, e),
    ensures
        ({
            let s = skip_nl(ts, after);
            let next = skip_nl(ts, s.next());
            &&& !tok(ts, s.cur, TokenType::Comma) ==> call_args_from(ts, st, before) == (
                s,
                Ok::<Seq<ExprTree>, Fault>(before.push(e)),
            )
            &&& tok(ts, s.cur, TokenType::Comma) && !tok(ts, next.cur, TokenType::CloseParen)
                ==> call_args_from(ts, st, before) == call_args_from(ts, next, before.push(e))
        }),
{
    reveal(tok);
    call_args_from_def(ts, st, before);
    nl_end_bounds(ts, st.cur);
    nl_end_bounds(ts, after.cur);
    let s = skip_nl(ts, after);
    if tok(ts, s.cur, TokenType::Comma) {
        nl_end_bounds(ts, s.cur + 1);
    }
}

/// Behind an expression, a dot and a name read a field of it.
pub proof fn dot_reads_a_field(ts: Seq<&Token>, st: State, e: ExprTree)
    requires
        tok(ts, st.cur, TokenType::Dot),
        is_id(ts, st.cur + 1),
    ensures
        exists|whole: ExprTree|
            whole.kind == (ExprShape::FieldAccess {
                expr: Box::new(e),
                field: ts[st.cur + 1].token_type->Id_0@,
            }) && postfix(ts, st, e) == #[trigger] postfix(ts, st.at(st.cur + 2), whole),
{
    reveal(tok);
    postfix_def(ts, st, e);
    let whole = field_rest(ts, st.next(), e).1->Ok_0;
    assert(postfix(ts, st, e) == postfix(ts, st.at(st.cur + 2), whole));
}

/// Behind an expression, an expression in brackets is an index into it.
pub proof fn brackets_index(
    ts: Seq<&Token>,
    st: State,
    e: ExprTree,
    after: State,
    index: ExprTree,
)
    requires
        tok(ts, st.cur, TokenType::OpenBracket),
        !tok(ts, st.cur + 1, TokenType::Colon),
        reads(ts, st.next(), expression(ts, st.next()), after, index),
        tok(ts, after.cur, TokenType::CloseBracket),
    ensures
        exists|whole: ExprTree|
            whole.kind == (ExprShape::ListAccess { expr: Box::new(e), index: Box::new(index) })
                && postfix(ts, st, e) == #[trigger] postfix(ts, after.next(), whole),
{
    reveal(tok);
    postfix_def(ts, st, e);
    index_or_slice_def(ts, st.next(), e);
    let whole = index_or_slice(ts, st.next(), e).1->Ok_0;
    assert(postfix(ts, st, e) == postfix(ts, after.next(), whole));
}

/// Behind an expression, two expressions in brackets with a colon between them
/// cut a slice out of it, from the first up to the second.
pub proof fn brackets_slice(
    ts: Seq<&Token>,
    st: State,
    e: ExprTree,
    after_from: State,
    from: ExprTree,
    after_to: State,
    to: ExprTree,
)
    requires
        tok(ts, st.cur, TokenType::OpenBracket),
        !tok(ts, st.cur + 1, TokenType::Colon),
        reads(ts, st.next(), expression(ts, st.next()), after_from, from),
        tok(ts, after_from.cur, TokenType::Colon),
        !tok(ts, after_from.cur + 1, TokenType::CloseBracket),
        reads(ts, after_from.next(), expression(ts, after_from.next()), after_to, to),
        tok(ts, after_to.cur, TokenType::CloseBracket),
    ensures
        exists|whole: ExprTree|
            whole.kind == (ExprShape::Slice {
                expr: Box::new(e),
                start: Some(Box::new(from)),
                end: Some(Box::new(to)),
            }) && postfix(ts, st, e) == #[trigger] postfix(ts, after_to.next(), whole),
{
    reveal(tok);
    postfix_def(ts, st, e);
    index_or_slice_def(ts, st.next(), e);
    slice_def(ts, after_from.next(), e, Some(Box::new(from)));
    let whole = index_or_slice(ts, st.next(), e).1->Ok_0;
    assert(postfix(ts, st, e) == postfix(ts, after_to.next(), whole));
}

/// A bound that is not written is left out of a slice: the first one in front of
/// the colon, the second one behind it.
pub proof fn brackets_slice_open(
    ts: Seq<&Token>,
    st: State,
    e: ExprTree,
    after: State,
    bound: ExprTree,
)
    requires
        tok(ts, st.cur, TokenType::OpenBracket),
    ensures
        tok(ts, st.cur + 1, TokenType::Colon) && !tok(ts, st.cur + 2, TokenType::CloseBracket)
            && reads(ts, st.at(st.cur + 2), expression(ts, st.at(st.cur + 2)), after, bound) && tok(
            ts,
            after.cur,
            TokenType::CloseBracket,
        ) ==> exists|whole: ExprTree|
            whole.kind == (ExprShape::Slice {
                expr: Box::new(e),
                start: None,
                end: Some(Box::new(bound)),
            }) && postfix(ts, st, e) == #[trigger] postfix(ts, after.next(), whole),
        !tok(ts, st.cur + 1, TokenType::Colon) && reads(
            ts,
            st.next(),
            expression(ts, st.next()),
            after,
            bound,
        ) && tok(ts, after.cur, TokenType::Colon) && tok(
            ts,
            after.cur + 1,
            TokenType::CloseBracket,
        ) ==> exists|whole: ExprTree|
            whole.kind == (ExprShape::Slice {
                expr: Box::new(e),
                start: Some(Box::new(bound)),
                end: None,
            }) && postfix(ts, st, e) == #[trigger] postfix(ts, after.at(after.cur + 2), whole),
{
    reveal(tok);
    postfix_def(ts, st, e);
    index_or_slice_def(ts, st.next(), e);
    let whole = index_or_slice(ts, st.next(), e).1->Ok_0;
    if tok(ts, st.cur + 1, TokenType::Colon) {
        slice_def(ts, st.at(st.cur + 2), e, None);
        assert(st.next().next() == st.at(st.cur + 2));
        if !tok(ts, st.cur + 2, TokenType::CloseBracket) && reads(
            ts,
            st.at(st.cur + 2),
            expression(ts, st.at(st.cur + 2)),
            after,
            bound,
        ) && tok(ts, after.cur, TokenType::CloseBracket) {
            assert(postfix(ts, st, e) == postfix(ts, after.next(), whole));
        }
    } else if reads(ts, st.next(), expression(ts, st.next()), after, bound) && tok(
        ts,
        after.cur,
        TokenType::Colon,
    ) && tok(ts, after.cur + 1, TokenType::CloseBracket) {
        slice_def(ts, after.next(), e, Some(Box::new(bound)));
        assert(postfix(ts, st, e) == postfix(ts, after.at(after.cur + 2), whole));
    }
}

/// Behind an expression, `++` and `--` are updates of it.
pub proof fn updates_follow_their_operand(ts: Seq<&Token>, st: State, e: ExprTree)
    requires
        0 <= st.cur < ts.len(),
        tok(ts, st.cur, TokenType::Incr) || tok(ts, st.cur, TokenType::Decr),
    ensures
        exists|whole: ExprTree|
            (whole.kind matches ExprShape::Unary { op, op_span, expr, postfix: behind } && *expr == e
                && behind && op == (if tok(ts, st.cur, TokenType::Incr) {
                crate::ast::operators::UnaryOp::Incr
            } else {
                crate::ast::operators::UnaryOp::Decr
            })) && postfix(ts, st, e) == #[trigger] postfix(ts, st.next(), whole),
{
    reveal(tok);
    postfix_def(ts, st, e);
    let op = if tok(ts, st.cur, TokenType::Incr) {
        crate::ast::operators::UnaryOp::Incr
    } else {
        crate::ast::operators::UnaryOp::Decr
    };
    let whole = ExprTree {
        kind: ExprShape::Unary {
            op,
            op_span: ts[st.cur].span,
            expr: Box::new(e),
            postfix: true,
        },
        span: crate::ast::operators::combine(e.span, ts[st.cur].span),
    };
    assert(postfix(ts, st, e) == postfix(ts, st.next(), whole));
}

/// An expression in parentheses is that expression.
pub proof fn parentheses_group(ts: Seq<&Token>, st: State, after: State, e: ExprTree)
    requires
        tok(ts, st.cur, TokenType::OpenParen),
        0 <= st.cur,
        !tok(ts, skip_nl(ts, st.next()).cur, TokenType::CloseParen),
        reads(
            ts,
            skip_nl(ts, st.next()),
            expression(ts, skip_nl(ts, st.next())),
            after,
            e,
        ),
        tok(ts, skip_nl(ts, after).cur, TokenType::CloseParen),
    ensures
        primary(ts, st) == postfix(ts, skip_nl(ts, after).next(), e),
{
    reveal(tok);
    primary_def(ts, st);
    parenthesized_def(ts, st.next(), ts[st.cur].span);
    nl_end_bounds(ts, st.cur + 1);
    nl_end_bounds(ts, after.cur);
}

/// Two expressions in parentheses with a comma between them are a pair, in the
/// order of the source.
pub proof fn parentheses_pair(
    ts: Seq<&Token>,
    st: State,
    after_first: State,
    first: ExprTree,
    after_second: State,
    second: ExprTree,
)
    requires
        tok(ts, st.cur, TokenType::OpenParen),
        0 <= st.cur,
        !tok(ts, skip_nl(ts, st.next()).cur, TokenType::CloseParen),
        reads(
            ts,
            skip_nl(ts, st.next()),
            expression(ts, skip_nl(ts, st.next())),
            after_first,
            first,
        ),
        tok(ts, skip_nl(ts, after_first).cur, TokenType::Comma),
        ({
            let s = skip_nl(ts, skip_nl(ts, after_first).next());
            &&& !tok(ts, s.cur, TokenType::CloseParen)
            &&& reads(ts, s, expression(ts, s), after_second, second)
        }),
        tok(ts, skip_nl(ts, after_second).cur, TokenType::CloseParen),
    ensures
        exists|whole: ExprTree|
            whole.kind == ExprShape::TupleLiteral(seq![first, second]) && primary(ts, st)
                == #[trigger] postfix(ts, skip_nl(ts, after_second).next(), whole),
{
    reveal(tok);
    primary_def(ts, st);
    parenthesized_def(ts, st.next(), ts[st.cur].span);
    nl_end_bounds(ts, st.cur + 1);
    nl_end_bounds(ts, after_first.cur);
    nl_end_bounds(ts, skip_nl(ts, after_first).cur + 1);
    nl_end_bounds(ts, after_second.cur);
    let end = skip_nl(ts, after_second).next();
    let whole = ExprTree {
        kind: ExprShape::TupleLiteral(seq![first, second]),
        span: crate::ast::operators::combine(
            ts[st.cur].span,
            crate::parser::state::before(ts, end.cur).span,
        ),
    };
    assert(primary(ts, st) == postfix(ts, end, whole));
}

/// The elements of a list keep the order of the source.
pub proof fn elements_keep_their_order(
    ts: Seq<&Token>,
    st: State,
    before: Seq<ExprTree>,
    after: State,
    e: ExprTree,
)
    requires
        reads(ts, st, expression(ts, st), after, e),
        !tok(ts, after.cur, TokenType::NewLine),
    ensures
        ({
            let next = skip_nl(ts, after.next());
            &&& tok(ts, after.cur, TokenType::Comma) && !tok(
                ts,
                next.cur,
                TokenType::CloseBracket,
            ) ==> list_elements_from(ts, st, before) == list_elements_from(
                ts,
                next,
                before.push(e),
            )
            &&& tok(ts, after.cur, TokenType::CloseBracket) ==> list_elements_from(ts, st, before)
                == (after, Ok::<Seq<ExprTree>, Fault>(before.push(e)))
        }),
{
    reveal(tok);
    list_elements_from_def(ts, st, before);
    nl_end_bounds(ts, after.cur);
    assert(skip_nl(ts, after) == after);
    if tok(ts, after.cur, TokenType::Comma) {
        nl_end_bounds(ts, after.cur + 1);
    }
}

/// An entry of a map is a key, a colon and a value; entries keep the order of
/// the source.
pub proof fn entries_keep_their_order(
    ts: Seq<&Token>,
    st: State,
    before: Seq<MapEntryTree>,
    after_key: State,
    key: ExprTree,
    after: State,
    value: ExprTree,
)
    requires
        0 <= st.cur,
        tok(ts, st.cur, TokenType::Comma),
        ({
            let s = skip_nl(ts, st.next());
            &&& !tok(ts, s.cur, TokenType::CloseBrace)
            &&& reads(ts, s, expression(ts, s), after_key, key)
        }),
        tok(ts, after_key.cur, TokenType::Colon),
        reads(ts, after_key.next(), expression(ts, after_key.next()), after, value),
    ensures
        map_entries(ts, st, before) == map_entries(
            ts,
            after,
            before.push(MapEntryTree { key, value }),
        ),
{
    reveal(tok);
    map_entries_def(ts, st, before);
    nl_end_bounds(ts, st.cur);
    nl_end_bounds(ts, st.cur + 1);
    assert(skip_nl(ts, st) == st);
}

/// `if` as an expression: the block behind the condition holds the value where
/// it holds, the block behind `else` the value where it does not.
pub proof fn if_expression_has_its_branches(
    ts: Seq<&Token>,
    st: State,
    start: Span,
    after_cond: State,
    cond: ExprTree,
    after_then: State,
    yes: ExprTree,
    after: State,
    no: ExprTree,
)
    requires
        reads(ts, st, expression(ts, st), after_cond, cond),
        reads(
            ts,
            after_cond,
            branch(ts, after_cond, "then expression"@),
            after_then,
            yes,
        ),
        tok(ts, skip_nl(ts, after_then).cur, TokenType::Else),
        ({
            let s = skip_nl(ts, skip_nl(ts, after_then).next());
            &&& !tok(ts, s.cur, TokenType::If)
            &&& reads(ts, s, branch(ts, s, "else expression"@), after, no)
        }),
    ensures
        gives_expression(
            if_expression(ts, st, start),
            after,
            ExprShape::If {
                cond: Box::new(cond),
                then_expr: Box::new(yes),
                else_expr: Box::new(no),
            },
        ),
{
    reveal(tok);
    if_expression_def(ts, st, start);
    nl_end_bounds(ts, after_then.cur);
    nl_end_bounds(ts, skip_nl(ts, after_then).cur + 1);
}

/// `enum`, a name and variants in braces declare an enum.
pub proof fn enum_has_its_variants(
    ts: Seq<&Token>,
    st: State,
    after_generics: State,
    generics: Seq<TypeParamTree>,
    after: State,
    variants: Seq<EnumVariantTree>,
)
    requires
        tok(ts, st.cur, TokenType::Enum),
        is_id(ts, st.cur + 1),
        type_params(ts, st.at(st.cur + 2), Bounds::Colon) == (
            after_generics,
            Ok::<Seq<TypeParamTree>, Fault>(generics),
        ),
        st.cur + 2 <= after_generics.cur,
        tok(ts, after_generics.cur, TokenType::OpenBrace),
        enum_variants(ts, skip_nl(ts, after_generics.next()), seq![]) == (
            after,
            Ok::<Seq<EnumVariantTree>, Fault>(variants),
        ),
        tok(ts, after.cur, TokenType::CloseBrace),
    ensures
        ({
            let r = declaration_content(ts, st);
            &&& r.0 == after.next()
            &&& r.1 matches Ok(Some(NodeTree::Enum { name, type_params, variants: vs, span })) && name
                == ts[st.cur + 1].token_type->Id_0@ && type_params == generics && vs == variants
        }),
{
    reveal(tok);
    declaration_content_def(ts, st);
    enum_declaration_def(ts, st);
    nl_end_bounds(ts, after_generics.cur + 1);
}

/// Variants keep the order of the source.
pub proof fn variants_keep_their_order(
    ts: Seq<&Token>,
    st: State,
    before: Seq<EnumVariantTree>,
    after: State,
    v: EnumVariantTree,
)
    requires
        !tok(ts, st.cur, TokenType::CloseBrace),
        reads(ts, st, enum_variant(ts, st), after, v),
    ensures
        tok(ts, after.cur, TokenType::Comma) ==> enum_variants(ts, st, before) == enum_variants(
            ts,
            skip_nl(ts, after.next()),
            before.push(v),
        ),
        !tok(ts, after.cur, TokenType::Comma) ==> enum_variants(ts, st, before) == (
            skip_nl(ts, after),
            Ok::<Seq<EnumVariantTree>, Fault>(before.push(v)),
        ),
{
    reveal(tok);
    enum_variants_def(ts, st, before);
    if tok(ts, after.cur, TokenType::Comma) {
        nl_end_bounds(ts, after.cur + 1);
    }
}

/// What is declared in a block keeps the order of the source.
pub proof fn blocks_keep_their_order(
    ts: Seq<&Token>,
    st: State,
    before: Seq<NodeTree>,
    after: State,
    node: NodeTree,
)
    requires
        0 <= st.cur < ts.len(),
        !tok(ts, st.cur, TokenType::CloseBrace),
        !tok(ts, st.cur, TokenType::NewLine),
        reads(ts, st, declaration(ts, st), after, Some(node)),
    ensures
        block_nodes(ts, st, before) == block_nodes(ts, skip_nl(ts, after), before.push(node)),
        node matches NodeTree::Statement(s) ==> statements_in(before.push(node)) == statements_in(
            before,
        ).push(s),
{
    reveal(tok);
    block_nodes_def(ts, st, before);
    nl_end_bounds(ts, st.cur);
    nl_end_bounds(ts, after.cur);
    assert(skip_nl(ts, st) == st);
    reveal_with_fuel(statements_in, 2);
    assert(before.push(node).drop_last() =~= before);
}

} // verus!
