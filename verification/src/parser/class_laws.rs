//! Which part of the source becomes which part of a class, a field, a lambda, a
//! where clause or a collection.

use crate::ast::tree::{
    ExprShape, ExprTree, FieldTree, FunctionTree, MapEntryTree, NodeTree, ParamTree, StmtTree,
    TraitRefTree, TypeParamTree, TypeTree, WhereClauseTree,
};
use crate::lexer::{Span, Token, TokenType};
use crate::parser::error::Fault;
use crate::parser::grammar::{
    block, class_body, class_body_def, class_declaration, class_declaration_def, class_member,
    class_member_def, collection, collection_def, expression, field_declaration,
    field_declaration_def, field_default, function_declaration, lambda, lambda_def, lambda_params,
    lambda_params_from, map_entries, postfix, reserved_method, same_line_where, set_entries,
    where_clause, where_clause_def, where_predicates, where_predicates_def, Member,
};
use crate::parser::shape_laws::{gives_expression, reads};
use crate::parser::state::{nl_end_bounds, skip_nl, tok, State};
use crate::parser::type_grammar::{trait_list, ty, type_params, Bounds};
use crate::parser::type_laws::word_at;
use vstd::prelude::*;

verus! {

/// A class has the name behind `class`, the parameters and traits behind that,
/// the members in its braces, and the constraints behind them.
pub proof fn class_has_its_parts(
    ts: Seq<&Token>,
    st: State,
    word: Seq<char>,
    after_params: State,
    params: Seq<TypeParamTree>,
    after_traits: State,
    traits: Seq<TraitRefTree>,
    after_body: State,
    fields: Seq<FieldTree>,
    methods: Seq<FunctionTree>,
    after: State,
    clause: Option<WhereClauseTree>,
)
    requires
        tok(ts, st.cur, TokenType::Class),
        word_at(ts, st.cur + 1, word),
        type_params(ts, st.at(st.cur + 2), Bounds::Class) == (
            after_params,
            Ok::<Seq<TypeParamTree>, Fault>(params),
        ),
        trait_list(ts, after_params) == (after_traits, Ok::<Seq<TraitRefTree>, Fault>(traits)),
        st.cur < after_traits.cur,
        tok(ts, after_traits.cur, TokenType::OpenBrace),
        class_body(ts, after_traits.next(), params, seq![], seq![]) == (
            after_body,
            Ok::<(Seq<FieldTree>, Seq<FunctionTree>), Fault>((fields, methods)),
        ),
        st.cur < after_body.cur,
        tok(ts, after_body.cur, TokenType::CloseBrace),
        where_clause(ts, after_body.next()) == (after, Ok::<Option<WhereClauseTree>, Fault>(clause)),
    ensures
        class_declaration(ts, st).0 == after,
        class_declaration(ts, st).1 matches Ok(
            NodeTree::Class { name, type_params: ps, traits: rs, fields: fs, methods: ms, where_clause: w, span },
        ) && name == word && ps == params && rs == traits && fs == fields && ms == methods && w
            == clause,
{
    reveal(tok);
    class_declaration_def(ts, st);
    assert(st.next().next() == st.at(st.cur + 2));
}

/// The members of a class stay in the order in which they are written, fields
/// among fields and methods among methods.
pub proof fn members_keep_their_order(
    ts: Seq<&Token>,
    st: State,
    params: Seq<TypeParamTree>,
    fields: Seq<FieldTree>,
    methods: Seq<FunctionTree>,
    after: State,
    m: Member,
)
    requires
        !tok(ts, st.cur, TokenType::CloseBrace),
        reads(ts, st, class_member(ts, st, params), after, m),
    ensures
        m matches Member::Field(f) ==> class_body(ts, st, params, fields, methods) == class_body(
            ts,
            after,
            params,
            fields.push(f),
            methods,
        ),
        m matches Member::Method(f) ==> class_body(ts, st, params, fields, methods) == class_body(
            ts,
            after,
            params,
            fields,
            methods.push(f),
        ),
{
    class_body_def(ts, st, params, fields, methods);
}

/// A member that starts with `func` is a method, one with `common` in front a
/// method of the class itself; any other starts with its type or `const` and is
/// a field.
pub proof fn members_are_told_apart(
    ts: Seq<&Token>,
    st: State,
    params: Seq<TypeParamTree>,
    after: State,
    f: FunctionTree,
    field: FieldTree,
)
    requires
        0 <= st.cur < ts.len(),
        reserved_method(f.name) is None,
    ensures
        ts[st.cur].token_type is Func && function_declaration(ts, st, false) == (
            after,
            Ok::<FunctionTree, Fault>(f),
        ) ==> class_member(ts, st, params) == (after, Ok::<Member, Fault>(Member::Method(f))),
        ts[st.cur].token_type is Common && function_declaration(ts, st.next(), true) == (
            after,
            Ok::<FunctionTree, Fault>(f),
        ) ==> class_member(ts, st, params) == (after, Ok::<Member, Fault>(Member::Method(f))),
        (ts[st.cur].token_type is Id || ts[st.cur].token_type is Const) && field_declaration(
            ts,
            st,
            params,
        ) == (after, Ok::<FieldTree, Fault>(field)) ==> class_member(ts, st, params) == (
            after,
            Ok::<Member, Fault>(Member::Field(field)),
        ),
{
    class_member_def(ts, st, params);
}

/// A field has its type, the name behind that, and then its first value and its
/// constraints. It is constant where `const` stands in front, and then has a
/// first value.
pub proof fn field_has_its_parts(
    ts: Seq<&Token>,
    st: State,
    params: Seq<TypeParamTree>,
    from: State,
    after_type: State,
    t: TypeTree,
    word: Seq<char>,
    after_default: State,
    default_value: Option<ExprTree>,
    after: State,
    clause: Option<WhereClauseTree>,
)
    requires
        from == (if tok(ts, st.cur, TokenType::Const) {
            st.next()
        } else {
            st
        }),
        reads(ts, from, ty(ts, from), after_type, t),
        word_at(ts, after_type.cur, word),
        field_default(ts, after_type.next()) == (
            after_default,
            Ok::<Option<ExprTree>, Fault>(default_value),
        ),
        after_type.cur < after_default.cur <= ts.len(),
        same_line_where(ts, after_default) == (after, Ok::<Option<WhereClauseTree>, Fault>(clause)),
    ensures
        tok(ts, st.cur, TokenType::Const) && default_value is None ==> field_declaration(
            ts,
            st,
            params,
        ).1 is Err,
        !(tok(ts, st.cur, TokenType::Const) && default_value is None) ==> {
            &&& field_declaration(ts, st, params).0 == after
            &&& field_declaration(ts, st, params).1 matches Ok(f) && f.name == word && f.type_ == t
                && f.is_const == tok(ts, st.cur, TokenType::Const) && f.default_value
                == default_value && f.where_clause == clause
        },
{
    reveal(tok);
    field_declaration_def(ts, st, params);
}

/// A lambda has the parameters in its parentheses, the type behind `returns` and
/// the block behind that.
pub proof fn lambda_has_its_parts(
    ts: Seq<&Token>,
    st: State,
    start: Span,
    after_params: State,
    params: Seq<ParamTree>,
    after_type: State,
    t: TypeTree,
    after: State,
    body: (Seq<StmtTree>, Span),
)
    requires
        tok(ts, st.cur, TokenType::OpenParen),
        lambda_params(ts, st.next()) == (after_params, Ok::<Seq<ParamTree>, Fault>(params)),
        st.cur < after_params.cur,
        tok(ts, after_params.cur, TokenType::CloseParen),
        where_clause(ts, after_params.next()) == (
            after_params.next(),
            Ok::<Option<WhereClauseTree>, Fault>(None),
        ),
        tok(ts, after_params.cur + 1, TokenType::Returns),
        reads(
            ts,
            after_params.at(after_params.cur + 2),
            ty(ts, after_params.at(after_params.cur + 2)),
            after_type,
            t,
        ),
        reads(ts, after_type, block(ts, after_type), after, body),
    ensures
        exists|whole: ExprTree|
            whole.kind == (ExprShape::Lambda {
                params,
                return_type: t,
                body: body.0,
                where_clause: None,
            }) && lambda(ts, st, start) == #[trigger] postfix(ts, after, whole),
{
    reveal(tok);
    lambda_def(ts, st, start);
    assert(after_params.next().next() == after_params.at(after_params.cur + 2));
    let whole = ExprTree {
        kind: ExprShape::Lambda { params, return_type: t, body: body.0, where_clause: None },
        span: crate::ast::combine(start, crate::parser::grammar::last_span(body.0, start)),
    };
    assert(lambda(ts, st, start) == postfix(ts, after, whole));
}

/// The parameters of a lambda stay in the order in which they are written, each
/// with the type in front of it.
pub proof fn lambda_parameters_keep_their_order(
    ts: Seq<&Token>,
    st: State,
    before: Seq<ParamTree>,
    after: State,
    t: TypeTree,
    word: Seq<char>,
)
    requires
        reads(ts, st, ty(ts, st), after, t),
        word_at(ts, after.cur, word),
        !tok(ts, after.cur + 1, TokenType::Eq),
    ensures
        ({
            let more = before.push((ParamTree { name: word, type_: t, default_value: None }));
            &&& !tok(ts, after.cur + 1, TokenType::Comma) ==> lambda_params_from(ts, st, before)
                == (after.next(), Ok::<Seq<ParamTree>, Fault>(more))
            &&& tok(ts, after.cur + 1, TokenType::Comma) ==> lambda_params_from(ts, st, before)
                == lambda_params_from(ts, skip_nl(ts, after.next().next()), more)
        }),
{
    reveal(tok);
    reveal(lambda_params_from);
    if tok(ts, after.cur + 1, TokenType::Comma) {
        nl_end_bounds(ts, after.cur + 2);
    }
}

/// A where clause holds the predicates in its braces, at least one.
pub proof fn where_clause_has_its_predicates(
    ts: Seq<&Token>,
    st: State,
    after: State,
    predicates: Seq<ExprTree>,
)
    requires
        0 <= st.cur <= ts.len(),
        tok(ts, skip_nl(ts, st).cur, TokenType::Where),
        ({
            let open = skip_nl(ts, skip_nl(ts, st).next());
            &&& tok(ts, open.cur, TokenType::OpenBrace)
            &&& where_predicates(ts, open.next(), seq![]) == (
                after,
                Ok::<Seq<ExprTree>, Fault>(predicates),
            )
        }),
        tok(ts, skip_nl(ts, after).cur, TokenType::CloseBrace),
    ensures
        where_clause(ts, st).0 == skip_nl(ts, after).next(),
        predicates.len() == 0 ==> where_clause(ts, st).1 is Err,
        predicates.len() > 0 ==> (where_clause(ts, st).1 matches Ok(Some(c)) && c.predicates
            == predicates),
{
    reveal(tok);
    where_clause_def(ts, st);
    nl_end_bounds(ts, st.cur);
    let w = skip_nl(ts, st);
    nl_end_bounds(ts, w.cur + 1);
}

/// Without `where` there is no clause, and nothing is read.
pub proof fn no_where_no_clause(ts: Seq<&Token>, st: State)
    requires
        !tok(ts, skip_nl(ts, st).cur, TokenType::Where),
    ensures
        where_clause(ts, st) == (st, Ok::<Option<WhereClauseTree>, Fault>(None)),
{
    where_clause_def(ts, st);
}

/// Predicates stay in the order in which they are written.
pub proof fn predicates_keep_their_order(
    ts: Seq<&Token>,
    st: State,
    before: Seq<ExprTree>,
    after: State,
    e: ExprTree,
)
    requires
        0 <= st.cur <= ts.len(),
        !tok(ts, skip_nl(ts, st).cur, TokenType::CloseBrace),
        reads(ts, skip_nl(ts, st), expression(ts, skip_nl(ts, st)), after, e),
    ensures
        ({
            let s = skip_nl(ts, after);
            &&& !tok(ts, s.cur, TokenType::Comma) ==> where_predicates(ts, st, before) == (
                s,
                Ok::<Seq<ExprTree>, Fault>(before.push(e)),
            )
            &&& tok(ts, s.cur, TokenType::Comma) ==> where_predicates(ts, st, before)
                == where_predicates(ts, s.next(), before.push(e))
        }),
{
    reveal(tok);
    where_predicates_def(ts, st, before);
    nl_end_bounds(ts, st.cur);
    nl_end_bounds(ts, after.cur);
}

/// Empty braces are the empty set.
pub proof fn empty_braces_are_a_set(ts: Seq<&Token>, st: State, start: Span)
    requires
        0 <= st.cur <= ts.len(),
        tok(ts, skip_nl(ts, st).cur, TokenType::CloseBrace),
    ensures
        gives_expression(
            collection(ts, st, start),
            skip_nl(ts, st).next(),
            ExprShape::SetLiteral(seq![]),
        ),
{
    collection_def(ts, st, start);
}

/// Braces around an expression are a set; behind an expression and a colon they
/// hold a map, whose first entry leads from the one in front of the colon to
/// the one behind it.
pub proof fn colon_makes_a_map(
    ts: Seq<&Token>,
    st: State,
    start: Span,
    after_first: State,
    first: ExprTree,
    after_value: State,
    value: ExprTree,
    after: State,
    entries: Seq<MapEntryTree>,
    elements: Seq<ExprTree>,
)
    requires
        0 <= st.cur <= ts.len(),
        !tok(ts, skip_nl(ts, st).cur, TokenType::CloseBrace),
        !tok(ts, skip_nl(ts, st).cur, TokenType::Colon),
        reads(ts, skip_nl(ts, st), expression(ts, skip_nl(ts, st)), after_first, first),
        tok(ts, after.cur, TokenType::CloseBrace),
    ensures
        tok(ts, after_first.cur, TokenType::Colon) && reads(
            ts,
            after_first.next(),
            expression(ts, after_first.next()),
            after_value,
            value,
        ) && map_entries(ts, after_value, seq![(MapEntryTree { key: first, value })]) == (
            after,
            Ok::<Seq<MapEntryTree>, Fault>(entries),
        ) ==> {
            &&& collection(ts, st, start).0 == after.next()
            &&& collection(ts, st, start).1 matches Ok(e) && (e.kind matches ExprShape::MapLiteral {
                key_type,
                value_type,
                entries: es,
            } && es == entries)
        },
        !tok(ts, after_first.cur, TokenType::Colon) && set_entries(ts, after_first, seq![first])
            == (after, Ok::<Seq<ExprTree>, Fault>(elements)) ==> gives_expression(
            collection(ts, st, start),
            after.next(),
            ExprShape::SetLiteral(elements),
        ),
{
    reveal(tok);
    collection_def(ts, st, start);
    nl_end_bounds(ts, st.cur);
}

} // verus!
