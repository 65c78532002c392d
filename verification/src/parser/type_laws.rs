//! Which part of the source becomes which part of a type, a pattern or an
//! import.

use crate::ast::tree::{
    ImportItemTree, ImportSpecTree, LiteralTree, PatternTree, StmtShape, TraitBoundTree, TypeParamTree,
    TypeShape, TypeTree,
};
use crate::ast::PrimitiveType;
use crate::lexer::{Token, TokenType};
use crate::parser::error::Fault;
use crate::parser::shape_laws::reads;
use crate::parser::state::{is_id, nl_end_bounds, skip_nl, tok, State};
use crate::parser::type_grammar::{
    bounds_in, container_type, fn_type_params, fn_type_params_from, import_alias,
    import_declaration, import_items, import_items_from, import_path, import_spec, last_segment,
    list_pattern, list_pattern_from, named_type, optional_type_args, path_from, path_prefix,
    pattern, pattern_args, pattern_args_from, qualified_name, ty, type_args, type_params_from,
    Bounds,
};
use vstd::prelude::*;

verus! {

/// A word stands at `p`.
pub open spec fn word_at(ts: Seq<&Token>, p: int, word: Seq<char>) -> bool {
    is_id(ts, p) && ts[p].token_type->Id_0@ == word
}

/// A type of a shape is read from a state on, up to another.
pub open spec fn gives_type(ts: Seq<&Token>, from: State, to: State, shape: TypeShape) -> bool {
    &&& ty(ts, from).0 == to
    &&& ty(ts, from).1 matches Ok(t) && t.kind == shape
}

/// An ampersand in front of a type makes a reference to it.
pub proof fn ampersand_makes_a_reference(ts: Seq<&Token>, st: State, after: State, t: TypeTree)
    requires
        tok(ts, st.cur, TokenType::Ref),
        reads(ts, st.next(), ty(ts, st.next()), after, t),
    ensures
        gives_type(ts, st, after, TypeShape::Reference(Box::new(t))),
{
    reveal(tok);
    reveal(ty);
    reveal(named_type);
    reveal(fn_type_params);
}

proof fn plain_name(ts: Seq<&Token>, st: State, name: Seq<char>)
    requires
        !tok(ts, st.cur, TokenType::Dot),
    ensures
        qualified_name(ts, st, name) == (st, Ok::<Seq<char>, Fault>(name)),
{
    reveal(qualified_name);
}

proof fn starts_with_word(ts: Seq<&Token>, st: State, word: Seq<char>)
    requires
        word_at(ts, st.cur, word),
        !tok(ts, st.cur + 1, TokenType::Dot),
        0 <= st.cur < ts.len(),
    ensures
        ty(ts, st) == named_type(ts, st.next(), word, ts[st.cur].span),
        qualified_name(ts, st.next(), word) == (st.next(), Ok::<Seq<char>, Fault>(word)),
{
    reveal(tok);
    reveal(ty);
    reveal(named_type);
    reveal(fn_type_params);
    plain_name(ts, st.next(), word);
}

/// The word of a primitive type is that type.
pub proof fn word_names_a_type(ts: Seq<&Token>, st: State, word: Seq<char>, p: PrimitiveType)
    requires
        word_at(ts, st.cur, word),
        !tok(ts, st.cur + 1, TokenType::Dot),
        PrimitiveType::named(word) == Some(p),
    ensures
        gives_type(ts, st, st.next(), TypeShape::Primitive(p)),
{
    starts_with_word(ts, st, word);
    reveal(named_type);
    reveal(container_type);
    reveal(optional_type_args);
}

proof fn container_words()
    ensures
        PrimitiveType::named("list"@) is None,
        PrimitiveType::named("set"@) is None,
        PrimitiveType::named("map"@) is None,
        PrimitiveType::named("tuple"@) is None,
        "list"@ != "set"@ && "list"@ != "map"@ && "list"@ != "tuple"@,
        "set"@ != "map"@ && "set"@ != "tuple"@ && "map"@ != "tuple"@,
{
    reveal_strlit("list");
    reveal_strlit("set");
    reveal_strlit("map");
    reveal_strlit("tuple");
    reveal_strlit("int");
    reveal_strlit("float");
    reveal_strlit("bool");
    reveal_strlit("char");
    reveal_strlit("string");
    reveal_strlit("void");
    assert("list"@.len() == 4 && "list"@[0] == 'l');
    assert("bool"@[0] == 'b' && "char"@[0] == 'c' && "void"@[0] == 'v');
    assert("set"@.len() == 3 && "set"@[0] == 's');
    assert("map"@.len() == 3 && "map"@[0] == 'm');
    assert("int"@.len() == 3 && "int"@[0] == 'i');
    assert("tuple"@.len() == 5 && "tuple"@[0] == 't');
    assert("float"@.len() == 5 && "float"@[0] == 'f');
    assert("string"@.len() == 6);
}

/// `list` and a type in angle brackets is the type of lists of it, `set` that of
/// sets.
pub proof fn one_type_in_angles(ts: Seq<&Token>, st: State, after: State, t: TypeTree)
    requires
        tok(ts, st.cur + 1, TokenType::Lt),
        !tok(ts, st.cur + 1, TokenType::Dot),
        reads(ts, st.at(st.cur + 2), ty(ts, st.at(st.cur + 2)), after, t),
        tok(ts, after.cur, TokenType::Gt),
    ensures
        word_at(ts, st.cur, "list"@) ==> gives_type(
            ts,
            st,
            after.next(),
            TypeShape::List(Box::new(t)),
        ),
        word_at(ts, st.cur, "set"@) ==> gives_type(
            ts,
            st,
            after.next(),
            TypeShape::SetOf(Box::new(t)),
        ),
{
    reveal(tok);
    reveal(named_type);
    reveal(container_type);
    reveal(optional_type_args);
    reveal(ty);
    container_words();
    assert(st.next().next() == st.at(st.cur + 2));
    if word_at(ts, st.cur, "list"@) {
        starts_with_word(ts, st, "list"@);
    }
    if word_at(ts, st.cur, "set"@) {
        starts_with_word(ts, st, "set"@);
    }
}

/// `map` and two types in angle brackets is the type of maps from the first to
/// the second, `tuple` that of pairs of the two.
pub proof fn two_types_in_angles(
    ts: Seq<&Token>,
    st: State,
    after_first: State,
    first: TypeTree,
    after_second: State,
    second: TypeTree,
)
    requires
        tok(ts, st.cur + 1, TokenType::Lt),
        !tok(ts, st.cur + 1, TokenType::Dot),
        reads(ts, st.at(st.cur + 2), ty(ts, st.at(st.cur + 2)), after_first, first),
        tok(ts, after_first.cur, TokenType::Comma),
        reads(ts, after_first.next(), ty(ts, after_first.next()), after_second, second),
        tok(ts, after_second.cur, TokenType::Gt),
    ensures
        word_at(ts, st.cur, "map"@) ==> gives_type(
            ts,
            st,
            after_second.next(),
            TypeShape::MapOf(Box::new(first), Box::new(second)),
        ),
        word_at(ts, st.cur, "tuple"@) ==> gives_type(
            ts,
            st,
            after_second.next(),
            TypeShape::Tuple(Box::new(first), Box::new(second)),
        ),
{
    reveal(tok);
    reveal(named_type);
    reveal(container_type);
    reveal(optional_type_args);
    reveal(ty);
    container_words();
    assert(st.next().next() == st.at(st.cur + 2));
    if word_at(ts, st.cur, "map"@) {
        starts_with_word(ts, st, "map"@);
    }
    if word_at(ts, st.cur, "tuple"@) {
        starts_with_word(ts, st, "tuple"@);
    }
}

/// Another word is the name of a type, with the types in angle brackets behind
/// it as its arguments.
pub proof fn name_takes_arguments(
    ts: Seq<&Token>,
    st: State,
    word: Seq<char>,
    after: State,
    args: Seq<TypeTree>,
)
    requires
        word_at(ts, st.cur, word),
        !tok(ts, st.cur + 1, TokenType::Dot),
        PrimitiveType::named(word) is None,
        word != "list"@ && word != "map"@ && word != "set"@ && word != "tuple"@ && word != "dyn"@,
        tok(ts, st.cur + 1, TokenType::Lt),
        reads(ts, st.at(st.cur + 2), type_args(ts, st.at(st.cur + 2), seq![]), after, args),
        tok(ts, after.cur, TokenType::Gt),
    ensures
        gives_type(ts, st, after.next(), TypeShape::Named(word, args)),
{
    reveal(tok);
    reveal(named_type);
    reveal(optional_type_args);
    reveal(container_type);
    reveal(type_args);
    starts_with_word(ts, st, word);
    assert(st.next().next() == st.at(st.cur + 2));
}

/// A word without angle brackets behind it is the name of a type without
/// arguments.
pub proof fn name_without_arguments(ts: Seq<&Token>, st: State, word: Seq<char>)
    requires
        word_at(ts, st.cur, word),
        !tok(ts, st.cur + 1, TokenType::Dot),
        !tok(ts, st.cur + 1, TokenType::Lt),
        PrimitiveType::named(word) is None,
    ensures
        gives_type(ts, st, st.next(), TypeShape::Named(word, seq![])),
{
    starts_with_word(ts, st, word);
    reveal(named_type);
    reveal(optional_type_args);
    reveal(container_type);
    reveal(type_args);
}

/// Type arguments come in the order in which they are written.
pub proof fn type_arguments_keep_their_order(
    ts: Seq<&Token>,
    st: State,
    before: Seq<TypeTree>,
    after: State,
    t: TypeTree,
)
    requires
        !tok(ts, st.cur, TokenType::Gt),
        reads(ts, st, ty(ts, st), after, t),
    ensures
        !tok(ts, after.cur, TokenType::Comma) ==> type_args(ts, st, before) == (
            after,
            Ok::<Seq<TypeTree>, Fault>(before.push(t)),
        ),
        tok(ts, after.cur, TokenType::Comma) ==> type_args(ts, st, before) == type_args(
            ts,
            skip_nl(ts, after.next()),
            before.push(t),
        ),
{
    reveal(tok);
    reveal(type_args);
    reveal(ty);
    if tok(ts, after.cur, TokenType::Comma) {
        nl_end_bounds(ts, after.cur + 1);
    }
}

/// The type of a function has the types in its parentheses as its parameters and
/// the one behind `returns` as its result.
pub proof fn function_type_has_its_parts(
    ts: Seq<&Token>,
    st: State,
    after_params: State,
    params: Seq<TypeTree>,
    after: State,
    ret: TypeTree,
)
    requires
        tok(ts, st.cur, TokenType::Func),
        tok(ts, st.cur + 1, TokenType::OpenParen),
        fn_type_params(ts, st.at(st.cur + 2)) == (
            after_params,
            Ok::<Seq<TypeTree>, Fault>(params),
        ),
        st.cur + 2 <= after_params.cur,
        tok(ts, after_params.cur, TokenType::CloseParen),
        tok(ts, after_params.cur + 1, TokenType::Returns),
        reads(
            ts,
            after_params.at(after_params.cur + 2),
            ty(ts, after_params.at(after_params.cur + 2)),
            after,
            ret,
        ),
    ensures
        gives_type(ts, st, after, (TypeShape::Function { params, ret: Box::new(ret) })),
{
    reveal(tok);
    reveal(ty);
    reveal(named_type);
    reveal(fn_type_params);
    assert(st.next().next() == st.at(st.cur + 2));
    assert(after_params.next().next() == after_params.at(after_params.cur + 2));
}

/// The parameter types of a function type come in the order in which they are
/// written; empty parentheses hold none.
pub proof fn parameter_types_keep_their_order(
    ts: Seq<&Token>,
    st: State,
    before: Seq<TypeTree>,
    after: State,
    t: TypeTree,
)
    requires
        reads(ts, st, ty(ts, st), after, t),
    ensures
        tok(ts, st.cur, TokenType::CloseParen) ==> fn_type_params(ts, st) == (
            st,
            Ok::<Seq<TypeTree>, Fault>(seq![]),
        ),
        !tok(ts, st.cur, TokenType::CloseParen) ==> fn_type_params(ts, st) == fn_type_params_from(
            ts,
            st,
            seq![],
        ),
        !tok(ts, after.cur, TokenType::Comma) ==> fn_type_params_from(ts, st, before) == (
            after,
            Ok::<Seq<TypeTree>, Fault>(before.push(t)),
        ),
        tok(ts, after.cur, TokenType::Comma) ==> fn_type_params_from(ts, st, before)
            == fn_type_params_from(ts, skip_nl(ts, after.next()), before.push(t)),
{
    reveal(tok);
    reveal(fn_type_params);
    reveal(fn_type_params_from);
    reveal(ty);
    if tok(ts, after.cur, TokenType::Comma) {
        nl_end_bounds(ts, after.cur + 1);
    }
}

/// A type parameter has its name and the bounds behind it; parameters come in
/// the order in which they are written.
pub proof fn type_parameters_keep_their_order(
    ts: Seq<&Token>,
    st: State,
    style: Bounds,
    before: Seq<TypeParamTree>,
    word: Seq<char>,
    after: State,
    bounds: Seq<TraitBoundTree>,
)
    requires
        word_at(ts, st.cur, word),
        bounds_in(ts, st.next(), style) == (after, Ok::<Seq<TraitBoundTree>, Fault>(bounds)),
        st.cur < after.cur <= ts.len(),
    ensures
        ({
            let more = before.push((TypeParamTree { name: word, bounds }));
            &&& !tok(ts, after.cur, TokenType::Comma) ==> type_params_from(ts, st, style, before)
                == (after, Ok::<Seq<TypeParamTree>, Fault>(more))
            &&& tok(ts, after.cur, TokenType::Comma) ==> type_params_from(ts, st, style, before)
                == type_params_from(ts, after.next(), style, more)
        }),
{
    reveal(tok);
    reveal(type_params_from);
}

/// A pattern is read from a state on, up to another.
pub open spec fn gives_pattern(ts: Seq<&Token>, from: State, to: State, p: PatternTree) -> bool {
    pattern(ts, from) == (to, Ok::<PatternTree, Fault>(p))
}

/// A literal as a pattern is itself, a name is a name, an underscore fits
/// everything, and `none` is the variant without a value.
pub proof fn plain_patterns_are_read(ts: Seq<&Token>, st: State)
    requires
        0 <= st.cur < ts.len(),
    ensures
        match ts[st.cur].token_type {
            TokenType::Int(n) => gives_pattern(
                ts,
                st,
                st.next(),
                PatternTree::Literal(LiteralTree::Integer(n)),
            ),
            TokenType::Bool(b) => gives_pattern(
                ts,
                st,
                st.next(),
                PatternTree::Literal(LiteralTree::Boolean(b)),
            ),
            TokenType::Char(c) => gives_pattern(
                ts,
                st,
                st.next(),
                PatternTree::Literal(LiteralTree::Char(c)),
            ),
            TokenType::Str(t) => gives_pattern(
                ts,
                st,
                st.next(),
                PatternTree::Literal(LiteralTree::String(t@)),
            ),
            TokenType::Float(f) => gives_pattern(
                ts,
                st,
                st.next(),
                PatternTree::Literal(LiteralTree::Float(f.text@)),
            ),
            TokenType::Underscore => gives_pattern(ts, st, st.next(), PatternTree::Wildcard),
            TokenType::NoneKeyword => gives_pattern(
                ts,
                st,
                st.next(),
                (PatternTree::EnumVariant { name: "none"@, args: seq![] }),
            ),
            TokenType::Id(name) => !tok(ts, st.cur + 1, TokenType::OpenParen) ==> gives_pattern(
                ts,
                st,
                st.next(),
                PatternTree::Identifier(name@),
            ),
            _ => true,
        },
{
    reveal(pattern);
    reveal(pattern_args);
    reveal(list_pattern);
}

/// A name and patterns in parentheses are a variant with a pattern for each of
/// its values.
pub proof fn variant_pattern_has_its_parts(
    ts: Seq<&Token>,
    st: State,
    word: Seq<char>,
    after: State,
    args: Seq<PatternTree>,
)
    requires
        word_at(ts, st.cur, word),
        tok(ts, st.cur + 1, TokenType::OpenParen),
        pattern_args(ts, st.at(st.cur + 2)) == (after, Ok::<Seq<PatternTree>, Fault>(args)),
        tok(ts, after.cur, TokenType::CloseParen),
    ensures
        gives_pattern(ts, st, after.next(), (PatternTree::EnumVariant { name: word, args })),
{
    reveal(tok);
    reveal(pattern);
    reveal(pattern_args);
    reveal(list_pattern);
    assert(st.next().next() == st.at(st.cur + 2));
}

/// The patterns of a variant come in the order in which they are written.
pub proof fn variant_patterns_keep_their_order(
    ts: Seq<&Token>,
    st: State,
    before: Seq<PatternTree>,
    after: State,
    p: PatternTree,
)
    requires
        reads(ts, st, pattern(ts, st), after, p),
    ensures
        !tok(ts, st.cur, TokenType::CloseParen) ==> pattern_args(ts, st) == pattern_args_from(
            ts,
            st,
            seq![],
        ),
        !tok(ts, after.cur, TokenType::Comma) ==> pattern_args_from(ts, st, before) == (
            after,
            Ok::<Seq<PatternTree>, Fault>(before.push(p)),
        ),
        tok(ts, after.cur, TokenType::Comma) ==> pattern_args_from(ts, st, before)
            == pattern_args_from(ts, skip_nl(ts, after.next()), before.push(p)),
{
    reveal(tok);
    reveal(pattern_args);
    reveal(pattern_args_from);
    reveal(pattern);
    if tok(ts, after.cur, TokenType::Comma) {
        nl_end_bounds(ts, after.cur + 1);
    }
}

/// The elements of a list pattern come in the order in which they are written,
/// and two dots in front of a pattern make it the one for the rest.
pub proof fn list_patterns_keep_their_order(
    ts: Seq<&Token>,
    st: State,
    before: Seq<PatternTree>,
    after: State,
    p: PatternTree,
)
    requires
        0 <= st.cur < ts.len(),
        !tok(ts, st.cur, TokenType::NewLine),
        !tok(ts, st.cur, TokenType::DotDot),
        reads(ts, st, pattern(ts, st), after, p),
    ensures
        ({
            let s = skip_nl(ts, after);
            &&& !tok(ts, s.cur, TokenType::Comma) ==> list_pattern_from(ts, st, before) == (
                s,
                Ok::<(Seq<PatternTree>, Option<Box<PatternTree>>), Fault>((before.push(p), None)),
            )
            &&& tok(ts, s.cur, TokenType::Comma) ==> list_pattern_from(ts, st, before)
                == list_pattern_from(ts, skip_nl(ts, s.next()), before.push(p))
        }),
{
    reveal(tok);
    reveal(list_pattern_from);
    reveal(pattern);
    assert(skip_nl(ts, st) == st);
    nl_end_bounds(ts, after.cur);
    let s = skip_nl(ts, after);
    if tok(ts, s.cur, TokenType::Comma) {
        nl_end_bounds(ts, s.cur + 1);
    }
}

/// Two dots and a pattern end a list pattern: what is left of the list fits that
/// pattern.
pub proof fn dots_take_the_rest(
    ts: Seq<&Token>,
    st: State,
    before: Seq<PatternTree>,
    after: State,
    p: PatternTree,
)
    requires
        tok(ts, st.cur, TokenType::DotDot),
        reads(ts, st.next(), pattern(ts, st.next()), after, p),
    ensures
        list_pattern_from(ts, st, before) == (
            skip_nl(ts, after),
            Ok::<(Seq<PatternTree>, Option<Box<PatternTree>>), Fault>((before, Some(Box::new(p)))),
        ),
{
    reveal(tok);
    reveal(list_pattern_from);
    reveal(pattern);
    assert(skip_nl(ts, st) == st);
}

/// Brackets around element patterns make a list pattern of them; empty brackets
/// fit the empty list.
pub proof fn list_pattern_has_its_parts(
    ts: Seq<&Token>,
    st: State,
    after: State,
    elements: Seq<PatternTree>,
    rest: Option<Box<PatternTree>>,
)
    requires
        tok(ts, st.cur, TokenType::OpenBracket),
        0 <= st.cur < ts.len(),
        list_pattern(ts, skip_nl(ts, st.next())) == (
            after,
            Ok::<(Seq<PatternTree>, Option<Box<PatternTree>>), Fault>((elements, rest)),
        ),
        tok(ts, after.cur, TokenType::CloseBracket),
    ensures
        gives_pattern(ts, st, after.next(), (PatternTree::List { elements, rest })),
        tok(ts, st.cur + 1, TokenType::CloseBracket) ==> elements.len() == 0 && rest is None,
{
    reveal(tok);
    reveal(pattern);
    reveal(list_pattern);
    reveal(pattern_args);
    reveal(list_pattern_from);
    nl_end_bounds(ts, st.cur + 1);
}

/// An import has the path that it names, and what it takes from there.
pub proof fn import_has_its_parts(
    ts: Seq<&Token>,
    st: State,
    after_path: State,
    path: Seq<char>,
    after: State,
    what: ImportSpecTree,
)
    requires
        tok(ts, st.cur, TokenType::Import),
        import_path(ts, st.next()) == (after_path, Ok::<Seq<char>, Fault>(path)),
        import_spec(ts, after_path, path) == (after, Ok::<ImportSpecTree, Fault>(what)),
    ensures
        import_declaration(ts, st).0 == after,
        import_declaration(ts, st).1 matches Ok(s) && s.kind == (StmtShape::Import {
            path,
            spec: what,
        }),
{
    reveal(tok);
    reveal(import_declaration);
}

/// The path of an import is its first name, with what stands in front of it and
/// each further name behind a dot.
pub proof fn import_path_has_its_names(
    ts: Seq<&Token>,
    st: State,
    front: State,
    prefix: Seq<char>,
    word: Seq<char>,
)
    requires
        path_prefix(ts, st) == (front, Ok::<Seq<char>, Fault>(prefix)),
        word_at(ts, front.cur, word),
    ensures
        import_path(ts, st) == path_from(ts, front.next(), prefix + word),
{
    reveal(tok);
    reveal(import_path);
}

/// What stands in front of an import's first name.
pub proof fn import_prefixes_are_read(ts: Seq<&Token>, st: State)
    ensures
        tok(ts, st.cur, TokenType::Dot) && tok(ts, st.cur + 1, TokenType::Slash) ==> path_prefix(
            ts,
            st,
        ) == (st.at(st.cur + 2), Ok::<Seq<char>, Fault>("./"@)),
        tok(ts, st.cur, TokenType::DotDot) && tok(ts, st.cur + 1, TokenType::Slash)
            ==> path_prefix(ts, st) == (st.at(st.cur + 2), Ok::<Seq<char>, Fault>("../"@)),
        tok(ts, st.cur, TokenType::Slash) ==> path_prefix(ts, st) == (
            st.next(),
            Ok::<Seq<char>, Fault>("/"@),
        ),
        is_id(ts, st.cur) ==> path_prefix(ts, st) == (st, Ok::<Seq<char>, Fault>(seq![])),
{
    reveal(tok);
    reveal(path_prefix);
    assert(st.next().next() == st.at(st.cur + 2));
}

/// A name between two dots belongs to the path; the name behind the last dot is
/// what is taken from the module, unless it is followed by another dot.
pub proof fn names_between_dots_are_the_path(
    ts: Seq<&Token>,
    st: State,
    path: Seq<char>,
    word: Seq<char>,
)
    requires
        tok(ts, st.cur, TokenType::Dot),
        word_at(ts, st.cur + 1, word),
    ensures
        tok(ts, st.cur + 2, TokenType::Dot) ==> path_from(ts, st, path) == path_from(
            ts,
            st.at(st.cur + 2),
            path + seq!['.'] + word,
        ),
        !tok(ts, st.cur + 2, TokenType::Dot) ==> path_from(ts, st, path) == (
            st,
            Ok::<Seq<char>, Fault>(path),
        ),
{
    reveal(tok);
    reveal(path_from);
    assert(st.next().next() == st.at(st.cur + 2));
    assert(path.push('.') + word =~= path + seq!['.'] + word);
}

/// What an import takes: everything for a star, the item that is named, or the
/// module under its alias.
pub proof fn import_takes_what_it_names(
    ts: Seq<&Token>,
    st: State,
    path: Seq<char>,
    word: Seq<char>,
    alias: Seq<char>,
)
    ensures
        tok(ts, st.cur, TokenType::Dot) && tok(ts, st.cur + 1, TokenType::Star) ==> import_spec(
            ts,
            st,
            path,
        ) == (st.at(st.cur + 2), Ok::<ImportSpecTree, Fault>(ImportSpecTree::Wildcard)),
        tok(ts, st.cur, TokenType::Dot) && word_at(ts, st.cur + 1, word) && !tok(
            ts,
            st.cur + 2,
            TokenType::As,
        ) ==> import_spec(ts, st, path) == (
            st.at(st.cur + 2),
            Ok::<ImportSpecTree, Fault>((ImportSpecTree::Item { item: word, alias: None })),
        ),
        tok(ts, st.cur, TokenType::Dot) && word_at(ts, st.cur + 1, word) && tok(
            ts,
            st.cur + 2,
            TokenType::As,
        ) && word_at(ts, st.cur + 3, alias) ==> import_spec(ts, st, path) == (
            st.at(st.cur + 4),
            Ok::<ImportSpecTree, Fault>((ImportSpecTree::Item { item: word, alias: Some(alias) })),
        ),
        tok(ts, st.cur, TokenType::As) && word_at(ts, st.cur + 1, alias) && alias != "_"@
            ==> import_spec(ts, st, path) == (
            st.at(st.cur + 2),
            Ok::<ImportSpecTree, Fault>((ImportSpecTree::Module { alias: Some(alias) })),
        ),
        tok(ts, st.cur, TokenType::As) && tok(ts, st.cur + 1, TokenType::Underscore)
            ==> import_spec(ts, st, path) == (
            st.at(st.cur + 2),
            Ok::<ImportSpecTree, Fault>((ImportSpecTree::Module { alias: None })),
        ),
        tok(ts, st.cur, TokenType::Dot) && tok(ts, st.cur + 1, TokenType::OpenParen)
            ==> import_spec(ts, st, path) == import_items(ts, st.at(st.cur + 2)),
{
    reveal(tok);
    reveal(import_spec);
    reveal(import_alias);
    let two = st.at(st.cur + 2);
    assert(st.next().next() == two);
    assert(two.next().next() == st.at(st.cur + 4));
    assert(two.next() == st.at(st.cur + 3));
}

/// A module that is imported whole and without an alias goes by the last name of
/// its path.
pub proof fn module_goes_by_its_last_name(
    ts: Seq<&Token>,
    st: State,
    front: Seq<char>,
    word: Seq<char>,
)
    requires
        !tok(ts, st.cur, TokenType::Dot),
        !tok(ts, st.cur, TokenType::As),
        !word.contains('.'),
    ensures
        import_spec(ts, st, front.push('.') + word) == (
            st,
            Ok::<ImportSpecTree, Fault>((ImportSpecTree::Module { alias: Some(word) })),
        ),
        import_spec(ts, st, word) == (
            st,
            Ok::<ImportSpecTree, Fault>((ImportSpecTree::Module { alias: Some(word) })),
        ),
{
    reveal(import_spec);
    reveal(import_alias);
    last_name(front, word);
}

proof fn last_name(front: Seq<char>, word: Seq<char>)
    requires
        !word.contains('.'),
    ensures
        last_segment(front.push('.') + word) == word,
        last_segment(word) == word,
    decreases word.len(),
{
    let path = front.push('.') + word;
    if word.len() > 0 {
        let w = word.drop_last();
        assert(word[word.len() - 1] == word.last());
        assert(word.last() != '.');
        assert forall|i: int| 0 <= i < w.len() implies w[i] != '.' by {
            assert(word[i] == w[i]);
        }
        last_name(front, w);
        assert(path.drop_last() =~= front.push('.') + w);
        assert(path.last() == word.last());
        assert(w.push(word.last()) =~= word);
    } else {
        assert(path =~= front.push('.'));
        assert(path.last() == '.');
        assert(last_segment(path) =~= word);
        assert(last_segment(word) =~= word);
    }
}

/// The items of an import come in the order in which they are written, each with
/// the alias behind it.
pub proof fn import_items_keep_their_order(
    ts: Seq<&Token>,
    st: State,
    before: Seq<ImportItemTree>,
    word: Seq<char>,
    alias: Seq<char>,
)
    requires
        word_at(ts, st.cur, word),
        tok(ts, st.cur + 1, TokenType::As),
        word_at(ts, st.cur + 2, alias),
    ensures
        ({
            let after = st.at(st.cur + 3);
            let more = before.push((ImportItemTree { name: word, alias: Some(alias) }));
            &&& !tok(ts, after.cur, TokenType::Comma) ==> import_items_from(ts, st, before) == (
                after,
                Ok::<Seq<ImportItemTree>, Fault>(more),
            )
            &&& tok(ts, after.cur, TokenType::Comma) ==> import_items_from(ts, st, before)
                == import_items_from(ts, skip_nl(ts, after.next()), more)
        }),
{
    reveal(tok);
    reveal(import_items_from);
    reveal(import_alias);
    let after = st.at(st.cur + 3);
    assert(st.next().next().next() == after);
    if tok(ts, after.cur, TokenType::Comma) {
        nl_end_bounds(ts, after.cur + 1);
    }
}

} // verus!
