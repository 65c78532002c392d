//! Where recovery stops, and where statements end.

use crate::ast::combine;
use crate::lexer::{Token, TokenType};
use crate::parser::state::{
    brace_open, in_block, is_anchor, starts_statement, sync_end, synchronize, termination, State,
};
use vstd::prelude::*;

verus! {

/// Recovery goes on to behind the next newline, or stops at a word that starts
/// a declaration or statement, or at a bracket, whatever comes first.
pub proof fn recovery_stops_at_the_first_anchor(ts: Seq<&Token>, p: int, e: int)
    requires
        0 <= p <= e <= ts.len(),
        forall|i: int|
            p <= i < e ==> !is_anchor((#[trigger] ts[i]).token_type) && !(ts[i].token_type is NewLine),
    ensures
        e == ts.len() ==> sync_end(ts, p) == e,
        e < ts.len() && is_anchor(ts[e].token_type) ==> sync_end(ts, p) == e,
        e < ts.len() && ts[e].token_type is NewLine ==> sync_end(ts, p) == e + 1,
    decreases e - p,
{
    reveal(is_anchor);
    if p < e {
        assert(!is_anchor(ts[p].token_type));
        recovery_stops_at_the_first_anchor(ts, p + 1, e);
    }
}

/// Which tokens recovery stops at: keywords of declarations and of control flow,
/// but not the ones that end a round of a loop; and brackets of every kind.
pub proof fn anchors(t: TokenType)
    ensures
        t is Func || t is Auto || t is Const || t is Class || t is Interface || t is Enum
            || t is Import || t is If || t is Else || t is While || t is For || t is Match
            || t is Return ==> is_anchor(t),
        t is OpenBrace || t is CloseBrace || t is OpenParen || t is CloseParen || t is OpenBracket
            || t is CloseBracket ==> is_anchor(t),
        t is NewLine || t is Eof || t is Id || t is Int || t is Str || t is Comma || t is Colon
            || t is Dot || t is Break || t is Continue || t is Eq || t is Plus || t is Minus
            || t is Star || t is Slash ==> !is_anchor(t),
{
    reveal(is_anchor);
}

/// Recovery moves on, and records what it skips as one span, from the first
/// skipped token to the last. It keeps the errors.
pub proof fn recovery_records_what_it_skips(ts: Seq<&Token>, st: State)
    requires
        0 <= st.cur <= ts.len(),
    ensures
        ({
            let s = synchronize(ts, st);
            &&& s.cur == sync_end(ts, st.cur)
            &&& s.cur >= st.cur
            &&& s.errors == st.errors
            &&& s.loops == st.loops
            &&& s.stopped == st.stopped
            &&& s.cur == st.cur ==> s == st
            &&& s.cur > st.cur ==> s.skipped == st.skipped.push(
                combine(ts[st.cur].span, ts[s.cur - 1].span),
            )
        }),
{
    reveal(synchronize);
    crate::parser::state::sync_end_bounds(ts, st.cur);
}

/// A keyword that starts a statement has to stand on a new line, or behind a
/// brace or the end; anything else may follow.
pub proof fn statements_start_on_new_lines(ts: Seq<&Token>, p: int)
    requires
        0 <= p,
        p + 1 < ts.len(),
    ensures
        ts[p].token_type is NewLine || ts[p].token_type is CloseBrace || ts[p].token_type is Eof
            ==> termination(ts, p) is None,
        !(ts[p].token_type is NewLine || ts[p].token_type is CloseBrace || ts[p].token_type is Eof)
            && (ts[p + 1].token_type is If || ts[p + 1].token_type is While
            || ts[p + 1].token_type is For || ts[p + 1].token_type is Match
            || ts[p + 1].token_type is Return || ts[p + 1].token_type is Break
            || ts[p + 1].token_type is Continue || ts[p + 1].token_type is Auto
            || ts[p + 1].token_type is Const || ts[p + 1].token_type is Func
            || ts[p + 1].token_type is Class || ts[p + 1].token_type is Enum
            || ts[p + 1].token_type is Interface) ==> termination(ts, p) is Some,
        ts[p + 1].token_type is NewLine || ts[p + 1].token_type is Else || ts[p + 1].token_type is Id
            || ts[p + 1].token_type is Plus || ts[p + 1].token_type is Comma
            || ts[p + 1].token_type is Eof ==> termination(ts, p) is None,
{
    reveal(termination);
    reveal(starts_statement);
}

/// No token from `p` up to `e` is a brace.
pub open spec fn no_braces(ts: Seq<&Token>, p: int, e: int) -> bool {
    forall|i: int|
        p <= i < e ==> !((#[trigger] ts[i]).token_type is OpenBrace) && !(ts[i].token_type is CloseBrace)
}

proof fn braces_from(ts: Seq<&Token>, q: int, p: int, closed: int)
    requires
        0 <= q <= p <= ts.len(),
        no_braces(ts, q, p),
    ensures
        brace_open(ts, p, closed) == brace_open(ts, q, closed),
    decreases p - q,
{
    if q < p {
        assert(!(ts[p - 1].token_type is OpenBrace) && !(ts[p - 1].token_type is CloseBrace));
        braces_from(ts, q, p - 1, closed);
    }
}

/// Behind an opening brace one is inside a block. A closing brace that follows
/// without others between them leads back to where the opening one stood.
pub proof fn braces_open_and_close_blocks(ts: Seq<&Token>, q: int, p: int)
    requires
        0 <= q < p <= ts.len(),
        ts[q].token_type is OpenBrace,
        no_braces(ts, q + 1, p),
    ensures
        in_block(ts, p),
        p < ts.len() && ts[p].token_type is CloseBrace ==> in_block(ts, p + 1) == in_block(ts, q),
        !in_block(ts, 0),
{
    reveal(in_block);
    braces_from(ts, q + 1, p, 0);
    if p < ts.len() && ts[p].token_type is CloseBrace {
        braces_from(ts, q + 1, p, 1);
        assert(brace_open(ts, q + 1, 1) == brace_open(ts, q, 0));
        assert(brace_open(ts, p + 1, 0) == brace_open(ts, p, 1));
    }
}

} // verus!
