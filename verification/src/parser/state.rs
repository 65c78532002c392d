//! The parser's state and the token cursor, as mathematical values.

use crate::ast::operators::combine;
use crate::diagnostic::DiagnosticCode;
use crate::lexer::{Span, Token, TokenType};
use crate::parser::describe::describe;
use crate::parser::error::{fault, Fault};
use vstd::prelude::*;

verus! {

/// How many errors a parse reports before it stops.
pub const MAX_ERRORS: usize = 100;

/// Where a parse stands: the token reached, the errors so far, the spans
/// skipped in recovery, how many loops are open, and whether the error limit
/// was reached.
pub struct State {
    pub cur: int,
    pub errors: Seq<Fault>,
    pub skipped: Seq<Span>,
    pub loops: int,
    pub stopped: bool,
}

/// The state behind a production, and what it produced.
pub type Step<T> = (State, Result<T, Fault>);

impl State {
    pub open spec fn at(self, p: int) -> State {
        State { cur: p, ..self }
    }

    pub open spec fn next(self) -> State {
        self.at(self.cur + 1)
    }

    /// The state with one more error; the last that fits says that there are
    /// too many.
    pub open spec fn record(self, error: Fault) -> State {
        if self.stopped {
            self
        } else if self.errors.len() + 1 == MAX_ERRORS {
            State {
                errors: self.errors.push(
                    fault(
                        DiagnosticCode::ParseErrorLimit,
                        "too many parse errors; recovery stopped"@,
                        error.span,
                    ),
                ),
                stopped: true,
                ..self
            }
        } else {
            State { errors: self.errors.push(error), ..self }
        }
    }

    pub open spec fn enter_loop(self) -> State {
        State { loops: if self.loops < usize::MAX { self.loops + 1 } else { self.loops }, ..self }
    }

    pub open spec fn leave_loop(self) -> State {
        State { loops: if self.loops > 0 { self.loops - 1 } else { 0 }, ..self }
    }
}

/// `s` is at the same token as `st` or further on, and inside the tokens.
pub open spec fn le(ts: Seq<&Token>, st: State, s: State) -> bool {
    st.cur <= s.cur <= ts.len()
}

/// `s` is further on than `st`, and inside the tokens.
pub open spec fn lt(ts: Seq<&Token>, st: State, s: State) -> bool {
    st.cur < s.cur <= ts.len()
}

/// The outcome of a production that would move backwards; none does.
pub open spec fn stuck<T>(s: State) -> Step<T> {
    (s, Err(arbitrary()))
}

pub open spec fn origin() -> Span {
    Span { row_start: 1, row_end: None, col_start: 1, col_end: None }
}

/// The token at `p`; behind the end the last one, or an end-of-file token.
pub open spec fn seen(ts: Seq<&Token>, p: int) -> Token {
    if 0 <= p < ts.len() {
        *ts[p]
    } else if ts.len() > 0 {
        *ts[ts.len() - 1]
    } else {
        Token { token_type: TokenType::Eof, span: origin() }
    }
}

/// The token in front of `p`; at the start the first one.
pub open spec fn before(ts: Seq<&Token>, p: int) -> Token {
    seen(ts, if p > 0 { p - 1 } else { 0 })
}

/// Whether the token at `p` is of type `t`.
#[verifier::opaque]
pub open spec fn tok(ts: Seq<&Token>, p: int, t: TokenType) -> bool {
    0 <= p < ts.len() && ts[p].token_type@ == t@
}

pub open spec fn is_id(ts: Seq<&Token>, p: int) -> bool {
    0 <= p < ts.len() && ts[p].token_type is Id
}

/// The first token from `p` on that is no newline.
pub open spec fn nl_end(ts: Seq<&Token>, p: int) -> int
    decreases ts.len() - p,
{
    if p < ts.len() && tok(ts, p, TokenType::NewLine) {
        nl_end(ts, p + 1)
    } else {
        p
    }
}

pub open spec fn skip_nl(ts: Seq<&Token>, st: State) -> State {
    st.at(nl_end(ts, st.cur))
}

pub proof fn nl_end_bounds(ts: Seq<&Token>, p: int)
    requires
        0 <= p <= ts.len(),
    ensures
        p <= nl_end(ts, p) <= ts.len(),
        !tok(ts, nl_end(ts, p), TokenType::NewLine),
    decreases ts.len() - p,
{
    reveal(tok);
    reveal(is_anchor);
    if tok(ts, p, TokenType::NewLine) {
        nl_end_bounds(ts, p + 1);
    }
}

/// The error where a token of another type, or none, stands at `p`.
#[verifier::opaque]
pub open spec fn missing(ts: Seq<&Token>, p: int, message: Seq<char>) -> Fault {
    if 0 <= p < ts.len() {
        fault(
            DiagnosticCode::ParseExpectedToken,
            message + ", found "@ + describe(ts[p].token_type),
            ts[p].span,
        )
    } else {
        fault(
            DiagnosticCode::ParseExpectedToken,
            message + ", but reached end of file"@,
            seen(ts, p).span,
        )
    }
}

/// A token of type `t`.
pub open spec fn expect(ts: Seq<&Token>, st: State, t: TokenType, message: Seq<char>) -> Step<Span> {
    if tok(ts, st.cur, t) {
        (st.next(), Ok(ts[st.cur].span))
    } else {
        (st, Err(missing(ts, st.cur, message)))
    }
}

/// An identifier; the wildcard counts as one.
pub open spec fn identifier(ts: Seq<&Token>, st: State, message: Seq<char>) -> Step<Seq<char>> {
    if tok(ts, st.cur, TokenType::Underscore) {
        (st.next(), Ok("_"@))
    } else if is_id(ts, st.cur) {
        (st.next(), Ok(ts[st.cur].token_type->Id_0@))
    } else {
        (st, Err(missing(ts, st.cur, message)))
    }
}

/// A token at which recovery stops.
#[verifier::opaque]
pub open spec fn is_anchor(t: TokenType) -> bool {
    match t {
        TokenType::Func
        | TokenType::Auto
        | TokenType::Const
        | TokenType::Class
        | TokenType::Interface
        | TokenType::Enum
        | TokenType::Import
        | TokenType::If
        | TokenType::Else
        | TokenType::While
        | TokenType::For
        | TokenType::Match
        | TokenType::Return
        | TokenType::OpenBrace
        | TokenType::CloseBrace
        | TokenType::OpenParen
        | TokenType::CloseParen
        | TokenType::OpenBracket
        | TokenType::CloseBracket => true,
        _ => false,
    }
}

/// Where recovery from `p` on stops: behind the next newline, or at the next
/// anchor.
pub open spec fn sync_end(ts: Seq<&Token>, p: int) -> int
    decreases ts.len() - p,
{
    if p < 0 || p >= ts.len() || is_anchor(ts[p].token_type) {
        p
    } else if ts[p].token_type is NewLine {
        p + 1
    } else {
        sync_end(ts, p + 1)
    }
}

/// Recovery: what is skipped is recorded as one span.
#[verifier::opaque]
pub open spec fn synchronize(ts: Seq<&Token>, st: State) -> State {
    let end = sync_end(ts, st.cur);
    State {
        cur: end,
        skipped: if end > st.cur {
            st.skipped.push(combine(ts[st.cur].span, ts[end - 1].span))
        } else {
            st.skipped
        },
        ..st
    }
}

pub proof fn sync_end_bounds(ts: Seq<&Token>, p: int)
    requires
        0 <= p <= ts.len(),
    ensures
        p <= sync_end(ts, p) <= ts.len(),
    decreases ts.len() - p,
{
    reveal(tok);
    reveal(is_anchor);
    if p < ts.len() && !is_anchor(ts[p].token_type) && !(ts[p].token_type is NewLine) {
        sync_end_bounds(ts, p + 1);
    }
}

/// A token type that starts a statement, or opens or closes a block.
#[verifier::opaque]
pub open spec fn starts_statement(t: TokenType) -> bool {
    match t {
        TokenType::Auto
        | TokenType::Const
        | TokenType::Func
        | TokenType::Class
        | TokenType::Interface
        | TokenType::Enum
        | TokenType::If
        | TokenType::While
        | TokenType::For
        | TokenType::Match
        | TokenType::Break
        | TokenType::Continue
        | TokenType::Return
        | TokenType::OpenBrace
        | TokenType::CloseBrace => true,
        _ => false,
    }
}

/// The error of a statement that ends at `p` without a newline in front of
/// the next statement.
#[verifier::opaque]
pub open spec fn termination(ts: Seq<&Token>, p: int) -> Option<Fault> {
    if 0 <= p && p + 1 < ts.len() && !(ts[p].token_type is CloseBrace) && !(ts[p].token_type is Eof)
        && !(ts[p].token_type is NewLine) && starts_statement(ts[p + 1].token_type) {
        Some(
            fault(
                DiagnosticCode::ParseExpectedToken,
                "Expected newline before statement"@,
                ts[p + 1].span,
            ),
        )
    } else {
        None
    }
}

/// Whether a brace is open in front of `p`, with `closed` closing braces
/// still to be balanced.
pub open spec fn brace_open(ts: Seq<&Token>, p: int, closed: int) -> bool
    decreases p,
{
    if p <= 0 || p > ts.len() {
        false
    } else if ts[p - 1].token_type is CloseBrace {
        brace_open(ts, p - 1, closed + 1)
    } else if ts[p - 1].token_type is OpenBrace {
        closed == 0 || brace_open(ts, p - 1, closed - 1)
    } else {
        brace_open(ts, p - 1, closed)
    }
}

#[verifier::opaque]
pub open spec fn in_block(ts: Seq<&Token>, p: int) -> bool {
    brace_open(ts, p, 0)
}

} // verus!
