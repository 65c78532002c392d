//! Token cursor operations shared by the parser productions.

use crate::ast::operators::combine;
use crate::diagnostic::DiagnosticCode;
use crate::lexer::{Span, Token, TokenType};
use crate::parser::describe::{describe_token, is_comment, same_type};
use crate::parser::error::{Fault, ParserError, ParserResult};
use crate::parser::state::{
    before, brace_open, expect, identifier, in_block, is_anchor, missing, nl_end, origin, seen,
    skip_nl, starts_statement, sync_end, synchronize, termination, tok, State, Step, MAX_ERRORS,
};
use vstd::prelude::*;

verus! {

/// A parser over a sequence of tokens.
#[derive(Debug)]
pub struct Parser<'a> {
    pub tokens: Vec<&'a Token>,
    pub current: usize,
    pub errors: Vec<ParserError>,
    pub recovery_spans: Vec<Span>,
    pub loop_depth: usize,
    pub stopped: bool,
    /// What is seen where there are no tokens at all.
    pub eof: Token,
}

/// The errors as mathematical values.
pub open spec fn faults(errors: Seq<ParserError>) -> Seq<Fault> {
    errors.map_values(|e: ParserError| e@)
}

/// The tokens that are no comments, in order.
pub open spec fn code_tokens<'a>(tokens: Seq<Token>) -> Seq<&'a Token>
    decreases tokens.len(),
{
    if tokens.len() == 0 {
        seq![]
    } else if is_comment(&tokens.last().token_type) {
        code_tokens(tokens.drop_last())
    } else {
        code_tokens(tokens.drop_last()).push(&tokens.last())
    }
}

/// The state behind a call and its result, as a step of the grammar.
pub open spec fn step<T, M>(
    after: State,
    r: Result<T, ParserError>,
    model: spec_fn(T) -> M,
) -> Step<M> {
    (
        after,
        match r {
            Ok(t) => Ok(model(t)),
            Err(e) => Err(e@),
        },
    )
}

/// `after` parses the same tokens as `before` and is not behind it.
pub open spec fn went(before: Parser<'_>, after: Parser<'_>) -> bool {
    &&& after.wf()
    &&& after.tokens@ == before.tokens@
    &&& before.current <= after.current
}

impl<'a> Parser<'a> {
    pub open spec fn st(self) -> State {
        State {
            cur: self.current as int,
            errors: faults(self.errors@),
            skipped: self.recovery_spans@,
            loops: self.loop_depth as int,
            stopped: self.stopped,
        }
    }

    pub open spec fn wf(self) -> bool {
        &&& self.current <= self.tokens@.len() <= usize::MAX
        &&& self.eof == (Token { token_type: TokenType::Eof, span: origin() })
        &&& self.stopped || self.errors@.len() < MAX_ERRORS
        &&& self.errors@.len() <= MAX_ERRORS
        &&& self.errors@.len() == MAX_ERRORS ==> self.errors@.last().code
            == DiagnosticCode::ParseErrorLimit
        &&& forall|i: int|
            0 <= i < self.tokens@.len() ==> !is_comment(&(#[trigger] self.tokens@[i]).token_type)
    }

    /// A parser at the first of some tokens. Comments are left out.
    #[must_use]
    pub fn new(tokens: &'a [Token]) -> (r: Self)
        ensures
            r.wf(),
            r.tokens@ == code_tokens(tokens@),
            r.st() == (State {
                cur: 0,
                errors: seq![],
                skipped: seq![],
                loops: 0,
                stopped: false,
            }),
    {
        let mut kept: Vec<&'a Token> = Vec::new();
        let mut i: usize = 0;
        assert(tokens@.take(0) =~= seq![]);
        while i < tokens.len()
            invariant
                i <= tokens@.len(),
                kept@ == code_tokens(tokens@.take(i as int)),
                forall|j: int|
                    0 <= j < kept@.len() ==> !is_comment(&(#[trigger] kept@[j]).token_type),
            decreases tokens@.len() - i,
        {
            assert(tokens@.take(i + 1).drop_last() =~= tokens@.take(i as int));
            let token = &tokens[i];
            if !is_comment(&token.token_type) {
                kept.push(token);
            }
            i += 1;
        }
        assert(tokens@.take(tokens@.len() as int) =~= tokens@);
        assert(kept.len() <= usize::MAX);
        let r = Self {
            tokens: kept,
            current: 0,
            errors: Vec::new(),
            recovery_spans: Vec::new(),
            loop_depth: 0,
            stopped: false,
            eof: Token::new(TokenType::Eof, Span::new(1, 1)),
        };
        assert(r.st().errors =~= seq![]);
        r
    }

    /// Adds an error, and stops the parse at the limit.
    pub fn record_error(&mut self, error: ParserError)
        requires
            old(self).wf(),
        ensures
            went(*old(self), *final(self)),
            final(self).st() == old(self).st().record(error@),
    {
        if self.stopped {
            return;
        }
        let ghost old_errors = faults(self.errors@);
        if self.errors.len() + 1 == MAX_ERRORS {
            self.errors.push(
                ParserError::new(
                    DiagnosticCode::ParseErrorLimit,
                    "too many parse errors; recovery stopped",
                    error.span,
                ),
            );
            self.stopped = true;
        } else {
            self.errors.push(error);
        }
        assert(faults(self.errors@) =~= old_errors.push(self.errors@.last()@));
    }

    /// Moves on by one token, where there is one, and gives the token left
    /// behind.
    pub fn advance(&mut self) -> (r: &Token)
        requires
            old(self).wf(),
        ensures
            went(*old(self), *final(self)),
            final(self).st() == old(self).st().at(
                if old(self).current < old(self).tokens@.len() {
                    old(self).current + 1
                } else {
                    old(self).current as int
                },
            ),
            *r == before(old(self).tokens@, final(self).current as int),
    {
        if !self.is_at_end() {
            self.current += 1;
        }
        self.previous()
    }

    /// The token in front of the current one.
    pub fn previous(&self) -> (r: &Token)
        requires
            self.wf(),
        ensures
            *r == before(self.tokens@, self.current as int),
    {
        let i: usize = if self.current > 0 { self.current - 1 } else { 0 };
        if i < self.tokens.len() {
            self.tokens[i]
        } else {
            self.peek()
        }
    }

    #[must_use]
    pub fn is_at_end(&self) -> (r: bool)
        ensures
            r == (self.current >= self.tokens@.len()),
    {
        self.current >= self.tokens.len()
    }

    /// The current token; at the end the last one, so that errors there have
    /// a place.
    pub fn peek(&self) -> (r: &Token)
        requires
            self.wf(),
        ensures
            *r == seen(self.tokens@, self.current as int),
    {
        if self.is_at_end() {
            if self.tokens.len() > 0 {
                self.tokens[self.tokens.len() - 1]
            } else {
                &self.eof
            }
        } else {
            self.tokens[self.current]
        }
    }

    /// Takes the current token, where there is one.
    pub fn consume(&mut self) -> (r: &Token)
        requires
            old(self).wf(),
        ensures
            went(*old(self), *final(self)),
            final(self).st() == old(self).st().at(
                if old(self).current < old(self).tokens@.len() {
                    old(self).current + 1
                } else {
                    old(self).current as int
                },
            ),
            *r == seen(old(self).tokens@, old(self).current as int),
    {
        if self.current < self.tokens.len() {
            let token = self.tokens[self.current];
            self.current += 1;
            token
        } else {
            self.peek()
        }
    }

    /// The token `n` places behind the current one.
    pub fn peek_ahead(&self, n: usize) -> (r: Option<&Token>)
        requires
            self.wf(),
        ensures
            match r {
                Some(t) => self.current + n < self.tokens@.len() && *t == *self.tokens@[self.current
                    + n],
                None => self.current + n >= self.tokens@.len(),
            },
    {
        if n < self.tokens.len() - self.current {
            Some(self.tokens[self.current + n])
        } else {
            None
        }
    }

    /// Whether a token of type `ty` stands `n` places behind the current one.
    pub fn ahead(&self, n: usize, ty: TokenType) -> (r: bool)
        requires
            self.wf(),
        ensures
            r == tok(self.tokens@, self.current + n, ty),
            r ==> self.current + n < self.tokens@.len(),
    {
        proof {
            reveal(tok);
        }
        match self.peek_ahead(n) {
            Some(t) => same_type(&t.token_type, &ty),
            None => false,
        }
    }

    /// Takes the current token if it is of one of the given types. The end of
    /// the file is never taken.
    pub fn matches(&mut self, types: &[TokenType]) -> (r: bool)
        requires
            old(self).wf(),
        ensures
            went(*old(self), *final(self)),
            r == (!tok(old(self).tokens@, old(self).current as int, TokenType::Eof) && exists|i: int|
                0 <= i < types@.len() && tok(
                    old(self).tokens@,
                    old(self).current as int,
                    #[trigger] types@[i],
                )),
            final(self).st() == (if r {
                old(self).st().next()
            } else {
                old(self).st()
            }),
    {
        proof {
            reveal(tok);
        }
        let mut i: usize = 0;
        while i < types.len()
            invariant
                self.wf(),
                self.st() == old(self).st(),
                *self == *old(self),
                i <= types@.len(),
                forall|j: int|
                    0 <= j < i ==> !tok(
                        self.tokens@,
                        self.current as int,
                        #[trigger] types@[j],
                    ),
            decreases types@.len() - i,
        {
            proof {
                reveal(tok);
            }
            if !self.is_at_end() && same_type(&self.peek().token_type, &types[i]) {
                assert(tok(self.tokens@, self.current as int, types@[i as int]));
                if same_type(&self.peek().token_type, &TokenType::Eof) {
                    return false;
                }
                self.current += 1;
                return true;
            }
            i += 1;
        }
        false
    }

    /// Takes the current token if it is of type `ty`.
    pub(crate) fn take(&mut self, ty: TokenType) -> (r: bool)
        requires
            old(self).wf(),
        ensures
            went(*old(self), *final(self)),
            r == tok(old(self).tokens@, old(self).current as int, ty),
            r ==> old(self).current < final(self).current,
            final(self).st() == (if r {
                old(self).st().next()
            } else {
                old(self).st()
            }),
    {
        proof {
            reveal(tok);
        }
        if self.check(ty) {
            self.current += 1;
            true
        } else {
            false
        }
    }

    /// Whether the current token is of type `ty`.
    pub fn check(&self, ty: TokenType) -> (r: bool)
        requires
            self.wf(),
        ensures
            r == tok(self.tokens@, self.current as int, ty),
            r ==> self.current < self.tokens@.len(),
    {
        proof {
            reveal(tok);
        }
        if self.is_at_end() {
            return false;
        }
        same_type(&self.peek().token_type, &ty)
    }

    /// The error where the current token is not the expected one.
    pub(crate) fn missing_error(&self, error_msg: &str) -> (r: ParserError)
        requires
            self.wf(),
        ensures
            r@ == missing(self.tokens@, self.current as int, error_msg@),
    {
        proof {
            reveal(missing);
        }
        let mut message = error_msg.to_owned();
        if self.is_at_end() {
            message.append(", but reached end of file");
        } else {
            let found = describe_token(&self.peek().token_type);
            message.append(", found ");
            message.append(found.as_str());
        }
        ParserError::new(DiagnosticCode::ParseExpectedToken, message.as_str(), self.peek().span)
    }

    /// Takes a token of type `expected`.
    pub fn consume_token(&mut self, expected: TokenType, error_msg: &str) -> (r: ParserResult<Span>)
        requires
            old(self).wf(),
        ensures
            went(*old(self), *final(self)),
            r is Ok ==> old(self).current < final(self).current,
            step(final(self).st(), r, |s: Span| s) == expect(
                old(self).tokens@,
                old(self).st(),
                expected,
                error_msg@,
            ),
    {
        proof {
            reveal(tok);
        }
        if self.check(expected) {
            let span = self.peek().span;
            self.current += 1;
            Ok(span)
        } else {
            Err(self.missing_error(error_msg))
        }
    }

    /// Takes an identifier; the wildcard counts as one.
    pub fn consume_identifier(&mut self, error_msg: &str) -> (r: ParserResult<String>)
        requires
            old(self).wf(),
        ensures
            went(*old(self), *final(self)),
            r is Ok ==> old(self).current < final(self).current,
            step(final(self).st(), r, |s: String| s@) == identifier(
                old(self).tokens@,
                old(self).st(),
                error_msg@,
            ),
    {
        proof {
            reveal(tok);
        }
        if self.is_at_end() {
            return Err(self.missing_error(error_msg));
        }
        let token = self.tokens[self.current];
        match &token.token_type {
            TokenType::Id(name) => {
                self.current += 1;
                Ok(name.clone())
            },
            TokenType::Underscore => {
                self.current += 1;
                Ok("_".to_owned())
            },
            _ => Err(self.missing_error(error_msg)),
        }
    }

    /// Takes newlines and counts them.
    pub fn skip_newlines(&mut self) -> (r: usize)
        requires
            old(self).wf(),
        ensures
            went(*old(self), *final(self)),
            final(self).st() == skip_nl(old(self).tokens@, old(self).st()),
            r == final(self).current - old(self).current,
            !tok(final(self).tokens@, final(self).current as int, TokenType::NewLine),
    {
        proof {
            reveal(tok);
        }
        let start: usize = self.current;
        while self.check(TokenType::NewLine)
            invariant
                went(*old(self), *self),
                start == old(self).current,
                self.st() == old(self).st().at(self.current as int),
                nl_end(self.tokens@, start as int) == nl_end(self.tokens@, self.current as int),
            decreases self.tokens@.len() - self.current,
        {
            proof {
                reveal(tok);
            }
            self.current += 1;
        }
        self.current - start
    }

    /// Where the newlines at the current token end.
    pub(crate) fn newlines_end(&self) -> (r: usize)
        requires
            self.wf(),
        ensures
            r == nl_end(self.tokens@, self.current as int),
            self.current <= r <= self.tokens@.len(),
    {
        proof {
            reveal(tok);
        }
        let mut p: usize = self.current;
        while p < self.tokens.len() && same_type(&self.tokens[p].token_type, &TokenType::NewLine)
            invariant
                self.wf(),
                self.current <= p <= self.tokens@.len(),
                nl_end(self.tokens@, self.current as int) == nl_end(self.tokens@, p as int),
            decreases self.tokens@.len() - p,
        {
            proof {
                reveal(tok);
            }
            p += 1;
        }
        p
    }

    /// Whether the token at `p` is of type `ty`.
    pub(crate) fn token_is(&self, p: usize, ty: TokenType) -> (r: bool)
        ensures
            r == tok(self.tokens@, p as int, ty),
            r ==> p < self.tokens@.len(),
    {
        proof {
            reveal(tok);
        }
        p < self.tokens.len() && same_type(&self.tokens[p].token_type, &ty)
    }

    /// If the next token behind newlines is of the given type, takes the
    /// newlines.
    pub(crate) fn skip_newlines_before(&mut self, token_type: TokenType) -> (r: bool)
        requires
            old(self).wf(),
        ensures
            went(*old(self), *final(self)),
            r == tok(
                old(self).tokens@,
                nl_end(old(self).tokens@, old(self).current as int),
                token_type,
            ),
            final(self).st() == (if r {
                skip_nl(old(self).tokens@, old(self).st())
            } else {
                old(self).st()
            }),
    {
        let end = self.newlines_end();
        if self.token_is(end, token_type) {
            self.current = end;
            true
        } else {
            false
        }
    }

    /// Whether a token type starts a statement.
    pub(crate) fn is_statement_starter(token_type: &TokenType) -> (r: bool)
        ensures
            r == starts_statement(*token_type),
    {
        proof {
            reveal(starts_statement);
        }
        match token_type {
            TokenType::Auto
            | TokenType::Const
            | TokenType::Func
            | TokenType::Class
            | TokenType::Interface
            | TokenType::Enum
            | TokenType::If
            | TokenType::While
            | TokenType::For
            | TokenType::Match
            | TokenType::Break
            | TokenType::Continue
            | TokenType::Return
            | TokenType::OpenBrace
            | TokenType::CloseBrace => true,
            _ => false,
        }
    }

    /// Checks that a statement is not directly followed by another one.
    pub(crate) fn check_statement_termination(&self) -> (r: ParserResult<()>)
        requires
            self.wf(),
        ensures
            match r {
                Ok(_) => termination(self.tokens@, self.current as int) is None,
                Err(e) => termination(self.tokens@, self.current as int) == Some(e@),
            },
    {
        proof {
            reveal(termination);
            reveal(starts_statement);
        }
        if self.is_at_end() {
            return Ok(());
        }
        match &self.tokens[self.current].token_type {
            TokenType::CloseBrace | TokenType::Eof | TokenType::NewLine => {
                return Ok(());
            },
            _ => {},
        }
        if self.tokens.len() - self.current > 1 {
            let next_token = self.tokens[self.current + 1];
            if Self::is_statement_starter(&next_token.token_type) {
                return Err(
                    ParserError::new(
                        DiagnosticCode::ParseExpectedToken,
                        "Expected newline before statement",
                        next_token.span,
                    ),
                );
            }
        }
        Ok(())
    }

    /// Whether an opening brace in front of the current token is still open.
    pub(crate) fn is_in_block(&self) -> (r: bool)
        requires
            self.wf(),
        ensures
            r == in_block(self.tokens@, self.current as int),
    {
        proof {
            reveal(in_block);
        }
        let mut brace_count: usize = 0;
        let mut i: usize = self.current;
        while i > 0
            invariant
                self.wf(),
                i <= self.current <= self.tokens@.len(),
                brace_count <= self.current - i,
                in_block(self.tokens@, self.current as int) == brace_open(
                    self.tokens@,
                    i as int,
                    brace_count as int,
                ),
            decreases i,
        {
            proof {
                reveal(in_block);
            }
            i -= 1;
            match &self.tokens[i].token_type {
                TokenType::CloseBrace => {
                    brace_count += 1;
                },
                TokenType::OpenBrace => {
                    if brace_count == 0 {
                        return true;
                    }
                    brace_count -= 1;
                },
                _ => {},
            }
        }
        false
    }

    /// Skips to the next newline or to a token that recovery stops at, and
    /// records what was skipped.
    pub fn synchronize(&mut self)
        requires
            old(self).wf(),
        ensures
            went(*old(self), *final(self)),
            final(self).st() == synchronize(old(self).tokens@, old(self).st()),
    {
        proof {
            reveal(synchronize);
        }
        let start: usize = self.current;
        let end = self.recovery_end();
        self.current = end;
        if end > start {
            let span = combine(self.tokens[start].span, self.tokens[end - 1].span);
            self.recovery_spans.push(span);
        }
    }

    /// Where recovery from the current token on stops.
    fn recovery_end(&self) -> (r: usize)
        requires
            self.wf(),
        ensures
            r == sync_end(self.tokens@, self.current as int),
            self.current <= r <= self.tokens@.len(),
    {
        proof {
            reveal(is_anchor);
        }
        let mut p: usize = self.current;
        while p < self.tokens.len()
            invariant
                self.wf(),
                self.current <= p <= self.tokens@.len(),
                sync_end(self.tokens@, self.current as int) == sync_end(self.tokens@, p as int),
            decreases self.tokens@.len() - p,
        {
            proof {
                reveal(is_anchor);
            }
            match &self.tokens[p].token_type {
                TokenType::NewLine => {
                    return p + 1;
                },
                TokenType::Func
                | TokenType::Auto
                | TokenType::Const
                | TokenType::Class
                | TokenType::Interface
                | TokenType::Enum
                | TokenType::Import
                | TokenType::If
                | TokenType::Else
                | TokenType::While
                | TokenType::For
                | TokenType::Match
                | TokenType::Return
                | TokenType::OpenBrace
                | TokenType::CloseBrace
                | TokenType::OpenParen
                | TokenType::CloseParen
                | TokenType::OpenBracket
                | TokenType::CloseBracket => {
                    return p;
                },
                _ => {
                    p += 1;
                },
            }
        }
        p
    }

    /// Spans consumed while skipping malformed input during recovery.
    ///
    /// Callers use these intervals to suppress diagnostics derived from
    /// tokens the parser deliberately discarded.
    #[must_use]
    pub fn recovery_spans(&self) -> (r: &[Span])
        ensures
            r@ == self.st().skipped,
    {
        self.recovery_spans.as_slice()
    }
}

} // verus!
