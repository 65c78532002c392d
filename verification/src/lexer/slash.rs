//! Tokens that start with a slash, with block comments that nest.

use crate::diagnostic::DiagnosticCode;
use crate::lexer::error::{LexerError, LexerErrorModel};
use crate::lexer::grammar::trimmed;
use crate::lexer::scanner::trim;
use crate::lexer::span::Span;
use crate::lexer::token::{Lexeme, Token, TokenModel, TokenType};
use crate::source::{at, col_at, line_at, scan, Source};
use crate::text::string_of;
use vstd::prelude::*;

verus! {

/// The text of a block comment and the offset behind it, from offset `p` on
/// with `depth` comments open. What closes an inner comment counts as `*`.
pub open spec fn nested_body(text: Seq<char>, p: int, depth: nat, body: Seq<char>) -> Option<
    (Seq<char>, int),
>
    decreases text.len() - p,
{
    if depth == 0 {
        Some((body, p))
    } else if p < 0 || p >= text.len() {
        None
    } else if text[p] == '*' && at(text, p + 1) == Some('/') {
        nested_body(
            text,
            p + 2,
            (depth - 1) as nat,
            if depth > 1 {
                body.push('*')
            } else {
                body
            },
        )
    } else if text[p] == '/' && at(text, p + 1) == Some('*') {
        nested_body(text, p + 2, depth + 1, body.push('/').push('*'))
    } else {
        nested_body(text, p + 1, depth, body.push(text[p]))
    }
}

/// Where a line ends.
pub open spec fn line_stop(text: Seq<char>, p: int) -> int {
    scan(text, p, |c: char| c != '\n' && c != '\r')
}

/// A span up to an offset.
pub open spec fn span_to(text: Seq<char>, start: Span, p: int) -> Span {
    Span {
        row_start: start.row_start,
        row_end: Some(line_at(text, p) as usize),
        col_start: start.col_start,
        col_end: Some(col_at(text, p) as usize),
    }
}

/// The token behind a slash, and the offset behind it.
pub open spec fn slash_token(text: Seq<char>, p: int, start: Span) -> Result<
    (TokenModel, int),
    LexerErrorModel,
> {
    if at(text, p) == Some('/') {
        let stop = line_stop(text, p + 1);
        let end = if stop < text.len() {
            stop + 1
        } else {
            stop
        };
        Ok(
            (
                TokenModel {
                    kind: Lexeme::LineComment(trimmed(text.subrange(p + 1, stop))),
                    span: span_to(text, start, end),
                },
                end,
            ),
        )
    } else if at(text, p) == Some('*') {
        match nested_body(text, p + 1, 1, seq![]) {
            Some((body, end)) => Ok(
                (
                    TokenModel {
                        kind: Lexeme::MultilineComment(trimmed(body)),
                        span: span_to(text, start, end),
                    },
                    end,
                ),
            ),
            None => Err(
                LexerErrorModel {
                    code: DiagnosticCode::LexUnterminatedComment,
                    message: "Unterminated block comment"@,
                    help: Some("Add a closing '*/' to end the block comment"@),
                    span: start,
                },
            ),
        }
    } else if at(text, p) == Some('=') {
        Ok(
            (
                TokenModel {
                    kind: Lexeme::Plain(TokenType::SlashEq),
                    span: span_to(text, start, p + 1),
                },
                p + 1,
            ),
        )
    } else {
        Ok((TokenModel { kind: Lexeme::Plain(TokenType::Slash), span: start }, p))
    }
}

/// Reads the rest of a block comment. Comments inside of it have to be closed
/// too.
fn read_nested_multiline_comment_body(source: &mut Source, start_span: Span) -> (r: Result<
    String,
    LexerError,
>)
    requires
        old(source).wf(),
    ensures
        match nested_body(old(source).text(), old(source).pos as int, 1, seq![]) {
            Some((body, end)) => {
                &&& r matches Ok(s) && s@ == body
                &&& final(source).moved(*old(source), end)
            },
            None => {
                &&& r matches Err(e) && e@ == (LexerErrorModel {
                    code: DiagnosticCode::LexUnterminatedComment,
                    message: "Unterminated block comment"@,
                    help: Some("Add a closing '*/' to end the block comment"@),
                    span: start_span,
                })
                &&& final(source).moved(*old(source), old(source).text().len() as int)
            },
        },
{
    let ghost text = source.text();
    let mut comment = String::new();
    proof {
        reveal_strlit("");
        assert(comment@ =~= seq![]);
    }
    let mut depth: usize = 1;
    while depth > 0
        invariant
            source.moved(*old(source), source.pos as int),
            old(source).pos <= source.pos <= text.len(),
            text == old(source).text(),
            depth <= 1 + source.pos,
            text.len() < usize::MAX,
            nested_body(text, old(source).pos as int, 1, seq![]) == nested_body(
                text,
                source.pos as int,
                depth as nat,
                comment@,
            ),
        decreases text.len() - source.pos, depth,
    {
        let ghost p = source.pos as int;
        let c = match source.next_char() {
            Some(c) => c,
            None => {
                return Err(
                    LexerError::with_help(
                        DiagnosticCode::LexUnterminatedComment,
                        "Unterminated block comment",
                        start_span,
                        "Add a closing '*/' to end the block comment",
                    ),
                );
            },
        };
        if c == '*' && source.peek() == Some('/') {
            source.next_char();
            depth -= 1;
            if depth > 0 {
                comment.push('*');
            }
        } else if c == '/' && source.peek() == Some('*') {
            source.next_char();
            depth += 1;
            comment.push('/');
            comment.push('*');
        } else {
            comment.push(c);
        }
    }
    Ok(comment)
}

/// Reads the token behind a slash: a comment, `/=` or `/`. Block comments nest.
pub fn read_slash_token(source: &mut Source, start_span: Span) -> (r: Result<Token, LexerError>)
    requires
        old(source).wf(),
    ensures
        match slash_token(old(source).text(), old(source).pos as int, start_span) {
            Ok((token, end)) => {
                &&& r matches Ok(t) && t@ == token
                &&& final(source).moved(*old(source), end)
            },
            Err(e) => r matches Err(error) && error@ == e,
        },
{
    let mut span = start_span;
    let ghost text = source.text();
    let ghost p = source.pos as int;
    let next = source.peek();
    if next == Some('/') {
        source.next_char();
        let from: usize = source.pos;
        let ghost skip = |c: char| c != '\n' && c != '\r';
        while source.pos < source.chars.len() && source.chars[source.pos] != '\n'
            && source.chars[source.pos] != '\r'
            invariant
                source.moved(*old(source), source.pos as int),
                from <= source.pos,
                text == old(source).text(),
                skip == (|c: char| c != '\n' && c != '\r'),
                scan(text, from as int, skip) == scan(text, source.pos as int, skip),
            decreases source.chars@.len() - source.pos,
        {
            source.next_char();
        }
        let comment = string_of(&source.chars, from, source.pos);
        assert(scan(text, source.pos as int, skip) == source.pos);
        source.next_char();
        span.complete(source.line, source.col);
        return Ok(Token::new(TokenType::LineComment(trim(comment.as_str())), span));
    }
    if next == Some('*') {
        source.next_char();
        return match read_nested_multiline_comment_body(source, start_span) {
            Ok(comment) => {
                span.complete(source.line, source.col);
                Ok(Token::new(TokenType::MultilineComment(trim(comment.as_str())), span))
            },
            Err(e) => Err(e),
        };
    }
    if next == Some('=') {
        source.next_char();
        span.complete(source.line, source.col);
        return Ok(Token::new(TokenType::SlashEq, span));
    }
    Ok(Token::new(TokenType::Slash, span))
}

} // verus!
