//! From a source text to nodes, diagnostics and recovered ranges.

use crate::ast::nodes::AstNode;
use crate::ast::tree::{nodes_of, NodeTree};
use crate::diagnostic::edit::SourceRange;
use crate::diagnostic::files::FileId;
use crate::diagnostic::fix::{range_of, source_range_for_span, RecoveryIntervals};
use crate::diagnostic::report::{reports, Diagnostic, ToDiagnostic};
use crate::lexer::error::LexerErrorModel;
use crate::lexer::grammar::{all_tokens, Nesting};
use crate::lexer::{Lexer, LexerError, Span, Token};
use crate::parser::cursor::{code_tokens, faults};
use crate::parser::error::Fault;
use crate::parser::grammar::program;
use crate::parser::state::State;
use crate::parser::{Parser, ParserError};
use crate::source::{fits, Source};
use vstd::prelude::*;

verus! {

/// Where lexing starts.
pub open spec fn outermost() -> Nesting {
    Nesting { brackets: 0, braces: seq![] }
}

/// Where parsing starts.
pub open spec fn initial() -> State {
    State { cur: 0, errors: seq![], skipped: seq![], loops: 0, stopped: false }
}

/// Whether some tokens are those of a text.
pub open spec fn tokens_of(text: Seq<char>, tokens: Seq<Token>) -> bool {
    all_tokens(text, 0, outermost()) == Ok::<_, LexerErrorModel>(
        tokens.map_values(|t: Token| t@),
    )
}

/// The error that lexing a text ends with.
pub open spec fn lexing_fault(text: Seq<char>) -> Option<LexerErrorModel> {
    match all_tokens(text, 0, outermost()) {
        Ok(_) => None,
        Err(e) => Some(e),
    }
}

/// What parsing some tokens comes to.
pub open spec fn parsing(tokens: Seq<Token>) -> (State, Seq<NodeTree>) {
    program(code_tokens(tokens), initial(), seq![])
}

/// The ranges of the first `n` spans that lie in the text.
pub open spec fn ranges(text: Seq<char>, file_id: FileId, spans: Seq<Span>, n: int) -> Seq<
    (FileId, SourceRange),
>
    decreases n,
{
    if n <= 0 || n > spans.len() {
        seq![]
    } else {
        match range_of(text, spans[n - 1]) {
            Ok(range) => ranges(text, file_id, spans, n - 1).push((file_id, range)),
            Err(_) => ranges(text, file_id, spans, n - 1),
        }
    }
}

/// The spans of errors.
pub open spec fn spans_of(errors: Seq<Fault>) -> Seq<Span> {
    errors.map_values(|e: Fault| e.span)
}

/// The ranges that parsing recovered from: of its errors, then of the tokens
/// that it skipped.
pub open spec fn recovered(text: Seq<char>, file_id: FileId, s: State) -> Seq<
    (FileId, SourceRange),
> {
    ranges(text, file_id, spans_of(s.errors), s.errors.len() as int) + ranges(
        text,
        file_id,
        s.skipped,
        s.skipped.len() as int,
    )
}

/// Whether diagnostics report errors, one for one.
pub open spec fn diagnoses(ds: Seq<Diagnostic>, errors: Seq<Fault>, file_id: FileId) -> bool {
    &&& ds.len() == errors.len()
    &&& forall|i: int|
        0 <= i < ds.len() ==> reports(
            #[trigger] ds[i],
            errors[i].code,
            errors[i].message,
            errors[i].help,
            errors[i].span,
            file_id,
        )
}

/// All tokens of a text.
pub fn lex_text(source: &str) -> (r: Result<Vec<Token>, LexerError>)
    requires
        fits(source@),
    ensures
        match r {
            Ok(tokens) => tokens_of(source@, tokens@),
            Err(e) => lexing_fault(source@) == Some(e@),
        },
{
    let mut cursor = Source::from_string(source.to_owned());
    assert(cursor.text() == source@);
    let mut lexer = Lexer::new(&mut cursor);
    lexer.lex_all()
}

/// Records the ranges of spans that lie in a text.
pub fn record_spans(
    recovery: &mut RecoveryIntervals,
    source: &str,
    file_id: FileId,
    spans: &[Span],
)
    requires
        fits(source@),
    ensures
        final(recovery).intervals@ == old(recovery).intervals@ + ranges(
            source@,
            file_id,
            spans@,
            spans@.len() as int,
        ),
{
    let ghost before = recovery.intervals@;
    let mut i: usize = 0;
    assert(recovery.intervals@ =~= before + ranges(source@, file_id, spans@, 0));
    while i < spans.len()
        invariant
            i <= spans@.len(),
            fits(source@),
            recovery.intervals@ == before + ranges(source@, file_id, spans@, i as int),
        decreases spans@.len() - i,
    {
        match source_range_for_span(source, spans[i]) {
            Ok(range) => {
                recovery.add(file_id, range);
            },
            Err(_) => {},
        }
        assert(recovery.intervals@ =~= before + ranges(source@, file_id, spans@, i + 1));
        i += 1;
    }
}

/// The spans of errors.
fn error_spans(errors: &Vec<ParserError>) -> (r: Vec<Span>)
    ensures
        r@ == spans_of(faults(errors@)),
{
    let mut out: Vec<Span> = Vec::new();
    let mut i: usize = 0;
    while i < errors.len()
        invariant
            i == out@.len() <= errors@.len(),
            forall|j: int| 0 <= j < i ==> out@[j] == errors@[j].span,
        decreases errors@.len() - i,
    {
        out.push(errors[i].span);
        i += 1;
    }
    assert(out@ =~= spans_of(faults(errors@)));
    out
}

/// The diagnostics of errors, one for one.
fn error_diagnostics(errors: &Vec<ParserError>, file_id: FileId) -> (r: Vec<Diagnostic>)
    ensures
        diagnoses(r@, faults(errors@), file_id),
{
    let mut out: Vec<Diagnostic> = Vec::new();
    let mut i: usize = 0;
    while i < errors.len()
        invariant
            i == out@.len() <= errors@.len(),
            forall|j: int|
                0 <= j < i ==> reports(
                    #[trigger] out@[j],
                    errors@[j].code,
                    errors@[j].message@,
                    errors@[j]@.help,
                    errors@[j].span,
                    file_id,
                ),
        decreases errors@.len() - i,
    {
        out.push(errors[i].to_diagnostic(file_id));
        i += 1;
    }
    out
}

/// What parsing a source gave: the nodes that could be parsed, the ranges that
/// were recovered from, and the diagnostics.
pub struct ParsedSource {
    pub nodes: Vec<AstNode>,
    pub recovery: RecoveryIntervals,
    pub diagnostics: Vec<Diagnostic>,
}

impl ParsedSource {
    /// What parsing some tokens of a file came to.
    pub open spec fn of(&self, source: Seq<char>, tokens: Seq<Token>, file_id: FileId) -> bool {
        let (s, nodes) = parsing(tokens);
        &&& nodes_of(self.nodes@) == nodes
        &&& diagnoses(self.diagnostics@, s.errors, file_id)
        &&& self.recovery.intervals@ == (if s.errors.len() > 0 {
            recovered(source, file_id, s)
        } else {
            seq![]
        })
    }
}

impl ParsedSource {
    /// What parsing the tokens of a text came to.
    pub open spec fn parses(&self, source: Seq<char>, file_id: FileId) -> bool {
        exists|tokens: Seq<Token>| #[trigger]
            tokens_of(source, tokens) && self.of(source, tokens, file_id)
    }
}

/// Parses tokens. `source` is the text that ranges are found in.
pub fn parse_tokens(source: &str, tokens: &Vec<Token>, file_id: FileId) -> (r: ParsedSource)
    requires
        fits(source@),
    ensures
        r.of(source@, tokens@, file_id),
{
    let mut parser = Parser::new(tokens.as_slice());
    let mut recovery = RecoveryIntervals::new();
    match parser.parse() {
        Ok(nodes) => {
            let diagnostics: Vec<Diagnostic> = Vec::new();
            ParsedSource { nodes, recovery, diagnostics }
        },
        Err((nodes, errors)) => {
            record_spans(&mut recovery, source, file_id, error_spans(&errors).as_slice());
            record_spans(&mut recovery, source, file_id, parser.recovery_spans());
            let diagnostics = error_diagnostics(&errors, file_id);
            assert(recovery.intervals@ =~= recovered(source@, file_id, parsing(tokens@).0));
            ParsedSource { nodes, recovery, diagnostics }
        },
    }
}

/// Lexes and parses a source for fixing. What could be parsed comes with the
/// diagnostics and the recovered ranges; a lexical error leaves nothing.
pub fn parse_fix_source(source: &str, file_id: FileId) -> (r: Result<ParsedSource, Vec<Diagnostic>>)
    requires
        fits(source@),
    ensures
        match lexing_fault(source@) {
            Some(e) => r matches Err(ds) && ds@.len() == 1 && reports(
                ds@[0],
                e.code,
                e.message,
                e.help,
                e.span,
                file_id,
            ),
            None => r matches Ok(p) && p.parses(source@, file_id),
        },
{
    match lex_text(source) {
        Ok(tokens) => {
            let parsed = parse_tokens(source, &tokens, file_id);
            assert(tokens_of(source@, tokens@));
            Ok(parsed)
        },
        Err(e) => {
            let mut ds: Vec<Diagnostic> = Vec::new();
            ds.push(e.to_diagnostic(file_id));
            Err(ds)
        },
    }
}

} // verus!
