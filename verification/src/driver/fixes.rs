//! Applying the compiler's own fixes: which edits there are, and what is
//! printed about them.

use crate::ast::nodes::AstNode;
use crate::ast::tree::nodes_of;
use crate::diagnostic::diff::{diff_of, unified_diff};
use crate::diagnostic::edit::{Applicability, EditReplacement, SourceRange, SpanEdit, TextEdit};
use crate::diagnostic::emitter::{rendered_batch, DiagnosticEmitter, StandardEmitter};
use crate::diagnostic::files::{FileId, FileModel, Files};
use crate::diagnostic::fix::{
    apply_and_validate, char_index, index_at, outcome, range_of, source_range_for_span, touches,
    AppliedEdits, FixError, RecoveryIntervals, StagedFiles,
};
use crate::diagnostic::order::{
    arranged, arranged_is_ordered, code_rank, keys_of, less, less_from, rank_of_code, sort_key,
    sort_keys,
};
use crate::diagnostic::report::{Diagnostic, Level, MAX_DIAGNOSTICS};
use crate::diagnostic::{ColorConfig, DiagnosticCode};
use crate::driver::json::{fix_json, fix_json_text, fix_json_with_truncation};
use crate::driver::sorting::{arranged_in_range, sort_by_keys, sorted_by};
use crate::lexer::Token;
use crate::module_resolver::all_fit;
use crate::parser::error::Fault;
use crate::source::fits;
use crate::syntax::{lex_text, lexing_fault, parse_tokens, parsing, tokens_of};
use crate::table::{join, joined, views};
use crate::text::{cat, chars_of, decimal, decimal_string, string_of};
use vstd::prelude::*;

verus! {

/// How results are printed.
#[derive(Debug, Clone, Copy, PartialEq, Eq, Structural)]
pub enum FixOutputFormat {
    Text,
    Json,
}

/// An edit as a mathematical value.
pub struct EditModel {
    pub file_id: FileId,
    pub range: SourceRange,
    pub replacement: Seq<char>,
    pub applicability: Applicability,
    pub diagnostic_code: DiagnosticCode,
    pub solution_id: Option<u32>,
}

pub open spec fn edit_model(e: TextEdit) -> EditModel {
    EditModel {
        file_id: e.file_id,
        range: e.range,
        replacement: e.replacement@,
        applicability: e.applicability,
        diagnostic_code: e.diagnostic_code,
        solution_id: e.solution_id,
    }
}

/// Edits as mathematical values.
pub open spec fn edit_models(v: Seq<TextEdit>) -> Seq<EditModel> {
    Seq::new(v.len(), |i: int| edit_model(v[i]))
}

/// Diagnostics in the order of presentation.
pub open spec fn presented(ds: Seq<Diagnostic>, files: Seq<FileModel>) -> Seq<Diagnostic> {
    sorted_by(ds, sort_keys(ds, files))
}

/// Puts diagnostics in the order of presentation.
pub fn sort_fix_diagnostics(diagnostics: Vec<Diagnostic>, files: &Files) -> (r: Vec<Diagnostic>)
    ensures
        r@ == presented(diagnostics@, files@),
        r@.len() == diagnostics@.len(),
{
    let mut keys: Vec<Vec<u64>> = Vec::new();
    let mut i: usize = 0;
    while i < diagnostics.len()
        invariant
            i == keys@.len() <= diagnostics@.len(),
            forall|j: int|
                0 <= j < i ==> (#[trigger] keys@[j])@ == crate::diagnostic::order::key(
                    diagnostics@[j],
                    files@,
                ),
        decreases diagnostics@.len() - i,
    {
        keys.push(sort_key(&diagnostics[i], files));
        i += 1;
    }
    assert(keys_of(keys@) =~= sort_keys(diagnostics@, files@));
    sort_by_keys(diagnostics, keys)
}

/// Whether a label of a diagnostic touches a recovered range of its file.
pub open spec fn label_touches(
    d: Diagnostic,
    i: int,
    text: Seq<char>,
    id: FileId,
    recovery: Seq<(FileId, SourceRange)>,
) -> bool {
    range_of(text, d.labels@[i].span) matches Ok(range) && touches(recovery, id, range)
}

/// Whether a diagnostic touches recovered source.
pub open spec fn touches_recovery(
    d: Diagnostic,
    files: Seq<FileModel>,
    recovery: Seq<(FileId, SourceRange)>,
) -> bool {
    match d.file_id {
        None => false,
        Some(id) => id.0 < files.len() && any_label_touches(
            d,
            files[id.0 as int].1,
            id,
            recovery,
        ),
    }
}

/// Whether some label of a diagnostic touches a recovered range of its file.
pub open spec fn any_label_touches(
    d: Diagnostic,
    text: Seq<char>,
    id: FileId,
    recovery: Seq<(FileId, SourceRange)>,
) -> bool {
    exists|i: int|
        0 <= i < d.labels@.len() && #[trigger] label_touches(d, i, text, id, recovery)
}

/// Whether a diagnostic touches recovered source. Such a diagnostic may only
/// follow from a syntax error.
pub fn diagnostic_touches_recovery(
    diagnostic: &Diagnostic,
    files: &Files,
    recovery: &RecoveryIntervals,
) -> (r: bool)
    requires
        all_fit(files@),
    ensures
        r == touches_recovery(*diagnostic, files@, recovery.intervals@),
{
    let file_id = match diagnostic.file_id {
        Some(id) => id,
        None => {
            return false;
        },
    };
    let source = match files.source(file_id) {
        Some(source) => source,
        None => {
            return false;
        },
    };
    let mut i: usize = 0;
    while i < diagnostic.labels.len()
        invariant
            i <= diagnostic.labels@.len(),
            fits(source@),
            diagnostic.file_id == Some(file_id),
            file_id.0 < files@.len(),
            files@[file_id.0 as int].1 == source@,
            forall|j: int|
                0 <= j < i ==> !#[trigger] label_touches(
                    *diagnostic,
                    j,
                    source@,
                    file_id,
                    recovery.intervals@,
                ),
        decreases diagnostic.labels@.len() - i,
    {
        match source_range_for_span(source, diagnostic.labels[i].span) {
            Ok(range) => {
                if recovery.touches(file_id, range) {
                    assert(label_touches(
                        *diagnostic,
                        i as int,
                        source@,
                        file_id,
                        recovery.intervals@,
                    ));
                    assert(any_label_touches(
                        *diagnostic,
                        source@,
                        file_id,
                        recovery.intervals@,
                    ));
                    return true;
                }
            },
            Err(_) => {},
        }
        i += 1;
    }
    false
}

pub type Materialized = Result<Seq<EditModel>, Seq<char>>;

/// The message of a span that cannot be mapped.
pub open spec fn unmapped(
    code: DiagnosticCode,
    span: crate::lexer::Span,
    reason: &'static str,
) -> Seq<char> {
    code.as_str()@ + ": "@ + (FixError::InvalidLocation { span, reason }).message()
}

/// The text that an edit puts in.
pub open spec fn replacement_text(
    d: Diagnostic,
    e: SpanEdit,
    target: FileId,
    files: Seq<FileModel>,
) -> Result<Seq<char>, Seq<char>> {
    match e.replacement {
        EditReplacement::Text(text) => Ok(text@),
        EditReplacement::Source(span) => {
            let from = match e.replacement_file {
                Some(id) => id,
                None => target,
            };
            if from.0 >= files.len() {
                Err(d.code.as_str()@ + " supplied an unknown source replacement file"@)
            } else {
                let text = files[from.0 as int].1;
                match range_of(text, span) {
                    Err(reason) => Err(unmapped(d.code, span, reason)),
                    Ok(range) => {
                        let a = index_at(text, range.start_byte as nat);
                        let b = index_at(text, range.end_byte as nat);
                        if a <= b {
                            Ok(text.subrange(a, b))
                        } else {
                            Err(
                                d.code.as_str()@
                                    + " supplied a source replacement outside the file"@,
                            )
                        }
                    },
                }
            }
        },
    }
}

/// An edit of a span as an edit of bytes.
pub open spec fn materialized_one(d: Diagnostic, e: SpanEdit, files: Seq<FileModel>) -> Result<
    EditModel,
    Seq<char>,
> {
    let target = match e.target_file {
        Some(id) => Some(id),
        None => d.file_id,
    };
    match target {
        None => Err(d.code.as_str()@ + " supplied an edit without an originating file"@),
        Some(id) => if id.0 >= files.len() {
            Err(d.code.as_str()@ + " supplied an edit for an unknown target file"@)
        } else {
            match range_of(files[id.0 as int].1, e.target) {
                Err(reason) => Err(unmapped(d.code, e.target, reason)),
                Ok(range) => match replacement_text(d, e, id, files) {
                    Err(message) => Err(message),
                    Ok(text) => Ok(
                        EditModel {
                            file_id: id,
                            range,
                            replacement: text,
                            applicability: Applicability::MachineApplicable,
                            diagnostic_code: e.diagnostic_code,
                            solution_id: e.solution_id,
                        },
                    ),
                },
            }
        },
    }
}

/// The edits of a diagnostic from its `j`-th on that a machine can apply.
pub open spec fn materialized_edits(
    d: Diagnostic,
    j: int,
    files: Seq<FileModel>,
    done: Seq<EditModel>,
) -> Materialized
    decreases d.span_edits@.len() - j,
{
    if j < 0 || j >= d.span_edits@.len() {
        Ok(done)
    } else if d.span_edits@[j].applicability != Applicability::MachineApplicable {
        materialized_edits(d, j + 1, files, done)
    } else {
        match materialized_one(d, d.span_edits@[j], files) {
            Err(e) => Err(e),
            Ok(m) => materialized_edits(d, j + 1, files, done.push(m)),
        }
    }
}

/// The edits of the diagnostics from the `i`-th on.
pub open spec fn materialized(
    ds: Seq<Diagnostic>,
    i: int,
    files: Seq<FileModel>,
    done: Seq<EditModel>,
) -> Materialized
    decreases ds.len() - i,
{
    if i < 0 || i >= ds.len() {
        Ok(done)
    } else {
        match materialized_edits(ds[i], 0, files, done) {
            Err(e) => Err(e),
            Ok(more) => materialized(ds, i + 1, files, more),
        }
    }
}

fn code_message(code: DiagnosticCode, rest: &str) -> (r: String)
    ensures
        r@ == code.as_str()@ + rest@,
{
    cat(code.as_str(), rest)
}

fn unmapped_message(code: DiagnosticCode, error: &FixError) -> (r: String)
    ensures
        r@ == code.as_str()@ + ": "@ + error.message(),
{
    let mut out = cat(code.as_str(), ": ");
    out.append(error.to_string().as_str());
    out
}

fn replacement_of(diagnostic: &Diagnostic, edit: &SpanEdit, target: FileId, files: &Files) -> (r: Result<
    String,
    String,
>)
    requires
        all_fit(files@),
    ensures
        match r {
            Ok(t) => replacement_text(*diagnostic, *edit, target, files@) == Ok::<
                Seq<char>,
                Seq<char>,
            >(t@),
            Err(e) => replacement_text(*diagnostic, *edit, target, files@) == Err::<
                Seq<char>,
                Seq<char>,
            >(e@),
        },
{
    match &edit.replacement {
        EditReplacement::Text(text) => Ok(text.clone()),
        EditReplacement::Source(span) => {
            let from = match edit.replacement_file {
                Some(id) => id,
                None => target,
            };
            let source = match files.source(from) {
                Some(source) => source,
                None => {
                    return Err(
                        code_message(
                            diagnostic.code,
                            " supplied an unknown source replacement file",
                        ),
                    );
                },
            };
            let range = match source_range_for_span(source, *span) {
                Ok(range) => range,
                Err(error) => {
                    return Err(unmapped_message(diagnostic.code, &error));
                },
            };
            let chars = chars_of(source);
            let (a, _) = char_index(&chars, range.start_byte as u128);
            let (b, _) = char_index(&chars, range.end_byte as u128);
            if a > b {
                return Err(
                    code_message(
                        diagnostic.code,
                        " supplied a source replacement outside the file",
                    ),
                );
            }
            Ok(string_of(&chars, a, b))
        },
    }
}

fn materialize_one(diagnostic: &Diagnostic, edit: &SpanEdit, files: &Files) -> (r: Result<
    TextEdit,
    String,
>)
    requires
        all_fit(files@),
    ensures
        match r {
            Ok(e) => materialized_one(*diagnostic, *edit, files@) == Ok::<EditModel, Seq<char>>(
                edit_model(e),
            ),
            Err(e) => materialized_one(*diagnostic, *edit, files@) == Err::<EditModel, Seq<char>>(
                e@,
            ),
        },
{
    let target = match edit.target_file {
        Some(id) => Some(id),
        None => diagnostic.file_id,
    };
    let target_file = match target {
        Some(id) => id,
        None => {
            return Err(
                code_message(
                    diagnostic.code,
                    " supplied an edit without an originating file",
                ),
            );
        },
    };
    let source = match files.source(target_file) {
        Some(source) => source,
        None => {
            return Err(
                code_message(diagnostic.code, " supplied an edit for an unknown target file"),
            );
        },
    };
    let range = match source_range_for_span(source, edit.target) {
        Ok(range) => range,
        Err(error) => {
            return Err(unmapped_message(diagnostic.code, &error));
        },
    };
    let text = match replacement_of(diagnostic, edit, target_file, files) {
        Ok(text) => text,
        Err(e) => {
            return Err(e);
        },
    };
    Ok(
        TextEdit::machine_applicable(
            target_file,
            range,
            text.as_str(),
            edit.diagnostic_code,
        ).with_solution(edit.solution_id),
    )
}

/// The span edits of diagnostics as edits of bytes of the current texts. Only
/// those that a machine can apply are taken.
pub fn materialize_span_edits(diagnostics: &[Diagnostic], files: &Files) -> (r: Result<
    Vec<TextEdit>,
    String,
>)
    requires
        all_fit(files@),
    ensures
        match r {
            Ok(v) => materialized(diagnostics@, 0, files@, seq![]) == Ok::<
                Seq<EditModel>,
                Seq<char>,
            >(edit_models(v@)),
            Err(e) => materialized(diagnostics@, 0, files@, seq![]) == Err::<
                Seq<EditModel>,
                Seq<char>,
            >(e@),
        },
{
    let ghost all = materialized(diagnostics@, 0, files@, seq![]);
    let mut out: Vec<TextEdit> = Vec::new();
    assert(edit_models(out@) =~= seq![]);
    let mut i: usize = 0;
    while i < diagnostics.len()
        invariant
            i <= diagnostics@.len(),
            all_fit(files@),
            all == materialized(diagnostics@, 0, files@, seq![]),
            all == materialized(diagnostics@, i as int, files@, edit_models(out@)),
        decreases diagnostics@.len() - i,
    {
        let d = &diagnostics[i];
        let ghost one = materialized_edits(*d, 0, files@, edit_models(out@));
        let mut j: usize = 0;
        while j < d.span_edits.len()
            invariant
                j <= d.span_edits@.len(),
                i < diagnostics@.len(),
                *d == diagnostics@[i as int],
                all_fit(files@),
                all == materialized(diagnostics@, 0, files@, seq![]),
                all == (match one {
                    Err(e) => Err(e),
                    Ok(more) => materialized(diagnostics@, i + 1, files@, more),
                }),
                one == materialized_edits(*d, j as int, files@, edit_models(out@)),
            decreases d.span_edits@.len() - j,
        {
            if d.span_edits[j].applicability == Applicability::MachineApplicable {
                let ghost before = edit_models(out@);
                match materialize_one(d, &d.span_edits[j], files) {
                    Ok(edit) => {
                        out.push(edit);
                        assert(edit_models(out@) =~= before.push(edit_model(edit)));
                    },
                    Err(e) => {
                        return Err(e);
                    },
                }
            }
            j += 1;
        }
        i += 1;
    }
    Ok(out)
}

/// The edits that the first `n` diagnostics hold themselves.
pub open spec fn own_edits(ds: Seq<Diagnostic>, n: int) -> Seq<EditModel>
    decreases n,
{
    if n <= 0 || n > ds.len() {
        seq![]
    } else {
        own_edits(ds, n - 1) + edit_models(ds[n - 1].edits@)
    }
}

/// What edits are ordered by.
pub open spec fn edit_key(e: EditModel) -> Seq<u64> {
    seq![
        e.file_id.0 as u64,
        e.range.start_byte as u64,
        e.range.end_byte as u64,
        code_rank(e.diagnostic_code),
    ]
}

pub open spec fn edit_keys(v: Seq<EditModel>) -> Seq<Seq<u64>> {
    Seq::new(v.len(), |i: int| edit_key(v[i]))
}

/// All edits of diagnostics, in order.
pub open spec fn collected(ds: Seq<Diagnostic>, files: Seq<FileModel>) -> Materialized {
    match materialized(ds, 0, files, seq![]) {
        Err(e) => Err(e),
        Ok(more) => {
            let all = own_edits(ds, ds.len() as int) + more;
            Ok(sorted_by(all, edit_keys(all)))
        },
    }
}

fn copy_edit(e: &TextEdit) -> (r: TextEdit)
    ensures
        edit_model(r) == edit_model(*e),
{
    TextEdit {
        file_id: e.file_id,
        range: e.range,
        replacement: e.replacement.clone(),
        applicability: e.applicability,
        diagnostic_code: e.diagnostic_code,
        solution_id: e.solution_id,
    }
}

fn push_copies(out: &mut Vec<TextEdit>, edits: &Vec<TextEdit>)
    ensures
        edit_models(final(out)@) == edit_models(old(out)@) + edit_models(edits@),
{
    let ghost front = edit_models(out@);
    let ghost all = edit_models(edits@);
    let mut i: usize = 0;
    assert(edit_models(out@) =~= front + all.take(0));
    while i < edits.len()
        invariant
            i <= edits@.len(),
            all == edit_models(edits@),
            edit_models(out@) == front + all.take(i as int),
        decreases edits@.len() - i,
    {
        let ghost before = edit_models(out@);
        let copy = copy_edit(&edits[i]);
        out.push(copy);
        assert(edit_models(out@) =~= before.push(edit_model(copy)));
        assert(edit_models(out@) =~= front + all.take(i + 1));
        i += 1;
    }
    assert(all.take(i as int) =~= all);
}

/// All edits of diagnostics: those that they hold themselves and those of
/// spans, by file and place.
pub fn collect_fix_edits(diagnostics: &[Diagnostic], files: &Files) -> (r: Result<
    Vec<TextEdit>,
    String,
>)
    requires
        all_fit(files@),
    ensures
        match r {
            Ok(v) => collected(diagnostics@, files@) == Ok::<Seq<EditModel>, Seq<char>>(
                edit_models(v@),
            ),
            Err(e) => collected(diagnostics@, files@) == Err::<Seq<EditModel>, Seq<char>>(e@),
        },
{
    let mut more = match materialize_span_edits(diagnostics, files) {
        Ok(more) => more,
        Err(e) => {
            return Err(e);
        },
    };
    let ghost spans = edit_models(more@);
    let mut all: Vec<TextEdit> = Vec::new();
    let mut i: usize = 0;
    assert(edit_models(all@) =~= seq![]);
    while i < diagnostics.len()
        invariant
            i <= diagnostics@.len(),
            edit_models(all@) == own_edits(diagnostics@, i as int),
        decreases diagnostics@.len() - i,
    {
        push_copies(&mut all, &diagnostics[i].edits);
        i += 1;
    }
    let ghost own = edit_models(all@);
    all.append(&mut more);
    let ghost models = edit_models(all@);
    assert(models =~= own + spans);
    let mut keys: Vec<Vec<u64>> = Vec::new();
    let mut j: usize = 0;
    while j < all.len()
        invariant
            j == keys@.len() <= all@.len(),
            forall|k: int| 0 <= k < j ==> (#[trigger] keys@[k])@ == edit_key(edit_model(all@[k])),
        decreases all@.len() - j,
    {
        let mut key: Vec<u64> = Vec::new();
        key.push(all[j].file_id.0 as u64);
        key.push(all[j].range.start_byte as u64);
        key.push(all[j].range.end_byte as u64);
        key.push(rank_of_code(all[j].diagnostic_code));
        assert(key@ =~= edit_key(edit_model(all@[j as int])));
        keys.push(key);
        j += 1;
    }
    assert(keys_of(keys@) =~= edit_keys(models));
    let ghost before = all@;
    let out = sort_by_keys(all, keys);
    proof {
        arranged_in_range(edit_keys(models), models.len() as int);
        assert(edit_models(out@) =~= sorted_by(models, edit_keys(models)));
    }
    Ok(out)
}

/// Whether diagnostics keep a program from being compiled or fixed.
pub open spec fn blocks(ds: Seq<Diagnostic>, deny_warnings: bool) -> bool {
    exists|i: int| 0 <= i < ds.len() && is_blocking(#[trigger] ds[i].level, deny_warnings)
}

pub open spec fn is_blocking(level: Level, deny_warnings: bool) -> bool {
    level == Level::Error || (deny_warnings && level == Level::Warning)
}

/// Whether there is an error among diagnostics; warnings count where they are
/// denied.
pub fn has_blocking_diagnostics(diagnostics: &[Diagnostic], deny_warnings: bool) -> (r: bool)
    ensures
        r == blocks(diagnostics@, deny_warnings),
{
    let mut i: usize = 0;
    while i < diagnostics.len()
        invariant
            i <= diagnostics@.len(),
            forall|j: int|
                0 <= j < i ==> !is_blocking(#[trigger] diagnostics@[j].level, deny_warnings),
        decreases diagnostics@.len() - i,
    {
        let level = diagnostics[i].level;
        if level == Level::Error || (deny_warnings && level == Level::Warning) {
            assert(is_blocking(diagnostics@[i as int].level, deny_warnings));
            return true;
        }
        i += 1;
    }
    false
}

/// Diagnostics that are shown: no more than the limit.
pub open spec fn shown_part(ds: Seq<Diagnostic>) -> Seq<Diagnostic> {
    if ds.len() > MAX_DIAGNOSTICS {
        ds.take(MAX_DIAGNOSTICS as int)
    } else {
        ds
    }
}

/// How many diagnostics are not shown.
pub open spec fn left_out(ds: Seq<Diagnostic>) -> nat {
    if ds.len() > MAX_DIAGNOSTICS {
        (ds.len() - MAX_DIAGNOSTICS) as nat
    } else {
        0
    }
}

/// What is printed of a failure.
pub open spec fn failure_text(
    format: FixOutputFormat,
    dry_run: bool,
    ds: Seq<Diagnostic>,
    edits: Seq<TextEdit>,
    files: Seq<FileModel>,
    error: Seq<char>,
) -> (Seq<char>, Seq<char>) {
    match format {
        FixOutputFormat::Json => (
            fix_json_text("error"@, dry_run, ds, edits, seq![], files, Some(error), 0),
            seq![],
        ),
        FixOutputFormat::Text => (seq![], "mux fix: "@ + error + "\n"@),
    }
}

/// What the command prints on its two streams.
#[derive(Debug)]
pub struct Printed {
    pub out: String,
    pub err: String,
}

impl Printed {
    pub open spec fn model(&self) -> (Seq<char>, Seq<char>) {
        (self.out@, self.err@)
    }
}

/// What is printed of a failure.
pub fn report_fix_error(
    format: FixOutputFormat,
    dry_run: bool,
    diagnostics: &[Diagnostic],
    edits: &[TextEdit],
    files: &Files,
    error: &str,
) -> (r: Printed)
    ensures
        r.model() == failure_text(format, dry_run, diagnostics@, edits@, files@, error@),
{
    proof {
        reveal_strlit("");
    }
    match format {
        FixOutputFormat::Json => {
            let none: Vec<FileId> = Vec::new();
            assert(none@ =~= seq![]);
            let out = fix_json(
                "error",
                dry_run,
                diagnostics,
                edits,
                none.as_slice(),
                files,
                Some(error),
            );
            let err = String::new();
            assert(err@ =~= seq![]);
            Printed { out, err }
        },
        FixOutputFormat::Text => {
            let mut err = cat("mux fix: ", error);
            err.append("\n");
            let out = String::new();
            assert(out@ =~= seq![]);
            Printed { out, err }
        },
    }
}

/// What is printed of the diagnostics. In JSON they are part of the result.
pub open spec fn diagnostics_text(
    format: FixOutputFormat,
    ds: Seq<Diagnostic>,
    files: Seq<FileModel>,
    truncated: nat,
) -> Seq<char> {
    if format == FixOutputFormat::Text && ds.len() > 0 {
        rendered_batch(ds, files) + (if truncated > 0 {
            "warning: output truncated; "@ + decimal(truncated)
                + " additional diagnostics omitted (maximum is "@ + decimal(MAX_DIAGNOSTICS as nat)
                + ")\n"@
        } else {
            seq![]
        })
    } else {
        seq![]
    }
}

/// What is printed of the diagnostics.
pub fn emit_fix_diagnostics(
    format: FixOutputFormat,
    diagnostics: &[Diagnostic],
    files: &Files,
    truncated_count: usize,
) -> (r: String)
    ensures
        r@ == diagnostics_text(format, diagnostics@, files@, truncated_count as nat),
{
    if format == FixOutputFormat::Text && diagnostics.len() > 0 {
        let mut out = StandardEmitter::new(ColorConfig::Auto).emit_batch(diagnostics, files);
        let ghost batch = out@;
        if truncated_count > 0 {
            out.append("warning: output truncated; ");
            out.append(decimal_string(truncated_count).as_str());
            out.append(" additional diagnostics omitted (maximum is ");
            out.append(decimal_string(MAX_DIAGNOSTICS).as_str());
            out.append(")\n");
            assert(out@ =~= batch + ("warning: output truncated; "@ + decimal(
                truncated_count as nat,
            ) + " additional diagnostics omitted (maximum is "@ + decimal(MAX_DIAGNOSTICS as nat)
                + ")\n"@));
        } else {
            assert(out@ =~= batch + seq![]);
        }
        return out;
    }
    let out = String::new();
    proof {
        reveal_strlit("");
        assert(out@ =~= seq![]);
    }
    out
}

/// The word for a result.
pub open spec fn status_word(changed: nat, dry_run: bool) -> Seq<char> {
    if changed == 0 {
        "no_changes"@
    } else if dry_run {
        "dry_run"@
    } else {
        "applied"@
    }
}

/// What is printed of a result.
pub open spec fn result_text(
    format: FixOutputFormat,
    dry_run: bool,
    ds: Seq<Diagnostic>,
    edits: Seq<TextEdit>,
    files: Seq<FileModel>,
    changed: Seq<FileId>,
    diff: Seq<char>,
    truncated: nat,
) -> Seq<char> {
    match format {
        FixOutputFormat::Json => fix_json_text(
            status_word(changed.len(), dry_run),
            dry_run,
            ds,
            edits,
            changed,
            files,
            None,
            truncated,
        ),
        FixOutputFormat::Text => if changed.len() == 0 {
            "No machine-applicable fixes available.\n"@
        } else {
            diff + (if dry_run {
                "Would apply"@
            } else {
                "Applied"@
            }) + " "@ + decimal(edits.len()) + " edit(s) to "@ + decimal(changed.len())
                + " file(s).\n"@
        },
    }
}

/// What is printed of a result.
pub fn emit_fix_result(
    format: FixOutputFormat,
    dry_run: bool,
    diagnostics: &[Diagnostic],
    edits: &[TextEdit],
    files: &Files,
    applied: &AppliedEdits,
    diff: &str,
    truncated_count: usize,
) -> (r: String)
    ensures
        r@ == result_text(
            format,
            dry_run,
            diagnostics@,
            edits@,
            files@,
            applied.changed_files@,
            diff@,
            truncated_count as nat,
        ),
{
    let unchanged = applied.changed_files.len() == 0;
    match format {
        FixOutputFormat::Json => {
            let status = if unchanged {
                "no_changes"
            } else if dry_run {
                "dry_run"
            } else {
                "applied"
            };
            fix_json_with_truncation(
                status,
                dry_run,
                diagnostics,
                edits,
                applied.changed_files.as_slice(),
                files,
                None,
                truncated_count,
            )
        },
        FixOutputFormat::Text => {
            if unchanged {
                return "No machine-applicable fixes available.\n".to_owned();
            }
            let mut out = diff.to_owned();
            out.append(if dry_run { "Would apply" } else { "Applied" });
            out.append(" ");
            out.append(decimal_string(edits.len()).as_str());
            out.append(" edit(s) to ");
            out.append(decimal_string(applied.changed_files.len()).as_str());
            out.append(" file(s).\n");
            out
        },
    }
}

/// Whether a text ends with another.
pub open spec fn ends_with_spec(text: Seq<char>, end: Seq<char>) -> bool {
    end.len() <= text.len() && text.skip(text.len() - end.len()) == end
}

/// Whether a path is that of a source file.
pub fn has_mux_extension(path: &str) -> (r: bool)
    ensures
        r == ends_with_spec(path@, ".mux"@),
{
    let chars = chars_of(path);
    proof {
        reveal_strlit(".mux");
    }
    let n: usize = chars.len();
    if n < 4 {
        return false;
    }
    let tail = string_of(&chars, n - 4, n);
    assert(tail@ =~= path@.skip(path@.len() - 4));
    crate::text::same(tail.as_str(), ".mux")
}

/// Why a path is refused.
pub fn check_fix_input(path: &str) -> (r: Result<(), String>)
    ensures
        match r {
            Ok(_) => ends_with_spec(path@, ".mux"@),
            Err(e) => !ends_with_spec(path@, ".mux"@) && e@
                == "Input file must have a .mux extension."@,
        },
{
    if has_mux_extension(path) {
        Ok(())
    } else {
        Err("Input file must have a .mux extension.".to_owned())
    }
}

/// What the command comes to: its exit status, what it prints, and the edits
/// to write. They are written before the result is printed.
pub struct FixOutcome {
    pub status: i32,
    /// What is printed of the diagnostics, in front of everything else.
    pub shown: String,
    pub printed: Printed,
    pub write: Option<AppliedEdits>,
    pub diagnostics: Vec<Diagnostic>,
    pub edits: Vec<TextEdit>,
}

/// What is told where the new texts were refused.
pub open spec fn refusal(reason: Seq<char>) -> Seq<char> {
    "fix transaction failed: "@ + reason
}

/// Applies edits in memory, lets `validate` judge the new texts, and shows
/// what changed.
pub fn apply_fix_transaction<F: FnOnce(&StagedFiles) -> Result<(), String>>(
    files: &Files,
    edits: &[TextEdit],
    recovery: &RecoveryIntervals,
    validate: F,
) -> (r: Result<(AppliedEdits, String), String>)
    requires
        forall|s: &StagedFiles| #[trigger] validate.requires((s,)),
    ensures
        match outcome(files@, edits@, recovery.intervals@) {
            Err(e) => r matches Err(message) && message@ == e.message(),
            Ok(done) => match r {
                Ok((a, diff)) => {
                    &&& (a.files@, a.changed_files@) == done
                    &&& diff@ == diff_of(files@, a.files@, a.files@.len() as int)
                    &&& done.1.len() > 0 ==> validate.ensures((&a.files,), Ok(()))
                },
                Err(message) => {
                    &&& done.1.len() > 0
                    &&& exists|s: StagedFiles, v: String|
                        s@ == done.0 && #[trigger] validate.ensures((&s,), Err(v)) && message@
                            == refusal(v@)
                },
            },
        },
{
    match apply_and_validate(files, edits, recovery, validate) {
        Ok(applied) => {
            let diff = unified_diff(files, &applied);
            Ok((applied, diff))
        },
        Err(e) => {
            let message = e.to_string();
            proof {
                match outcome(files@, edits@, recovery.intervals@) {
                    Ok(done) => {
                        let v = e->Transaction_0;
                        let s = choose|s: StagedFiles|
                            s@ == done.0 && #[trigger] validate.ensures((&s,), Err(v));
                        assert(validate.ensures((&s,), Err(v)) && message@ == refusal(v@));
                    },
                    Err(_) => {},
                }
            }
            Err(message)
        },
    }
}

/// Cuts diagnostics off at the limit.
fn limit(diagnostics: Vec<Diagnostic>) -> (r: (Vec<Diagnostic>, usize))
    ensures
        r.0@ == shown_part(diagnostics@),
        r.1 == left_out(diagnostics@),
{
    let mut kept = diagnostics;
    let n: usize = kept.len();
    if n > MAX_DIAGNOSTICS {
        kept.truncate(MAX_DIAGNOSTICS);
        assert(kept@ =~= diagnostics@.take(MAX_DIAGNOSTICS as int));
        (kept, n - MAX_DIAGNOSTICS)
    } else {
        (kept, 0)
    }
}

/// Fixes a program: `diagnostics` are those of its analysis and `recovery` the
/// ranges that parsing recovered from. Nothing is changed while an error, or a
/// denied warning, remains.
pub fn run_fix_command<F: FnOnce(&StagedFiles) -> Result<(), String>>(
    format: FixOutputFormat,
    dry_run: bool,
    deny_warnings: bool,
    files: &Files,
    diagnostics: Vec<Diagnostic>,
    recovery: &RecoveryIntervals,
    validate: F,
) -> (r: FixOutcome)
    requires
        all_fit(files@),
        forall|s: &StagedFiles| #[trigger] validate.requires((s,)),
    ensures
        ({
            let sorted = presented(diagnostics@, files@);
            let ds = shown_part(sorted);
            let truncated = left_out(sorted);
            &&& r.diagnostics@ == ds
            &&& match collected(ds, files@) {
                Err(e) => {
                    &&& r.status == 1
                    &&& r.write is None
                    &&& r.shown@ == Seq::<char>::empty()
                    &&& r.edits@.len() == 0
                    &&& r.printed.model() == failure_text(
                        format,
                        dry_run,
                        ds,
                        r.edits@,
                        files@,
                        e,
                    )
                },
                Ok(models) => {
                    &&& edit_models(r.edits@) == models
                    &&& r.shown@ == diagnostics_text(format, ds, files@, truncated)
                    &&& if blocks(diagnostics@, deny_warnings) {
                        &&& r.status == 1
                        &&& r.write is None
                        &&& r.printed.model() == (
                            if format == FixOutputFormat::Json {
                                fix_json_text(
                                    "error"@,
                                    dry_run,
                                    ds,
                                    r.edits@,
                                    seq![],
                                    files@,
                                    None,
                                    0,
                                )
                            } else {
                                seq![]
                            },
                            Seq::<char>::empty(),
                        )
                    } else {
                        match outcome(files@, r.edits@, recovery.intervals@) {
                            Err(e) => {
                                &&& r.status == 1
                                &&& r.write is None
                                &&& r.printed.model() == failure_text(
                                    format,
                                    dry_run,
                                    ds,
                                    r.edits@,
                                    files@,
                                    e.message(),
                                )
                            },
                            Ok(done) => if r.status == 0 {
                                &&& done.1.len() > 0 ==> exists|s: StagedFiles|
                                    s@ == done.0 && #[trigger] validate.ensures((&s,), Ok(()))
                                &&& r.printed.model() == (
                                    result_text(
                                        format,
                                        dry_run,
                                        ds,
                                        r.edits@,
                                        files@,
                                        done.1,
                                        diff_of(files@, done.0, done.0.len() as int),
                                        truncated,
                                    ),
                                    Seq::<char>::empty(),
                                )
                                &&& (r.write is Some) == (!dry_run && done.1.len() > 0)
                                &&& r.write matches Some(a) ==> (a.files@, a.changed_files@) == done
                            } else {
                                &&& r.status == 1
                                &&& r.write is None
                                &&& done.1.len() > 0
                                &&& exists|s: StagedFiles, v: String|
                                    s@ == done.0 && #[trigger] validate.ensures((&s,), Err(v))
                                        && r.printed.model() == failure_text(
                                        format,
                                        dry_run,
                                        ds,
                                        r.edits@,
                                        files@,
                                        refusal(v@),
                                    )
                            },
                        }
                    }
                },
            }
        }),
{
    proof {
        reveal_strlit("");
        assert(""@ =~= Seq::<char>::empty());
    }
    let blocked = has_blocking_diagnostics(diagnostics.as_slice(), deny_warnings);
    let sorted = sort_fix_diagnostics(diagnostics, files);
    let (ds, truncated) = limit(sorted);
    let edits = match collect_fix_edits(ds.as_slice(), files) {
        Ok(edits) => edits,
        Err(e) => {
            let none: Vec<TextEdit> = Vec::new();
            let printed = report_fix_error(
                format,
                dry_run,
                ds.as_slice(),
                none.as_slice(),
                files,
                e.as_str(),
            );
            return FixOutcome {
                status: 1,
                shown: String::new(),
                printed,
                write: None,
                diagnostics: ds,
                edits: none,
            };
        },
    };
    let shown = emit_fix_diagnostics(format, ds.as_slice(), files, truncated);
    if blocked {
        let none: Vec<FileId> = Vec::new();
        assert(none@ =~= seq![]);
        let out = match format {
            FixOutputFormat::Json => fix_json(
                "error",
                dry_run,
                ds.as_slice(),
                edits.as_slice(),
                none.as_slice(),
                files,
                None,
            ),
            FixOutputFormat::Text => String::new(),
        };
        return FixOutcome {
            status: 1,
            shown,
            printed: Printed { out, err: String::new() },
            write: None,
            diagnostics: ds,
            edits,
        };
    }
    match apply_fix_transaction(files, edits.as_slice(), recovery, validate) {
        Err(e) => {
            let printed = report_fix_error(
                format,
                dry_run,
                ds.as_slice(),
                edits.as_slice(),
                files,
                e.as_str(),
            );
            FixOutcome { status: 1, shown, printed, write: None, diagnostics: ds, edits }
        },
        Ok((applied, diff)) => {
            let out = emit_fix_result(
                format,
                dry_run,
                ds.as_slice(),
                edits.as_slice(),
                files,
                &applied,
                diff.as_str(),
                truncated,
            );
            let changed = applied.changed_files.len() > 0;
            let write = if !dry_run && changed {
                Some(applied)
            } else {
                None
            };
            FixOutcome {
                status: 0,
                shown,
                printed: Printed { out, err: String::new() },
                write,
                diagnostics: ds,
                edits,
            }
        },
    }
}

/// Messages of errors.
pub open spec fn fault_messages(errors: Seq<Fault>) -> Seq<Seq<char>> {
    errors.map_values(|e: Fault| e.message)
}

/// The text of a file with edits applied: the new one, or else the registered
/// one.
pub open spec fn staged_text(
    files: Seq<FileModel>,
    staged: Seq<(FileId, Seq<char>)>,
    id: FileId,
    text: Seq<char>,
) -> bool {
    if exists|i: int| 0 <= i < staged.len() && (#[trigger] staged[i]).0 == id {
        exists|i: int| 0 <= i < staged.len() && #[trigger] staged[i] == (id, text)
    } else {
        id.0 < files.len() && files[id.0 as int].1 == text
    }
}

/// The text of a file with edits applied.
pub fn staged_source<'a>(files: &'a Files, updates: &'a StagedFiles, id: FileId) -> (r: Option<&'a str>)
    ensures
        match r {
            Some(text) => staged_text(files@, updates@, id, text@),
            None => id.0 >= files@.len() && forall|i: int|
                0 <= i < updates@.len() ==> (#[trigger] updates@[i]).0 != id,
        },
{
    match updates.get(&id) {
        Some(text) => Some(text.as_str()),
        None => files.source(id),
    }
}

/// Parses the root file as it would be with edits applied. An error gives the
/// messages of all errors.
pub fn parse_staged_root(text: &str) -> (r: Result<Vec<AstNode>, String>)
    requires
        fits(text@),
    ensures
        match lexing_fault(text@) {
            Some(e) => r matches Err(message) && message@ == e.message,
            None => exists|tokens: Seq<Token>| #[trigger]
                tokens_of(text@, tokens) && ({
                    let (s, nodes) = parsing(tokens);
                    if s.errors.len() == 0 {
                        r matches Ok(n) && nodes_of(n@) == nodes
                    } else {
                        r matches Err(message) && message@ == joined(
                            fault_messages(s.errors),
                            "; "@,
                        )
                    }
                }),
        },
{
    let tokens = match lex_text(text) {
        Ok(tokens) => tokens,
        Err(e) => {
            return Err(e.message);
        },
    };
    assert(tokens_of(text@, tokens@));
    let parsed = parse_tokens(text, &tokens, FileId(0));
    if parsed.diagnostics.len() == 0 {
        return Ok(parsed.nodes);
    }
    let ghost errors = parsing(tokens@).0.errors;
    let mut messages: Vec<String> = Vec::new();
    let mut i: usize = 0;
    while i < parsed.diagnostics.len()
        invariant
            i == messages@.len() <= parsed.diagnostics@.len(),
            parsed.of(text@, tokens@, FileId(0)),
            errors == parsing(tokens@).0.errors,
            forall|j: int| 0 <= j < i ==> (#[trigger] messages@[j])@ == errors[j].message,
        decreases parsed.diagnostics@.len() - i,
    {
        assert(parsed.diagnostics@[i as int].message@ == errors[i as int].message);
        messages.push(parsed.diagnostics[i].message.clone());
        i += 1;
    }
    assert(views(messages@) =~= fault_messages(errors));
    Err(join(&messages, "; "))
}

/// The messages of the first `n` errors; warnings do not count.
pub open spec fn blocking_texts(errors: Seq<(DiagnosticCode, String)>, n: int) -> Seq<Seq<char>>
    decreases n,
{
    if n <= 0 || n > errors.len() {
        seq![]
    } else if errors[n - 1].0.level() == Level::Error {
        blocking_texts(errors, n - 1).push(errors[n - 1].1@)
    } else {
        blocking_texts(errors, n - 1)
    }
}

/// Judges staged sources by the findings of the analysis: errors refuse them.
pub fn judge_staged_sources(findings: &Vec<(DiagnosticCode, String)>) -> (r: Result<(), String>)
    ensures
        ({
            let messages = blocking_texts(findings@, findings@.len() as int);
            if messages.len() == 0 {
                r == Ok::<(), String>(())
            } else {
                r matches Err(e) && e@ == joined(messages, "; "@)
            }
        }),
{
    let mut messages: Vec<String> = Vec::new();
    let mut i: usize = 0;
    assert(views(messages@) =~= seq![]);
    while i < findings.len()
        invariant
            i <= findings@.len(),
            views(messages@) == blocking_texts(findings@, i as int),
        decreases findings@.len() - i,
    {
        if findings[i].0.level() == Level::Error {
            let ghost before = views(messages@);
            messages.push(findings[i].1.clone());
            assert(views(messages@) =~= before.push(findings@[i as int].1@));
        }
        i += 1;
    }
    assert(views(messages@).len() == messages@.len());
    if messages.len() == 0 {
        Ok(())
    } else {
        Err(join(&messages, "; "))
    }
}

/// The part of an analysis that a fix goes by: the diagnostics that recovered
/// source has nothing to do with, of the first `n`.
pub open spec fn untouched(
    ds: Seq<Diagnostic>,
    files: Seq<FileModel>,
    recovery: Seq<(FileId, SourceRange)>,
    n: int,
) -> Seq<Diagnostic>
    decreases n,
{
    if n <= 0 || n > ds.len() {
        seq![]
    } else if touches_recovery(ds[n - 1], files, recovery) {
        untouched(ds, files, recovery, n - 1)
    } else {
        untouched(ds, files, recovery, n - 1).push(ds[n - 1])
    }
}

/// All diagnostics of a program: those of its syntax and of its modules, and
/// those of its analysis that do not touch recovered source.
pub fn analyze_fix_source(
    syntax: Vec<Diagnostic>,
    modules: Vec<Diagnostic>,
    findings: Vec<Diagnostic>,
    files: &Files,
    recovery: &RecoveryIntervals,
) -> (r: Vec<Diagnostic>)
    requires
        all_fit(files@),
    ensures
        r@ == syntax@ + modules@ + untouched(
            findings@,
            files@,
            recovery.intervals@,
            findings@.len() as int,
        ),
{
    let mut out = syntax;
    let mut modules = modules;
    out.append(&mut modules);
    let ghost front = out@;
    let ghost all = findings@;
    let mut rest = findings;
    let ghost mut n: int = 0;
    assert(all.skip(0) =~= all);
    assert(out@ =~= front + untouched(all, files@, recovery.intervals@, 0));
    while rest.len() > 0
        invariant
            0 <= n <= all.len(),
            all_fit(files@),
            rest@ == all.skip(n),
            out@ == front + untouched(all, files@, recovery.intervals@, n),
        decreases rest@.len(),
    {
        let d = rest.remove(0);
        assert(d == all[n]);
        if !diagnostic_touches_recovery(&d, files, recovery) {
            out.push(d);
        }
        assert(out@ =~= front + untouched(all, files@, recovery.intervals@, n + 1));
        proof {
            n = n + 1;
        }
        assert(rest@ =~= all.skip(n));
    }
    out
}

/// The collected edits come by file, then by their start.
pub proof fn collected_edits_are_sorted(ds: Seq<Diagnostic>, files: Seq<FileModel>, i: int, j: int)
    requires
        collected(ds, files) is Ok,
        0 <= i < j < collected(ds, files)->Ok_0.len(),
    ensures
        ({
            let a = collected(ds, files)->Ok_0[i];
            let b = collected(ds, files)->Ok_0[j];
            &&& a.file_id.0 <= b.file_id.0
            &&& a.file_id == b.file_id ==> a.range.start_byte <= b.range.start_byte
        }),
{
    let more = materialized(ds, 0, files, seq![])->Ok_0;
    let all = own_edits(ds, ds.len() as int) + more;
    let keys = edit_keys(all);
    let n = all.len() as int;
    let order = arranged(keys, n);
    arranged_is_ordered(keys, n);
    arranged_in_range(keys, n);
    let a = all[order[i]];
    let b = all[order[j]];
    assert(!less(keys[order[j]], keys[order[i]]));
    assert(keys[order[i]] == edit_key(a));
    assert(keys[order[j]] == edit_key(b));
    reveal_with_fuel(less_from, 3);
}

} // verus!
