//! What fixing reports and puts in.

use crate::diagnostic::catalog::DiagnosticCode;
use crate::diagnostic::edit::{Applicability, SourceRange, SpanEdit};
use crate::diagnostic::files::{FileId, FileModel};
use crate::diagnostic::fix::{boundary_index, range_of};
use crate::diagnostic::report::{Diagnostic, Level};
use crate::driver::fixes::{
    blocking_texts, ends_with_spec, materialized_one, replacement_text, status_word,
    touches_recovery, untouched,
};
use crate::text::byte_len;
use vstd::prelude::*;

verus! {

/// A run that changes nothing says so, whether it was only tried or not; one that
/// changes something tells trying from doing.
pub proof fn status_tells_what_happened(changed: nat)
    requires
        changed > 0,
    ensures
        status_word(0, true) == status_word(0, false),
        status_word(0, false) == "no_changes"@,
        status_word(changed, true) == "dry_run"@,
        status_word(changed, false) == "applied"@,
{
}

/// A text ends with its own end, and with nothing else of that length.
pub proof fn ends_are_compared_whole(front: Seq<char>, end: Seq<char>, other: Seq<char>)
    ensures
        ends_with_spec(front + end, end),
        other.len() == end.len() && other != end ==> !ends_with_spec(front + end, other),
        end.len() > 0 ==> !ends_with_spec(seq![], end),
{
    assert((front + end).skip(front.len() as int) =~= end);
}

/// What an edit copies from a span is the text from the character at the span's
/// start up to the one at its end.
pub proof fn copied_text_is_that_of_the_span(
    d: Diagnostic,
    e: SpanEdit,
    target: FileId,
    files: Seq<FileModel>,
    range: SourceRange,
    i: int,
    j: int,
)
    requires
        target.0 < files.len(),
        e.replacement_file is None,
        e.replacement is Source,
        range_of(files[target.0 as int].1, e.replacement->Source_0) == Result::<
            SourceRange,
            &'static str,
        >::Ok(range),
        0 <= i <= j <= files[target.0 as int].1.len(),
        range.start_byte == byte_len(files[target.0 as int].1.take(i)),
        range.end_byte == byte_len(files[target.0 as int].1.take(j)),
    ensures
        replacement_text(d, e, target, files) == Result::<Seq<char>, Seq<char>>::Ok(
            files[target.0 as int].1.subrange(i, j),
        ),
{
    let text = files[target.0 as int].1;
    boundary_index(text, range.start_byte as nat);
    boundary_index(text, range.end_byte as nat);
}

/// An edit with a text of its own puts in that text, at its own range in the file
/// that it names, or else in the diagnostic's file, and keeps its code.
pub proof fn written_text_is_put_in(
    d: Diagnostic,
    e: SpanEdit,
    files: Seq<FileModel>,
    id: FileId,
    range: SourceRange,
)
    requires
        e.replacement is Text,
        e.target_file == Some(id) || (e.target_file is None && d.file_id == Some(id)),
        id.0 < files.len(),
        range_of(files[id.0 as int].1, e.target) == Result::<SourceRange, &'static str>::Ok(range),
    ensures
        materialized_one(d, e, files) matches Ok(m) && m.file_id == id && m.range == range
            && m.replacement == e.replacement->Text_0@ && m.diagnostic_code == e.diagnostic_code
            && m.applicability == Applicability::MachineApplicable,
{
}

/// Staged sources are refused for every error, and for nothing but errors.
pub proof fn errors_refuse_staged_sources(findings: Seq<(DiagnosticCode, String)>, n: int, i: int)
    requires
        0 <= i < n <= findings.len(),
    ensures
        findings[i].0.level() == Level::Error ==> blocking_texts(findings, n).contains(
            findings[i].1@,
        ),
        (forall|k: int| 0 <= k < n ==> (#[trigger] findings[k]).0.level() != Level::Error)
            ==> blocking_texts(findings, n).len() == 0,
    decreases n,
{
    let r = blocking_texts(findings, n);
    let before = blocking_texts(findings, n - 1);
    if i < n - 1 {
        errors_refuse_staged_sources(findings, n - 1, i);
        if before.contains(findings[i].1@) {
            let k = choose|k: int| 0 <= k < before.len() && before[k] == findings[i].1@;
            assert(r[k] == findings[i].1@);
        }
    } else {
        if n > 1 {
            errors_refuse_staged_sources(findings, n - 1, 0);
        }
        if findings[i].0.level() == Level::Error {
            assert(r[r.len() - 1] == findings[i].1@);
        }
    }
}

/// Findings are kept where they touch no recovered source, in their order, and
/// dropped where they do.
pub proof fn findings_in_recovered_source_are_dropped(
    ds: Seq<Diagnostic>,
    files: Seq<FileModel>,
    recovery: Seq<(FileId, SourceRange)>,
    n: int,
    i: int,
)
    requires
        0 <= i < n <= ds.len(),
    ensures
        !touches_recovery(ds[i], files, recovery) ==> untouched(ds, files, recovery, n).contains(
            ds[i],
        ),
        forall|k: int|
            0 <= k < untouched(ds, files, recovery, n).len() ==> !touches_recovery(
                #[trigger] untouched(ds, files, recovery, n)[k],
                files,
                recovery,
            ),
        untouched(ds, files, recovery, n).len() <= n,
    decreases n,
{
    let r = untouched(ds, files, recovery, n);
    let before = untouched(ds, files, recovery, n - 1);
    if i < n - 1 {
        findings_in_recovered_source_are_dropped(ds, files, recovery, n - 1, i);
        if before.contains(ds[i]) {
            let k = choose|k: int| 0 <= k < before.len() && before[k] == ds[i];
            assert(r[k] == ds[i]);
        }
    } else {
        if n > 1 {
            findings_in_recovered_source_are_dropped(ds, files, recovery, n - 1, 0);
        }
        if !touches_recovery(ds[i], files, recovery) {
            assert(r[r.len() - 1] == ds[i]);
        }
    }
}

} // verus!
