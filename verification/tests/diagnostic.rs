use mux_compiler::paths::{are_same_path, normalized_path};
use mux_compiler::diagnostic::diff::{changed_updates, unified_diff};
use mux_compiler::diagnostic::fix::{
    apply_and_validate, apply_in_memory, ranges_overlap, reject_embedded_file,
    source_range_for_span, FixError, RecoveryIntervals,
};
use mux_compiler::diagnostic::transaction::{
    abort_stale_transaction, committed, lock_error, reject_duplicate_target, reject_non_file,
    reject_stale_target, rollback_backup, rollback_error, rollback_failure, rollback_replacement,
    rollback_staging, stale_error, transaction_file_name, Undo,
};
use mux_compiler::diagnostic::transaction_run::{Action, Event, Transaction};
use mux_compiler::diagnostic::{
    diagnostic_from_parts_with_help, Applicability, ColorConfig, Diagnostic, DiagnosticCode,
    DiagnosticEmitter, FileId, Files, Label, Level, SourceRange, StandardEmitter, Styles, TextEdit,
    ToDiagnostic, MAX_DIAGNOSTICS,
};
use mux_compiler::lexer::{LexerError, Span};

#[test]
fn registry_codes_are_unique_and_round_trip() {
    let mut seen = std::collections::HashSet::new();
    for code in DiagnosticCode::all() {
        assert!(seen.insert(code.as_str()));
        assert_eq!(DiagnosticCode::parse(code.as_str()), Some(*code));
        let info = code.info();
        assert_eq!(info.level, code.level());
        assert!(!info.trigger.is_empty());
        assert!(!info.example.is_empty());
        assert!(!info.explanation.is_empty());
        assert!(!info.fix.is_empty());
    }
}

#[test]
fn reserved_codes_are_not_published_as_emitted_diagnostics() {
    let emitted = DiagnosticCode::all();
    for code in DiagnosticCode::reserved() {
        assert!(!emitted.contains(code), "{} is reserved and emitted", code.as_str());
    }
}

fn diagnostic(code: DiagnosticCode, file_id: FileId, row: usize) -> Diagnostic {
    Diagnostic::new(code)
        .with_label(Label::primary(Span::new(row, 1), ""))
        .with_file_id(file_id)
}

#[test]
fn batch_order_is_stable_across_input_order() {
    let mut files = Files::new();
    let b = files.add("b.mux", "x\n".to_owned());
    let a = files.add("a.mux", "x\n".to_owned());
    let diagnostics = vec![
        diagnostic(DiagnosticCode::ImportFailure, b, 1),
        diagnostic(DiagnosticCode::UnusedBinding, a, 1),
        diagnostic(DiagnosticCode::UndefinedName, a, 1),
    ];

    let ordered = StandardEmitter::ordered_diagnostics(&diagnostics, &files);
    let codes: Vec<_> = ordered.iter().map(|place| diagnostics[*place].code).collect();
    assert_eq!(
        codes,
        vec![
            DiagnosticCode::UndefinedName,
            DiagnosticCode::UnusedBinding,
            DiagnosticCode::ImportFailure,
        ]
    );
}

#[test]
fn batch_limit_is_explicit_and_bounded() {
    assert_eq!(MAX_DIAGNOSTICS, 100);
}

#[test]
fn invalid_provenance_emits_a_controlled_internal_error() {
    let emitter = StandardEmitter::new(ColorConfig::Auto);
    let files = Files::new();
    let diagnostic = Diagnostic::new(DiagnosticCode::UndefinedName);

    let text = emitter.emit(&diagnostic, &files);
    assert!(text.contains("internal compiler error while rendering a diagnostic"));
    assert!(text.contains("diagnostic has no source file"));
}

fn files(source: &str) -> (Files, FileId) {
    let mut files = Files::new();
    let file_id = files.add("test.mux", source.to_string());
    (files, file_id)
}

#[test]
fn maps_ascii_and_unicode_spans_to_utf8_bytes() {
    let source = "auto x = \u{3053}\u{3093}\u{306B}\u{3061}\u{306F}\nvalue\n";
    let span = Span {
        row_start: 1,
        row_end: Some(1),
        col_start: 10,
        col_end: Some(20),
    };
    let range = source_range_for_span(source, span).unwrap();
    assert_eq!(
        &source[range.start_byte..range.end_byte],
        "\u{3053}\u{3093}\u{306B}\u{3061}\u{306F}"
    );

    let second_line = Span {
        row_start: 2,
        row_end: None,
        col_start: 1,
        col_end: None,
    };
    assert_eq!(
        source_range_for_span(source, second_line)
            .unwrap()
            .start_byte,
        25
    );
}

#[test]
fn rejects_invalid_and_overlapping_edits() {
    let (files, file_id) = files("abcdef");
    let edits = [
        TextEdit::machine_applicable(
            file_id,
            SourceRange::new(1, 3),
            "x",
            DiagnosticCode::RedundantConstruct,
        ),
        TextEdit::machine_applicable(
            file_id,
            SourceRange::new(2, 4),
            "y",
            DiagnosticCode::RedundantConstruct,
        ),
    ];
    assert!(matches!(
        apply_in_memory(&files, &edits, &RecoveryIntervals::new()),
        Err(FixError::OverlappingEdits { .. })
    ));

    let invalid = [TextEdit::machine_applicable(
        file_id,
        SourceRange::new(2, 20),
        "x",
        DiagnosticCode::RedundantConstruct,
    )];
    assert!(matches!(
        apply_in_memory(&files, &invalid, &RecoveryIntervals::new()),
        Err(FixError::InvalidRange { .. })
    ));
}

#[test]
fn rejects_non_machine_applicable_and_recovery_edits() {
    let (files, file_id) = files("abcdef");
    let mut recovery = RecoveryIntervals::new();
    recovery.add(file_id, SourceRange::new(2, 4));
    let edit = TextEdit {
        file_id,
        range: SourceRange::new(2, 3),
        replacement: "x".into(),
        applicability: Applicability::MaybeIncorrect,
        diagnostic_code: DiagnosticCode::RedundantConstruct,
        solution_id: None,
    };
    assert!(matches!(
        apply_in_memory(&files, &[edit], &recovery),
        Err(FixError::NonMachineApplicable { .. })
    ));

    let edit = TextEdit::machine_applicable(
        file_id,
        SourceRange::new(2, 3),
        "x",
        DiagnosticCode::RedundantConstruct,
    );
    assert!(matches!(
        apply_in_memory(&files, &[edit], &recovery),
        Err(FixError::RecoveryRange { .. })
    ));
}

#[test]
fn applies_edits_from_right_to_left() {
    let (files, file_id) = files("abcdef");
    let edits = [
        TextEdit::machine_applicable(
            file_id,
            SourceRange::new(0, 1),
            "A",
            DiagnosticCode::RedundantConstruct,
        ),
        TextEdit::machine_applicable(
            file_id,
            SourceRange::new(4, 6),
            "EF",
            DiagnosticCode::RedundantConstruct,
        ),
    ];
    let result = apply_in_memory(&files, &edits, &RecoveryIntervals::new()).unwrap();
    assert_eq!(result.files.get(&file_id).unwrap(), "AbcdEF");
    assert_eq!(result.changed_files, vec![file_id]);
}

#[test]
fn unified_diff_has_valid_hunk_counts_and_no_newline_markers() {
    let (files, file_id) = files("first\nsecond");
    let edit = TextEdit::machine_applicable(
        file_id,
        SourceRange::new(6, 12),
        "changed",
        DiagnosticCode::RedundantConstruct,
    );
    let applied = apply_in_memory(&files, &[edit], &RecoveryIntervals::new()).unwrap();
    let diff = unified_diff(&files, &applied);
    assert!(diff.contains("@@ -1,2 +1,2 @@\n"), "diff: {diff}");
    assert!(diff.contains("-first\n-second\n\\ No newline at end of file\n"));
    assert!(diff.contains("+first\n+changed\n\\ No newline at end of file\n"));
}

#[test]
fn severity_styles_render_bold_colored_text() {
    let styles = Styles;
    assert_eq!(styles.error("e"), "\u{1b}[1m\u{1b}[31me\u{1b}[0m");
    assert_eq!(styles.warning("w"), "\u{1b}[1m\u{1b}[33mw\u{1b}[0m");
    assert_eq!(styles.note("n"), "\u{1b}[1m\u{1b}[36mn\u{1b}[0m");
    assert_eq!(styles.help("h"), "\u{1b}[1m\u{1b}[36mh\u{1b}[0m");
}

#[test]
fn structural_styles_render_expected_codes() {
    let styles = Styles::new(ColorConfig::Auto);
    assert_eq!(styles.bold("b"), "\u{1b}[1mb\u{1b}[0m");
    assert_eq!(styles.location("--> f:1:2"), "\u{1b}[36m--> f:1:2\u{1b}[0m");
    assert_eq!(styles.primary_label("^^^"), "\u{1b}[31m^^^\u{1b}[0m");
    assert_eq!(
        styles.secondary_label("---"),
        "\u{1b}[38;2;96;165;250m---\u{1b}[0m"
    );
    assert_eq!(
        styles.line_number("12"),
        "\u{1b}[1m\u{1b}[38;2;96;165;250m12\u{1b}[0m"
    );
}

fn edit(file_id: FileId, start: usize, end: usize, text: &str) -> TextEdit {
    TextEdit::machine_applicable(
        file_id,
        SourceRange::new(start, end),
        text,
        DiagnosticCode::RedundantConstruct,
    )
}

#[test]
fn each_fix_error_has_its_message() {
    let (mut files, file_id) = files("ab\u{e9}");
    let embedded = files.add("<embedded>/std.mux", "x".to_string());
    let none = RecoveryIntervals::new();
    let unknown = apply_in_memory(&files, &[edit(FileId(7), 0, 1, "x")], &none).unwrap_err();
    assert_eq!(unknown, FixError::UnknownFile(FileId(7)));
    assert_eq!(unknown.to_string(), "edit refers to unknown file FileId(7)");
    let refused = apply_in_memory(&files, &[edit(embedded, 0, 1, "x")], &none).unwrap_err();
    assert_eq!(refused.to_string(), "edits to embedded file FileId(1) are not allowed");
    // The accented letter takes two bytes, so byte 3 is inside of it.
    let inside = apply_in_memory(&files, &[edit(file_id, 3, 4, "x")], &none).unwrap_err();
    assert_eq!(
        inside.to_string(),
        "edit for FileId(0) has invalid byte range 3..4 (source length 4)"
    );
    let clash = [edit(file_id, 0, 2, "x"), edit(file_id, 1, 2, "y")];
    assert_eq!(
        apply_in_memory(&files, &clash, &none).unwrap_err().to_string(),
        "machine-applicable edits overlap in FileId(0)"
    );
    let mut recovery = RecoveryIntervals::new();
    recovery.add(file_id, SourceRange::new(0, 2));
    assert_eq!(
        apply_in_memory(&files, &[edit(file_id, 1, 2, "x")], &recovery)
            .unwrap_err()
            .to_string(),
        "edit for FileId(0) touches recovered source at 1..2"
    );
    let mut doubtful = edit(file_id, 0, 1, "x");
    doubtful.applicability = Applicability::MaybeIncorrect;
    assert!(apply_in_memory(&files, &[doubtful], &none)
        .unwrap_err()
        .to_string()
        .ends_with(" is not machine-applicable (MaybeIncorrect)"));
    let span = Span { row_start: 0, row_end: None, col_start: 1, col_end: None };
    assert_eq!(
        source_range_for_span("a", span).unwrap_err().to_string(),
        "cannot map diagnostic span at 0:1 to bytes: locations are one-based"
    );
    assert_eq!(
        FixError::Io("denied".to_string()).to_string(),
        "I/O error while applying fixes: denied"
    );
    assert_eq!(
        FixError::Transaction("stale".to_string()).to_string(),
        "fix transaction failed: stale"
    );
}

#[test]
fn spans_that_lie_nowhere_are_refused() {
    let at = |row, col| Span { row_start: row, row_end: None, col_start: col, col_end: None };
    let reason = |span| match source_range_for_span("a\u{3053}b\n", span) {
        Err(FixError::InvalidLocation { reason, .. }) => reason,
        other => panic!("unexpected {other:?}"),
    };
    // The wide character takes columns 2 and 3.
    assert_eq!(
        reason(at(1, 3)),
        "location is outside the source or inside a wide character"
    );
    assert_eq!(
        reason(at(9, 1)),
        "location is outside the source or inside a wide character"
    );
    let half = Span { row_start: 1, row_end: Some(1), col_start: 1, col_end: None };
    assert_eq!(reason(half), "span has only one end coordinate");
    let backwards = Span { row_start: 1, row_end: Some(1), col_start: 4, col_end: Some(1) };
    assert_eq!(reason(backwards), "span end precedes its start");
    assert_eq!(source_range_for_span("a\u{3053}b\n", at(1, 4)).unwrap().start_byte, 4);
}

#[test]
fn empty_ranges_overlap_where_they_lie() {
    let empty = SourceRange::new(2, 2);
    assert!(ranges_overlap(empty, SourceRange::new(2, 4)));
    assert!(!ranges_overlap(empty, SourceRange::new(0, 2)));
    assert!(ranges_overlap(empty, SourceRange::new(2, 2)));
    assert!(!ranges_overlap(SourceRange::new(0, 2), SourceRange::new(2, 4)));
    assert!(reject_embedded_file(FileId(0), "src/main.mux").is_ok());
    assert!(reject_embedded_file(FileId(0), "<embedded>/io.mux").is_err());
}

#[test]
fn refused_texts_are_not_applied() {
    let (files, file_id) = files("abc");
    let edits = [edit(file_id, 0, 1, "X")];
    let none = RecoveryIntervals::new();
    let ok = apply_and_validate(&files, &edits, &none, |s| {
        assert_eq!(s.get(&file_id).unwrap(), "Xbc");
        Ok(())
    });
    assert_eq!(ok.unwrap().changed_files, vec![file_id]);
    let refused = apply_and_validate(&files, &edits, &none, |_| Err("no".to_string()));
    assert!(refused.unwrap_err().to_string().contains("no"));
}

#[test]
fn unchanged_files_have_no_diff() {
    let (files, file_id) = files("abc");
    let same = apply_in_memory(&files, &[edit(file_id, 0, 3, "abc")], &RecoveryIntervals::new())
        .unwrap();
    assert!(same.changed_files.is_empty());
    assert_eq!(unified_diff(&files, &same), "");
    assert!(changed_updates(&files, &same.files).unwrap().is_empty());
}

#[test]
fn files_keep_their_ids_and_texts() {
    let mut files = Files::new();
    let a = files.add("a.mux", "one".to_string());
    let b = files.add("b.mux", "two".to_string());
    assert_eq!(files.add("a.mux", "three".to_string()), a);
    assert_eq!(files.source(a), Some("one"));
    assert_eq!(files.path(b), Some("b.mux"));
    assert_eq!(files.id_for_path("b.mux"), Some(b));
    assert_eq!(files.id_for_path("c.mux"), None);
    assert_eq!(files.source(FileId(9)), None);
    assert_eq!(files.iter().len(), 2);
}

#[test]
fn a_diagnostic_is_rendered_with_its_line() {
    let (files, file_id) = files("let x\nlet y\n");
    let span = Span { row_start: 2, row_end: Some(2), col_start: 5, col_end: Some(6) };
    let diagnostic = diagnostic_from_parts_with_help(
        DiagnosticCode::UndefinedName,
        "unknown",
        Some("define it"),
        span,
        file_id,
    );
    assert_eq!(diagnostic.level, Level::Error);
    let text = StandardEmitter::new(ColorConfig::Auto).emit(&diagnostic, &files);
    let line_number = "\u{1b}[1m\u{1b}[38;2;96;165;250m 2\u{1b}[0m | let y\n";
    assert!(text.contains(line_number), "{text:?}");
    assert!(text.contains("--> test.mux:2:5"));
    assert!(text.contains("   |     \u{1b}[31m^\u{1b}[0m\n"), "{text:?}");
    assert!(text.contains("define it\n"));
    let batch = StandardEmitter::new(ColorConfig::Auto).emit_batch(&[diagnostic], &files);
    assert!(batch.starts_with("\u{1b}[1m\u{1b}[31merror\u{1b}[0m: 1 error found\n\n"));
}

#[test]
fn lexer_errors_become_diagnostics() {
    let span = Span::new(3, 4);
    let error = LexerError::with_help(
        DiagnosticCode::LexInvalidNumber,
        "bad number",
        span,
        "write digits",
    );
    let diagnostic = error.to_diagnostic(FileId(2));
    assert_eq!(diagnostic.code, DiagnosticCode::LexInvalidNumber);
    assert_eq!(diagnostic.message, "bad number");
    assert_eq!(diagnostic.help.as_deref(), Some("write digits"));
    assert_eq!(diagnostic.labels[0].span, span);
    assert_eq!(diagnostic.file_id, Some(FileId(2)));
    assert_eq!(error.to_string(), "Lexer error at 3:4 - bad number");
}

#[test]
fn transactions_are_undone() {
    assert_eq!(
        transaction_file_name("a.mux", 12, 3, 1, "tmp"),
        ".a.mux.mux-fix-12-4.tmp"
    );
    let staged = Undo::RemoveStaged;
    assert_eq!(rollback_staging(2), vec![staged(2), staged(0), staged(1)]);
    assert_eq!(
        rollback_backup(1, 2),
        vec![staged(0), staged(1), Undo::Restore(0)]
    );
    assert_eq!(
        rollback_replacement(1, 2),
        vec![staged(1), Undo::Restore(1), Undo::Restore(0)]
    );
    assert_eq!(
        abort_stale_transaction(1, 3),
        vec![
            staged(0),
            staged(1),
            staged(2),
            Undo::Restore(0),
            Undo::RemoveBackup(1),
            Undo::RemoveBackup(2),
        ]
    );
    assert_eq!(committed(2), vec![Undo::RemoveBackup(0), Undo::RemoveBackup(1)]);
}

#[test]
fn transactions_tell_what_failed() {
    let mut seen = Vec::new();
    assert!(reject_duplicate_target(&mut seen, "/a").is_ok());
    assert_eq!(
        reject_duplicate_target(&mut seen, "/a").unwrap_err().to_string(),
        "fix transaction failed: multiple edits resolve to the same file: /a"
    );
    assert!(reject_non_file("/a", true).is_ok());
    assert!(reject_non_file("/a", false).unwrap_err().to_string().ends_with("/a is not a regular file"));
    assert!(reject_stale_target("/a", true).is_ok());
    assert!(reject_stale_target("/a", false)
        .unwrap_err()
        .to_string()
        .contains("changed after analysis"));
    assert!(lock_error("/a", "busy").to_string().ends_with("could not lock /a for editing: busy"));
    let none = Vec::new();
    assert_eq!(
        rollback_error(&none, "/a", "full".to_string(), "replace"),
        FixError::Io("full".to_string())
    );
    let failures = vec![rollback_failure(true, "/b", "x"), rollback_failure(false, "/c", "y")];
    assert_eq!(
        rollback_error(&failures, "/a", "full".to_string(), "replace"),
        FixError::Transaction(
            "could not replace /a: full; rollback also failed: remove /b: x; restore /c: y"
                .to_string()
        )
    );
    assert_eq!(
        stale_error(&none, "/a"),
        FixError::Transaction("/a changed during fix; refusing to overwrite it".to_string())
    );
    assert!(stale_error(&failures, "/a").to_string().contains("rollback also failed: remove /b: x"));
}

/// Runs a transaction on two files, with one action that does not work.
fn run(failing: Action, event: fn() -> Event) -> (Vec<Action>, Option<Result<(), FixError>>) {
    let mut transaction = Transaction::new(vec!["/a".to_string(), "/b".to_string()]);
    let mut actions = Vec::new();
    loop {
        let action = transaction.action();
        if action == Action::Stop {
            return (actions, transaction.result());
        }
        assert!(transaction.result().is_none());
        actions.push(action);
        transaction.advance(if action == failing { event() } else { Event::Done });
    }
}

#[test]
fn transactions_change_all_files_or_none() {
    let (actions, result) = run(Action::Stop, || Event::Done);
    assert_eq!(result, Some(Ok(())));
    assert_eq!(
        actions,
        vec![
            Action::Stage(0),
            Action::Stage(1),
            Action::BackUp(0),
            Action::BackUp(1),
            Action::Compare(0),
            Action::Replace(0),
            Action::Compare(1),
            Action::Replace(1),
            Action::Revert(Undo::RemoveBackup(0)),
            Action::Revert(Undo::RemoveBackup(1)),
        ]
    );
    let full = || Event::Failed("full".to_string());
    let (actions, result) = run(Action::Replace(1), full);
    assert_eq!(result, Some(Err(FixError::Io("full".to_string()))));
    assert!(actions.ends_with(&[
        Action::Revert(Undo::RemoveStaged(1)),
        Action::Revert(Undo::Restore(1)),
        Action::Revert(Undo::Restore(0)),
    ]));
    let (_, result) = run(Action::Compare(1), || Event::Changed);
    assert_eq!(
        result,
        Some(Err(FixError::Transaction(
            "/b changed during fix; refusing to overwrite it".to_string()
        )))
    );
    let (actions, result) = run(Action::Compare(1), full);
    assert_eq!(result, Some(Err(FixError::Io("full".to_string()))));
    assert!(actions.ends_with(&[
        Action::Revert(Undo::RemoveStaged(1)),
        Action::Revert(Undo::Restore(1)),
        Action::Revert(Undo::Restore(0)),
    ]));
    for failing in [Action::Stage(1), Action::BackUp(0), Action::Compare(0)] {
        let (_, result) = run(failing, full);
        assert_eq!(result, Some(Err(FixError::Io("full".to_string()))));
    }
    assert_eq!(Transaction::new(Vec::new()).result(), Some(Ok(())));
}

#[test]
fn failed_rollbacks_are_told() {
    let mut transaction = Transaction::new(vec!["/a".to_string()]);
    loop {
        let event = match transaction.action() {
            Action::Replace(_) => Event::Failed("full".to_string()),
            Action::Revert(Undo::Restore(_)) => Event::Failed("restore /a: gone".to_string()),
            Action::Stop => break,
            _ => Event::Done,
        };
        transaction.advance(event);
    }
    assert_eq!(
        transaction.result(),
        Some(Err(FixError::Transaction(
            "could not replace /a: full; rollback also failed: restore /a: gone".to_string()
        )))
    );
}

#[test]
fn files_are_found_from_the_working_directory() {
    let mut files = Files::in_directory("/work/dir".to_string());
    let a = files.add("/work/dir/src//a.mux", "one".to_string());
    assert_eq!(files.path(a), Some("src//a.mux"));
    assert_eq!(files.id_for_path("src/a.mux"), Some(a));
    assert_eq!(files.id_for_path("/work//dir/./src/a.mux"), Some(a));
    assert_eq!(files.id_for_path("src//a.mux"), Some(a));
    assert_eq!(files.add("src/./a.mux", "two".to_string()), a);
    assert_eq!(files.source(a), Some("one"));
    assert_eq!(files.id_for_path("./src/a.mux"), None);
    let other = files.add("/work/directory/a.mux", "three".to_string());
    assert_eq!(files.path(other), Some("/work/directory/a.mux"));
    assert_eq!(files.id_for_path("/work/directory/a.mux/"), Some(other));
    assert_eq!(files.len(), 2);
}

#[test]
fn relativize_strips_the_cwd_prefix() {
    let cwd = Some("/work/dir".to_string());
    assert_eq!(normalized_path(&cwd, "/work/dir/sub/file.mux"), "sub/file.mux");
    assert_eq!(normalized_path(&cwd, "already/relative.mux"), "already/relative.mux");
    assert_eq!(normalized_path(&cwd, "/work/dir"), "");
    assert_eq!(normalized_path(&cwd, "/work/dir/sub/./"), "sub");
    assert_eq!(normalized_path(&None, "/work/dir/sub/file.mux"), "/work/dir/sub/file.mux");
    assert!(are_same_path("a//b/./c/", "a/b/c"));
    assert!(!are_same_path("/a", "a"));
    assert!(!are_same_path("./a", "a"));
    assert!(!are_same_path("a/../b", "b"));
}

#[test]
fn diagnostics_can_be_copied_and_codes_compared() {
    let first = Diagnostic::new(DiagnosticCode::LexUnterminatedString).with_message("open");
    let second = first.clone();
    assert_eq!(second.code, first.code);
    assert_eq!(second.message, "open");
    assert!(DiagnosticCode::LexUnexpectedCharacter < DiagnosticCode::LexUnterminatedString);
    assert_eq!(
        DiagnosticCode::RedundantConstruct.info(),
        DiagnosticCode::RedundantConstruct.info()
    );
    assert_ne!(
        DiagnosticCode::LexUnexpectedCharacter.info(),
        DiagnosticCode::LexUnterminatedString.info()
    );
}
