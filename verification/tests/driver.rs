use mux_compiler::diagnostic::fix::RecoveryIntervals;
use mux_compiler::diagnostic::{
    Diagnostic, DiagnosticCode, FileId, Files, Label, SourceRange, SpanEdit,
};
use mux_compiler::driver::attempts::{
    after_creation, executable_place, object_name, starts_again, Creation, ExecutablePlace,
    ObjectStep,
};
use mux_compiler::driver::banner::{
    banner_logo_rows, banner_pad, banner_settled_frame, banner_sweep_frame, sweep_offset,
    version_line,
};
use mux_compiler::driver::doctor::{
    detected_llvm_versions, doctor_verdict, explain_diagnostic, report_clang_for_doctor,
    report_runtime_for_doctor, status_marker, validate_llvm_for_doctor,
};
use mux_compiler::driver::fixes::{
    analyze_fix_source, check_fix_input, collect_fix_edits, diagnostic_touches_recovery,
    has_blocking_diagnostics, judge_staged_sources, materialize_span_edits, parse_staged_root,
    run_fix_command, sort_fix_diagnostics, FixOutputFormat,
};
use mux_compiler::driver::json::{fix_json, fix_json_escape};
use mux_compiler::driver::report::{
    clang_failure_detail, classify_clang_output, format_panic_detail,
    internal_compiler_error_report, ClangOutcome, CompilingFile, LinkerRun,
};
use mux_compiler::driver::toolchain::{
    build_linker_args_for, distinct_tools, extract_clang_major, find_runtime_lib_in_dir, is_runtime_archive,
    linker_candidates, llvm_config_candidates, major_of, native_runtime_deps, pick_llvm_for_dev,
    printed_version,
    runtime_lib_dir_is_static_only, runtime_static_lib_path, ArchiveChoice, LinkerArg,
    RuntimeLibrary, REQUIRED_LLVM_MAJOR,
};
use mux_compiler::lexer::Span;

#[test]
fn materializes_text_span_edits_against_the_current_source() {
    let mut files = Files::new();
    let file_id = files.add("program.mux", "abc\n".to_string());
    let diagnostic = Diagnostic::new(DiagnosticCode::RedundantConstruct)
        .with_file_id(file_id)
        .with_span_edit(SpanEdit::machine_applicable_text(
            Span {
                row_start: 1,
                row_end: Some(1),
                col_start: 2,
                col_end: Some(3),
            },
            "X",
            DiagnosticCode::RedundantConstruct,
        ));

    let edits = materialize_span_edits(&[diagnostic], &files).unwrap();
    assert_eq!(edits.len(), 1);
    assert_eq!(edits[0].replacement, "X");
    assert_eq!(edits[0].range, SourceRange::new(1, 2));
}

#[test]
fn internal_error_report_names_the_file_when_present() {
    let report = internal_compiler_error_report("codegen error: boom", Some("foo.mux"), false);
    assert!(report.contains("internal compiler error"));
    assert!(report.contains("codegen error: boom"));
    assert!(report.contains("while compiling: foo.mux"));
    assert!(report.contains("please report this error"));
    assert!(report.contains("the file above"));
    assert!(!report.contains("RUST_BACKTRACE"));
}

#[test]
fn internal_error_report_without_file_avoids_a_dangling_reference() {
    let report = internal_compiler_error_report("boom", None, true);
    assert!(!report.contains("while compiling:"));
    assert!(!report.contains("the file above"));
    assert!(report.contains("the file you ran"));
    assert!(report.contains("re-run with RUST_BACKTRACE=1"));
}

#[test]
fn internal_error_report_indents_every_line_of_a_multiline_detail() {
    let detail = "linking failed: ld: error: undefined symbol: pow\n>>> referenced by main";
    let report = internal_compiler_error_report(detail, Some("foo.mux"), false);
    assert!(report.contains("  linking failed: ld: error: undefined symbol: pow\n"));
    assert!(report.contains("  >>> referenced by main\n"));
}

#[test]
fn clang_failure_detail_labels_and_trims_stderr() {
    assert_eq!(
        clang_failure_detail(b"", b"ld: undefined symbol: pow\n\n"),
        "linking failed: ld: undefined symbol: pow"
    );
    assert_eq!(clang_failure_detail(b"", b""), "linking failed: ");
}

#[test]
fn clang_failure_detail_includes_stdout_for_msvc_link() {
    let detail = clang_failure_detail(
        b"LINK : fatal error LNK1104: cannot open file 'zstd.lib'\n",
        b"clang-22: error: linker command failed with exit code 1104\n",
    );
    assert!(
        detail.contains("LNK1104: cannot open file 'zstd.lib'"),
        "{detail}"
    );
    assert!(
        detail.contains("linker command failed with exit code 1104"),
        "{detail}"
    );
    // What is no text is replaced, not dropped.
    assert_eq!(clang_failure_detail(b"", b"\xffx"), "linking failed: \u{fffd}x");
}

#[test]
fn classify_clang_output_distinguishes_link_and_spawn_failures() {
    let success = LinkerRun::Ended { success: true, stdout: b"", stderr: b"" };
    assert!(matches!(
        classify_clang_output(success, "out.ll"),
        ClangOutcome::Linked
    ));

    let failed = LinkerRun::Ended {
        success: false,
        stdout: b"",
        stderr: b"undefined reference to pow",
    };
    match classify_clang_output(failed, "out.ll") {
        ClangOutcome::LinkFailed(detail) => {
            assert!(detail.contains("linking failed: undefined reference to pow"));
        }
        _ => panic!("expected LinkFailed"),
    }

    match classify_clang_output(LinkerRun::NotRun("boom"), "out.ll") {
        ClangOutcome::SpawnFailed(message) => {
            assert!(message.contains("Failed to run clang"));
            assert!(message.contains("out.ll"));
        }
        _ => panic!("expected SpawnFailed"),
    }
}

#[test]
fn internal_error_report_omits_empty_detail() {
    let report = internal_compiler_error_report("", Some("foo.mux"), false);
    assert!(!report.contains("\n  \n"));
    assert!(report.contains("while compiling: foo.mux"));
}

#[test]
fn compiling_file_records_the_relativized_input() {
    let mut slot = CompilingFile::new();
    assert_eq!(slot.compiling_file(), None);
    slot.set_compiling_file("scratch/prog.mux");
    assert_eq!(slot.compiling_file(), Some("scratch/prog.mux"));
}

#[test]
fn panic_detail_formats_message_and_location() {
    assert_eq!(
        format_panic_detail("boom", Some(("src/x.rs", 4, 2))),
        "boom (at src/x.rs:4:2)"
    );
    assert_eq!(format_panic_detail("boom", None), "boom");
}

#[test]
fn pick_llvm_for_dev_selects_required_major() {
    let empty: Vec<(String, String, u32)> = Vec::new();
    assert!(pick_llvm_for_dev(&empty).is_none());

    let versions = vec![
        ("llvm-config-17".to_string(), "17.0.0".to_string(), 17),
        (
            "llvm-config-22".to_string(),
            "22.1.6".to_string(),
            REQUIRED_LLVM_MAJOR,
        ),
    ];
    let picked = pick_llvm_for_dev(&versions).expect("required major present");
    assert_eq!(picked.0, "llvm-config-22");
    assert_eq!(picked.2, REQUIRED_LLVM_MAJOR);

    let mismatch = vec![("other".to_string(), "17.0.0".to_string(), 17)];
    assert!(pick_llvm_for_dev(&mismatch).is_none());
}

#[test]
fn llvm_config_candidates_always_includes_defaults() {
    let candidates = llvm_config_candidates(None, Some("mine".to_string()));
    assert!(candidates.iter().any(|c| c == "llvm-config"));
    assert!(candidates
        .iter()
        .any(|c| c == &format!("llvm-config-{REQUIRED_LLVM_MAJOR}")));
    assert_eq!(candidates[0], "mine");
    assert_eq!(linker_candidates("22"), ["clang-22", "clang", "cc", "gcc"]);
}

#[test]
fn no_tool_is_asked_twice() {
    let tools = llvm_config_candidates(
        Some("llvm-config".to_string()),
        Some("llvm-config".to_string()),
    );
    assert_eq!(tools.len(), 4);
    assert_eq!(
        distinct_tools(&tools),
        ["llvm-config".to_string(), format!("llvm-config-{REQUIRED_LLVM_MAJOR}")]
    );
    assert!(distinct_tools(&Vec::new()).is_empty());
}

#[test]
fn a_dll_in_the_lib_dir_does_not_make_the_link_dynamic() {
    assert!(runtime_lib_dir_is_static_only(true, true, true));
    assert!(!runtime_lib_dir_is_static_only(false, true, true));
}

#[test]
fn native_runtime_deps_cover_every_platform() {
    assert!(
        native_runtime_deps("macos").is_empty(),
        "libSystem already provides these"
    );

    let unixish = native_runtime_deps("linux");
    for lib in ["-lm", "-lz", "-lpthread", "-ldl"] {
        assert!(unixish.contains(&lib), "unix is missing {lib}");
    }

    let windows = native_runtime_deps("windows");
    for lib in [
        "-ladvapi32",
        "-lbcrypt",
        "-lntdll",
        "-lsecur32",
        "-luserenv",
        "-lws2_32",
    ] {
        assert!(windows.contains(&lib), "windows is missing {lib}");
    }
    assert!(
        !windows.contains(&"-lm"),
        "libm is not a Windows system library"
    );
}

#[test]
fn build_linker_args_links_the_object_and_the_runtime() {
    let args = build_linker_args_for("linux", false, false);
    assert_eq!(args.first(), Some(&LinkerArg::Object));
    assert!(args.contains(&LinkerArg::Flag("-lmux_runtime")));
    let l_index = args
        .iter()
        .position(|a| *a == LinkerArg::Flag("-L"))
        .expect("-L present");
    assert_eq!(args[l_index + 1], LinkerArg::LibraryDir);
}

fn is_native(arg: &LinkerArg) -> bool {
    matches!(arg, LinkerArg::Flag(text) if text.starts_with("-l") && *text != "-lmux_runtime")
}

#[test]
fn build_linker_args_puts_native_deps_after_the_runtime() {
    let args = build_linker_args_for("linux", false, true);
    let runtime = args
        .iter()
        .position(|a| *a == LinkerArg::Flag("-lmux_runtime"))
        .expect("runtime is linked");
    let native = args
        .iter()
        .position(is_native)
        .expect("native dependencies are linked for a static-only runtime");
    assert!(native > runtime, "native deps must follow -lmux_runtime, got {args:?}");
    assert!(!build_linker_args_for("macos", false, true).contains(&LinkerArg::Flag("-lm")));
}

#[test]
fn build_linker_args_omits_native_deps_when_a_dynamic_runtime_is_present() {
    let args = build_linker_args_for("linux", false, false);
    let extra: Vec<&LinkerArg> = args.iter().filter(|a| is_native(a)).collect();
    assert!(extra.is_empty(), "expected no native deps, got {extra:?}");
    assert_eq!(args.last(), Some(&LinkerArg::Flag("-lmux_runtime")));
}

fn flags(args: &[LinkerArg]) -> String {
    let mut out = String::new();
    for arg in args {
        match arg {
            LinkerArg::Flag(text) => out.push_str(text),
            LinkerArg::RunPath => out.push_str("-Wl,-rpath,lib"),
            LinkerArg::Object => out.push_str("scratch.o"),
            LinkerArg::LibraryDir => out.push_str("lib"),
            LinkerArg::Archive => out.push_str("archive.a"),
        }
        out.push(' ');
    }
    out
}

#[test]
fn build_linker_args_uses_the_right_dialect_per_platform() {
    let windows = flags(&build_linker_args_for("windows", false, false));
    assert!(!windows.contains("-rpath"), "{windows}");
    assert!(!windows.contains("disable-new-dtags"), "{windows}");
    assert!(!windows.contains("gc-sections"), "{windows}");
    assert!(windows.contains("/NODEFAULTLIB:libcmt"), "{windows}");
    assert!(windows.contains("/NODEFAULTLIB:libucrt"), "{windows}");
    assert!(windows.contains("/DEFAULTLIB:msvcrt"), "{windows}");
    assert!(!windows.contains("-fms-runtime-lib"), "{windows}");

    let macos = flags(&build_linker_args_for("macos", false, false));
    assert!(macos.contains("-dead_strip"), "{macos}");
    assert!(!macos.contains("gc-sections"), "{macos}");
    assert!(!macos.contains("disable-new-dtags"), "{macos}");
    assert!(!macos.contains("NODEFAULTLIB"), "{macos}");

    let linux = flags(&build_linker_args_for("linux", false, false));
    assert!(linux.contains("--gc-sections"), "{linux}");
    assert!(linux.contains("disable-new-dtags"), "{linux}");
    assert!(linux.contains("-rpath"), "{linux}");
    assert!(!linux.contains("NODEFAULTLIB"), "{linux}");
    assert!(flags(&build_linker_args_for("linux", true, false)).contains("archive.a"));
}

#[test]
fn find_runtime_lib_in_dir_detects_static_dynamic_and_missing() {
    assert_eq!(find_runtime_lib_in_dir(false, false, false), None);
    assert_eq!(
        find_runtime_lib_in_dir(false, true, true),
        Some(RuntimeLibrary::Archive)
    );
    assert_eq!(
        find_runtime_lib_in_dir(false, false, true),
        Some(RuntimeLibrary::Shared)
    );
    assert_eq!(find_runtime_lib_in_dir(true, false, true), None);
    assert!(is_runtime_archive("libmux_runtime-0123456789abcdef.a", false));
    assert!(!is_runtime_archive("libmux_runtime-0123456789abcdef.so", false));
    assert!(!is_runtime_archive("mux_runtime-01.a", false));
    assert!(is_runtime_archive("mux_runtime-01.lib", true));
    assert_eq!(runtime_static_lib_path(false, 1), ArchiveChoice::Hashed);
}

#[test]
fn hashed_runtime_resolution_fails_closed_on_ambiguous_archives() {
    assert_eq!(runtime_static_lib_path(false, 2), ArchiveChoice::Usual);
    assert_eq!(runtime_static_lib_path(true, 1), ArchiveChoice::Usual);
}

#[test]
fn static_only_detection_requires_archive_without_shared_lib() {
    assert!(runtime_lib_dir_is_static_only(false, true, false));
    assert!(!runtime_lib_dir_is_static_only(false, true, true));
    assert!(!runtime_lib_dir_is_static_only(false, false, true));
}

#[test]
fn validate_llvm_for_doctor_covers_dev_and_user_modes() {
    let found = || Some(("llvm-config-22".to_string(), "22.1.6".to_string(), 22));
    assert!(validate_llvm_for_doctor(true, found(), "linux").ok);
    assert!(!validate_llvm_for_doctor(true, None, "linux").ok);
    assert!(validate_llvm_for_doctor(false, found(), "linux").ok);
    assert!(validate_llvm_for_doctor(false, None, "linux").ok);
    assert!(validate_llvm_for_doctor(true, None, "macos")
        .text
        .contains("brew install llvm@22\n"));
}

#[test]
fn clang_doctor_helpers_handle_missing_clang() {
    assert!(!report_clang_for_doctor(None, None, "linux").ok);
    assert!(extract_clang_major("").is_none());
    assert!(report_clang_for_doctor(Some("mux-nonexistent-clang-binary-xyz"), None, "linux").ok);
}

#[test]
fn linker_doctor_accepts_any_driver_version() {
    assert_eq!(extract_clang_major("clang version 22.0.0\n"), Some(22));
    assert_eq!(
        extract_clang_major("Ubuntu clang version 23.1.6 (x)\nmore 9.9\n"),
        Some(23)
    );
    let check = report_clang_for_doctor(Some("clang"), Some(23), "linux");
    assert!(check.ok);
    assert!(check.text.ends_with(" Linker driver: clang (version 23).\n"));
    assert_eq!(
        printed_version("Ubuntu clang version 23.1.6-1 (x)\n9\n"),
        Some("23.1.6-1".to_string())
    );
    assert_eq!(printed_version("none here\n9\n"), None);
    assert_eq!(major_of("4294967296.1"), None);
    assert_eq!(major_of("+7.1"), Some(7));
    assert_eq!(major_of("x.1"), None);
}

#[test]
fn status_marker_uses_colored_ascii_glyphs() {
    let ok = status_marker(true);
    assert!(ok.contains("[ok]"), "ok marker: {ok:?}");
    assert!(
        ok.contains("\u{1b}[32m"),
        "ok marker should be green: {ok:?}"
    );

    let fail = status_marker(false);
    assert!(fail.contains("[x]"), "fail marker: {fail:?}");
    assert!(
        fail.contains("\u{1b}[31m"),
        "fail marker should be red: {fail:?}"
    );

    assert!(ok.is_ascii());
    assert!(fail.is_ascii());
}

#[test]
fn doctor_report_helpers_pass_through_status() {
    assert!(report_runtime_for_doctor(true).ok);
    assert!(!report_runtime_for_doctor(false).ok);
    assert!(doctor_verdict(true).ok);
    assert!(!doctor_verdict(false).ok);
    assert_eq!(
        detected_llvm_versions(&[("t".to_string(), "22.1".to_string(), 22)]),
        "Detected llvm-config versions:\n  - t => 22.1 (major 22)\n"
    );
    assert_eq!(
        detected_llvm_versions(&[]),
        "No llvm-config command found on PATH.\n"
    );
}

#[test]
fn version_banner_is_drawn_in_frames() {
    let rows = banner_logo_rows();
    assert_eq!(rows.len(), 6);
    assert!(rows.iter().all(|row| row.len() == 30));
    assert_eq!(banner_pad("abc", 2), "ab");
    assert_eq!(banner_pad("abc", 5), "abc  ");
    let frame = banner_sweep_frame(&rows, 1, sweep_offset(1, 3));
    assert!(frame.starts_with("\u{1b}[12A\n\u{1b}[38;2;255;255;255m\u{2588}\u{1b}[0m\n"));
    assert_eq!(sweep_offset(2, 3), 9);
    let last = banner_settled_frame(&rows);
    assert!(last.starts_with("\u{1b}[9A\n\u{1b}[38;2;96;165;250m"));
    assert!(last.contains("The Programming Language For Everyone"));
    assert_eq!(
        version_line("llvm", "22.x"),
        "\u{1b}[1m\u{1b}[32mllvm\u{1b}[0m v22.x"
    );
}

#[test]
fn explain_takes_codes_in_any_case() {
    let text = explain_diagnostic("e0302").unwrap();
    assert!(text.starts_with("E0302: "), "{text}");
    assert!(text.ends_with("\nDocs: https://mux-lang.dev/docs/reference/diagnostics/\n"));
    assert_eq!(
        explain_diagnostic("nope").unwrap_err(),
        "Unknown diagnostic code 'nope'. Use a code such as E0302 or W0300."
    );
}

#[test]
fn json_strings_are_escaped() {
    assert_eq!(
        fix_json_escape("a\"b\\c\nd\re\tf\u{1}g\u{7f}h\u{e9}"),
        "a\\\"b\\\\c\\nd\\re\\tf\\u0001g\\u007fh\u{e9}"
    );
    let files = Files::new();
    assert_eq!(
        fix_json("error", true, &[], &[], &[], &files, Some("x\"y")),
        "{\"status\":\"error\",\"dry_run\":true,\"diagnostics\":[],\"edits\":[],\"changed_files\":[],\"truncated_count\":0,\"error\":\"x\\\"y\"}\n"
    );
}

fn program() -> (Files, FileId) {
    let mut files = Files::new();
    let id = files.add("program.mux", "abc\n".to_string());
    (files, id)
}

fn warning_with_edit(id: FileId) -> Diagnostic {
    let span = Span { row_start: 1, row_end: Some(1), col_start: 2, col_end: Some(3) };
    Diagnostic::new(DiagnosticCode::RedundantConstruct)
        .with_message("redundant")
        .with_label(Label::primary(span, ""))
        .with_file_id(id)
        .with_span_edit(SpanEdit::machine_applicable_text(
            span,
            "X",
            DiagnosticCode::RedundantConstruct,
        ))
}

#[test]
fn fixes_are_applied_and_shown() {
    let (files, id) = program();
    let none = RecoveryIntervals::new();
    let outcome = run_fix_command(
        FixOutputFormat::Text,
        false,
        false,
        &files,
        vec![warning_with_edit(id)],
        &none,
        |_| Ok(()),
    );
    assert_eq!(outcome.status, 0);
    let write = outcome.write.expect("edits to write");
    assert_eq!(write.files.get(&id).unwrap(), "aXc\n");
    assert!(outcome
        .printed
        .out
        .ends_with("-abc\n+aXc\nApplied 1 edit(s) to 1 file(s).\n"));
    let dry = run_fix_command(
        FixOutputFormat::Json,
        true,
        false,
        &files,
        vec![warning_with_edit(id)],
        &none,
        |_| Ok(()),
    );
    assert!(dry.write.is_none());
    assert!(dry.printed.out.starts_with("{\"status\":\"dry_run\",\"dry_run\":true,"));
    assert!(dry.printed.out.contains("\"start_byte\":1,\"end_byte\":2,\"replacement\":\"X\""));
    assert!(dry.printed.out.contains("\"changed_files\":[\"program.mux\"]"));
}

#[test]
fn denied_warnings_and_errors_change_nothing() {
    let (files, id) = program();
    let none = RecoveryIntervals::new();
    let denied = run_fix_command(
        FixOutputFormat::Text,
        false,
        true,
        &files,
        vec![warning_with_edit(id)],
        &none,
        |_| Ok(()),
    );
    assert_eq!(denied.status, 1);
    assert!(denied.write.is_none());
    let error = Diagnostic::new(DiagnosticCode::UndefinedName).with_file_id(id);
    assert!(has_blocking_diagnostics(&[error], false));
    let refused = run_fix_command(
        FixOutputFormat::Text,
        false,
        false,
        &files,
        vec![warning_with_edit(id)],
        &none,
        |_| Err("still wrong".to_string()),
    );
    assert_eq!(refused.status, 1);
    assert!(refused.write.is_none());
    assert!(refused.printed.err.starts_with("mux fix: "));
    assert!(refused.printed.err.contains("still wrong"));
}

#[test]
fn edits_without_a_file_are_reported() {
    let (files, id) = program();
    let span = Span { row_start: 1, row_end: Some(1), col_start: 2, col_end: Some(3) };
    let edit = || SpanEdit::machine_applicable_text(span, "X", DiagnosticCode::RedundantConstruct);
    let code = DiagnosticCode::RedundantConstruct.as_str();
    let nowhere = Diagnostic::new(DiagnosticCode::RedundantConstruct).with_span_edit(edit());
    assert_eq!(
        materialize_span_edits(&[nowhere], &files).unwrap_err(),
        format!("{code} supplied an edit without an originating file")
    );
    let unknown = Diagnostic::new(DiagnosticCode::RedundantConstruct)
        .with_file_id(FileId(5))
        .with_span_edit(edit());
    assert_eq!(
        materialize_span_edits(&[unknown], &files).unwrap_err(),
        format!("{code} supplied an edit for an unknown target file")
    );
    let mut copied = SpanEdit::machine_applicable_source(
        span,
        Span { row_start: 1, row_end: Some(1), col_start: 1, col_end: Some(2) },
        DiagnosticCode::RedundantConstruct,
    );
    let copy = Diagnostic::new(DiagnosticCode::RedundantConstruct)
        .with_file_id(id)
        .with_span_edit(SpanEdit::machine_applicable_source(
            span,
            Span { row_start: 1, row_end: Some(1), col_start: 1, col_end: Some(2) },
            DiagnosticCode::RedundantConstruct,
        ));
    assert_eq!(materialize_span_edits(&[copy], &files).unwrap()[0].replacement, "a");
    copied.replacement_file = Some(FileId(8));
    let elsewhere = Diagnostic::new(DiagnosticCode::RedundantConstruct)
        .with_file_id(id)
        .with_span_edit(copied);
    assert_eq!(
        materialize_span_edits(&[elsewhere], &files).unwrap_err(),
        format!("{code} supplied an unknown source replacement file")
    );
    let far = Span { row_start: 9, row_end: None, col_start: 1, col_end: None };
    let outside = Diagnostic::new(DiagnosticCode::RedundantConstruct)
        .with_file_id(id)
        .with_span_edit(SpanEdit::machine_applicable_text(
            far,
            "X",
            DiagnosticCode::RedundantConstruct,
        ));
    assert!(materialize_span_edits(&[outside], &files)
        .unwrap_err()
        .starts_with(&format!("{code}: cannot map diagnostic span at 9:1 to bytes: ")));
}

#[test]
fn diagnostics_and_edits_are_sorted() {
    let (files, id) = program();
    let at = |row: usize| {
        Diagnostic::new(DiagnosticCode::UnusedBinding)
            .with_label(Label::primary(Span::new(row, 1), ""))
            .with_file_id(id)
    };
    let sorted = sort_fix_diagnostics(vec![at(3), at(1), at(2)], &files);
    let rows: Vec<usize> = sorted.iter().map(|d| d.labels[0].span.row_start).collect();
    assert_eq!(rows, vec![1, 2, 3]);
    let span = |a, b| Span { row_start: 1, row_end: Some(1), col_start: a, col_end: Some(b) };
    let edit = |a, b| {
        SpanEdit::machine_applicable_text(span(a, b), "X", DiagnosticCode::RedundantConstruct)
    };
    let two = Diagnostic::new(DiagnosticCode::RedundantConstruct)
        .with_file_id(id)
        .with_span_edits(vec![edit(3, 4), edit(1, 2)]);
    let edits = collect_fix_edits(&[two], &files).unwrap();
    assert_eq!(edits[0].range, SourceRange::new(0, 1));
    assert_eq!(edits[1].range, SourceRange::new(2, 3));
}

#[test]
fn findings_in_recovered_source_are_dropped() {
    let (files, id) = program();
    let mut recovery = RecoveryIntervals::new();
    recovery.add(id, SourceRange::new(0, 2));
    let touched = warning_with_edit(id);
    assert!(diagnostic_touches_recovery(&touched, &files, &recovery));
    let free = Diagnostic::new(DiagnosticCode::UndefinedName).with_file_id(id);
    let kept = analyze_fix_source(Vec::new(), Vec::new(), vec![touched, free], &files, &recovery);
    assert_eq!(kept.len(), 1);
    assert_eq!(kept[0].code, DiagnosticCode::UndefinedName);
}

#[test]
fn staged_texts_are_judged() {
    assert!(parse_staged_root("auto x = 1\n").is_ok());
    assert!(parse_staged_root("auto s = \"open\n").is_err());
    assert!(parse_staged_root("func main( {\n").is_err());
    let findings = vec![
        (DiagnosticCode::UnusedBinding, "unused".to_string()),
        (DiagnosticCode::UndefinedName, "one".to_string()),
        (DiagnosticCode::UndefinedName, "two".to_string()),
    ];
    assert_eq!(judge_staged_sources(&findings), Err("one; two".to_string()));
    assert_eq!(judge_staged_sources(&Vec::new()), Ok(()));
    assert!(check_fix_input("a.mux").is_ok());
    assert_eq!(
        check_fix_input("mux").unwrap_err(),
        "Input file must have a .mux extension."
    );
}

#[test]
fn attempts_come_to_an_end() {
    assert!(matches!(after_creation(1, "/t/a.o", Creation::Created), ObjectStep::Use));
    assert!(matches!(after_creation(15, "/t/a.o", Creation::Taken), ObjectStep::Again));
    match after_creation(16, "/t/a.o", Creation::Taken) {
        ObjectStep::GiveUp(e) => assert_eq!(e, "could not create a temporary object file"),
        other => panic!("{other:?}"),
    }
    match after_creation(1, "/t/a.o", Creation::Failed("denied")) {
        ObjectStep::GiveUp(e) => {
            assert_eq!(e, "failed to create a temporary object file at /t/a.o: denied")
        }
        other => panic!("{other:?}"),
    }
    assert_eq!(object_name("prog", 7, 1234567890123456789012, 3), "mux-prog-7-1234567890123456789012-3.o");
    assert!(starts_again(4));
    assert!(!starts_again(5));
}

#[test]
fn programs_go_where_they_are_asked_to() {
    assert_eq!(executable_place(Some(true)), ExecutablePlace::AsGiven);
    assert_eq!(executable_place(Some(false)), ExecutablePlace::Here);
    assert_eq!(executable_place(None), ExecutablePlace::BesideSource);
}
