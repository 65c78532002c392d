//! Reports of failures of the compiler itself.

use crate::diagnostic::DiagnosticCode;
use crate::lines::{display_lines, shown_lines, texts, trim_end, trimmed_end};
use crate::table::{join, joined, views};
use crate::text::{cat, decimal, push_decimal};
use vstd::prelude::*;

verus! {

/// The first `n` lines, each indented.
pub open spec fn indented(lines: Seq<Seq<char>>, n: int) -> Seq<char>
    decreases n,
{
    if n <= 0 || n > lines.len() {
        seq![]
    } else {
        indented(lines, n - 1) + "  "@ + lines[n - 1] + "\n"@
    }
}

/// The report of an internal failure: what happened, while which file was
/// compiled, and where to report it.
pub open spec fn internal_report(
    detail: Seq<char>,
    file: Option<Seq<char>>,
    backtrace_hint: bool,
) -> Seq<char> {
    "\nerror["@ + DiagnosticCode::InternalCompiler.as_str()@ + "]: internal compiler error\n"@
        + indented(shown_lines(detail), shown_lines(detail).len() as int) + (match file {
        Some(f) => "  while compiling: "@ + f + "\n"@,
        None => seq![],
    }) + "tip: please report this error, along with "@ + (if file is Some {
        "the file above"@
    } else {
        "the file you ran"@
    }) + " and your system details\n"@
        + "     (the output of `mux --version`), to the Mux maintainers at https://github.com/muxlang/mux-compiler\n"@
        + (if backtrace_hint {
        "     re-run with RUST_BACKTRACE=1 to include the internal error details\n"@
    } else {
        seq![]
    })
}

/// The report of an internal failure. Every line of `detail` is indented. It
/// points at "the file above" only where it names a file.
pub fn internal_compiler_error_report(
    detail: &str,
    file: Option<&str>,
    show_backtrace_hint: bool,
) -> (r: String)
    ensures
        r@ == internal_report(
            detail@,
            match file {
                Some(f) => Some(f@),
                None => None,
            },
            show_backtrace_hint,
        ),
{
    let mut out = cat("\nerror[", DiagnosticCode::InternalCompiler.as_str());
    out.append("]: internal compiler error\n");
    let lines = display_lines(detail);
    let ghost front = out@;
    let ghost all = texts(lines@);
    let mut i: usize = 0;
    assert(out@ =~= front + indented(all, 0));
    while i < lines.len()
        invariant
            i <= lines@.len(),
            all == texts(lines@),
            out@ == front + indented(all, i as int),
        decreases lines@.len() - i,
    {
        out.append("  ");
        out.append(lines[i].as_str());
        out.append("\n");
        assert(out@ =~= front + indented(all, i + 1));
        i += 1;
    }
    let ghost body = out@;
    match file {
        Some(f) => {
            out.append("  while compiling: ");
            out.append(f);
            out.append("\n");
            assert(out@ =~= body + ("  while compiling: "@ + f@ + "\n"@));
        },
        None => {
            assert(out@ =~= body + seq![]);
        },
    }
    out.append("tip: please report this error, along with ");
    out.append(if file.is_some() { "the file above" } else { "the file you ran" });
    out.append(" and your system details\n");
    out.append(
        "     (the output of `mux --version`), to the Mux maintainers at https://github.com/muxlang/mux-compiler\n",
    );
    let ghost tail = out@;
    if show_backtrace_hint {
        out.append("     re-run with RUST_BACKTRACE=1 to include the internal error details\n");
    } else {
        assert(out@ =~= tail + seq![]);
    }
    out
}

/// Where a panic happened, in a message.
pub open spec fn panic_text(message: Seq<char>, location: Option<(Seq<char>, nat, nat)>) -> Seq<char> {
    match location {
        Some((file, line, col)) => message + " (at "@ + file + ":"@ + decimal(line) + ":"@
            + decimal(col) + ")"@,
        None => message,
    }
}

/// A panic's message with the place that it happened at.
pub fn format_panic_detail(message: &str, location: Option<(&str, u32, u32)>) -> (r: String)
    ensures
        r@ == panic_text(
            message@,
            match location {
                Some(l) => Some((l.0@, l.1 as nat, l.2 as nat)),
                None => None,
            },
        ),
{
    match location {
        Some((file, line, col)) => {
            let mut out = cat(message, " (at ");
            out.append(file);
            out.append(":");
            push_decimal(&mut out, line as u64);
            out.append(":");
            push_decimal(&mut out, col as u64);
            out.append(")");
            out
        },
        None => message.to_owned(),
    }
}

/// The file that is being compiled, so that a report can name it.
pub struct CompilingFile {
    pub path: Option<String>,
}

impl CompilingFile {
    pub fn new() -> (r: Self)
        ensures
            r.path is None,
    {
        Self { path: None }
    }

    /// Records the file, by its displayed path.
    pub fn set_compiling_file(&mut self, path: &str)
        ensures
            final(self).path matches Some(p) && p@ == path@,
    {
        self.path = Some(path.to_owned());
    }

    /// The recorded file.
    pub fn compiling_file(&self) -> (r: Option<&str>)
        ensures
            match r {
                Some(p) => self.path matches Some(q) && q@ == p@,
                None => self.path is None,
            },
    {
        match &self.path {
            Some(p) => Some(p.as_str()),
            None => None,
        }
    }
}

/// What a byte sequence reads as, with replacement characters where it is no
/// UTF-8.
pub uninterp spec fn lossy(bytes: Seq<u8>) -> Seq<char>;

/// `String::from_utf8_lossy`: the text of some bytes. Bytes that are UTF-8
/// give the text that they encode; what others give is named, not stated.
#[verifier::external_body]
fn text_from_bytes(bytes: &[u8]) -> (r: String)
    ensures
        r@ == lossy(bytes@),
        vstd::utf8::valid_utf8(bytes@) ==> r@ == vstd::utf8::decode_utf8(bytes@),
{
    String::from_utf8_lossy(bytes).into_owned()
}

/// The streams that say something, the second first.
pub open spec fn said(stdout: Seq<char>, stderr: Seq<char>) -> Seq<Seq<char>> {
    (if trimmed_end(stderr).len() > 0 {
        seq![trimmed_end(stderr)]
    } else {
        seq![]
    }) + (if trimmed_end(stdout).len() > 0 {
        seq![trimmed_end(stdout)]
    } else {
        seq![]
    })
}

/// What a failed link is reported as.
pub open spec fn link_failure(stdout: Seq<char>, stderr: Seq<char>) -> Seq<char> {
    "linking failed: "@ + joined(said(stdout, stderr), "\n"@)
}

/// What a failed link is reported as, where the linker's streams are texts.
/// Both are reported: linkers differ in which of them they write to.
pub fn link_failure_detail(stdout: &str, stderr: &str) -> (r: String)
    ensures
        r@ == link_failure(stdout@, stderr@),
{
    let mut parts: Vec<String> = Vec::new();
    let first = trim_end(stderr);
    let second = trim_end(stdout);
    if !first.as_str().is_empty() {
        parts.push(first);
    }
    assert(views(parts@) =~= (if trimmed_end(stderr@).len() > 0 {
        seq![trimmed_end(stderr@)]
    } else {
        seq![]
    }));
    let ghost before = views(parts@);
    if !second.as_str().is_empty() {
        parts.push(second);
        assert(views(parts@) =~= before.push(second@));
    }
    assert(views(parts@) =~= said(stdout@, stderr@));
    cat("linking failed: ", join(&parts, "\n").as_str())
}

/// What a failed link is reported as.
pub fn clang_failure_detail(stdout: &[u8], stderr: &[u8]) -> (r: String)
    ensures
        r@ == link_failure(lossy(stdout@), lossy(stderr@)),
{
    link_failure_detail(text_from_bytes(stdout).as_str(), text_from_bytes(stderr).as_str())
}

/// How the linker ended.
pub enum LinkerRun<'a> {
    /// It ran: whether it succeeded, and what it wrote.
    Ended { success: bool, stdout: &'a [u8], stderr: &'a [u8] },
    /// It could not be run.
    NotRun(&'a str),
}

/// What to do about the linker's result.
#[derive(Debug)]
pub enum ClangOutcome {
    /// The program was linked.
    Linked,
    /// The emitted object did not link, which is a failure of the compiler.
    LinkFailed(String),
    /// The linker could not be run.
    SpawnFailed(String),
}

/// What to do about the linker's result. `ir_file` is kept in the message for
/// another try.
pub fn classify_clang_output(run: LinkerRun<'_>, ir_file: &str) -> (r: ClangOutcome)
    ensures
        match run {
            LinkerRun::Ended { success, stdout, stderr } => if success {
                r == ClangOutcome::Linked
            } else {
                r matches ClangOutcome::LinkFailed(detail) && detail@ == link_failure(
                    lossy(stdout@),
                    lossy(stderr@),
                )
            },
            LinkerRun::NotRun(e) => r matches ClangOutcome::SpawnFailed(message) && message@
                == "Failed to run clang: "@ + e@ + ". IR file generated at: "@ + ir_file@,
        },
{
    match run {
        LinkerRun::Ended { success, stdout, stderr } => {
            if success {
                ClangOutcome::Linked
            } else {
                ClangOutcome::LinkFailed(clang_failure_detail(stdout, stderr))
            }
        },
        LinkerRun::NotRun(e) => {
            let mut message = cat("Failed to run clang: ", e);
            message.append(". IR file generated at: ");
            message.append(ir_file);
            ClangOutcome::SpawnFailed(message)
        },
    }
}

} // verus!
