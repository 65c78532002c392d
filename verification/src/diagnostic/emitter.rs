//! Rendering diagnostics with their source context.

use crate::diagnostic::catalog::DiagnosticCode;
use crate::diagnostic::files::{FileModel, Files};
use crate::diagnostic::order::{arranged, diagnostic_order, ints, sort_keys};
use crate::diagnostic::report::{
    text_of, Diagnostic, Label, LabelStyle, Level, MAX_DIAGNOSTICS,
};
use crate::diagnostic::styles::{accent, painted, ColorConfig, Hue, Styles, Weight};
use crate::lexer::Span;
use crate::lines::{
    align_right, display_lines, repeat, repeated, right_aligned, shown_lines, texts, trim_end,
    trimmed_end,
};
use crate::text::{byte_len, byte_len_counts_utf8, cat, chars_of, decimal, decimal_string};
use vstd::prelude::*;

verus! {

/// The width of the line number column: at least two.
pub open spec fn number_width(max_line: nat) -> nat {
    if decimal(max_line).len() > 2 {
        decimal(max_line).len()
    } else {
        2
    }
}

/// The line number column without a number.
pub open spec fn gutter(width: nat) -> Seq<char> {
    repeated(' ', width) + " |"@
}

/// A source line with its number.
pub open spec fn source_line(number: nat, content: Seq<char>, width: nat) -> Seq<char> {
    painted(Weight::Bold, Some(accent()), right_aligned(number, width)) + " | "@ + trimmed_end(
        content,
    )
}

/// A text in the style of a label.
pub open spec fn label_painted(style: LabelStyle, text: Seq<char>) -> Seq<char> {
    match style {
        LabelStyle::Primary => painted(Weight::Normal, Some(Hue::Red), text),
        LabelStyle::Secondary => painted(Weight::Normal, Some(accent()), text),
    }
}

pub open spec fn one_less(n: usize) -> usize {
    if n > 0 {
        (n - 1) as usize
    } else {
        0
    }
}

/// The column, counted from zero, at which a label starts on a line.
pub open spec fn mark_start(span: Span, number: usize) -> usize {
    if span.row_start == number {
        one_less(span.col_start)
    } else {
        0
    }
}

/// The column, counted from zero, behind a label's end on a line.
pub open spec fn mark_end(span: Span, number: usize, content: Seq<char>) -> usize {
    match span.row_end {
        Some(row) => if row == number {
            one_less(
                match span.col_end {
                    Some(col) => col,
                    None => span.col_start,
                },
            )
        } else {
            byte_len(content) as usize
        },
        None => mark_start(span, number),
    }
}

/// How many carets mark a label on a line: at least one.
pub open spec fn mark_len(span: Span, number: usize, content: Seq<char>) -> nat {
    if mark_end(span, number, content) > mark_start(span, number) {
        (mark_end(span, number, content) - mark_start(span, number)) as nat
    } else {
        1
    }
}

/// The carets under a line for a label.
pub open spec fn underline(
    span: Span,
    number: usize,
    content: Seq<char>,
    style: LabelStyle,
    width: nat,
) -> Seq<char> {
    gutter(width) + " "@ + repeated(' ', mark_start(span, number) as nat) + label_painted(
        style,
        repeated('^', mark_len(span, number, content)),
    )
}

/// The first line of a diagnostic: level, code and message.
pub open spec fn header(level: Level, code: DiagnosticCode, message: Seq<char>) -> Seq<char> {
    (match level {
        Level::Error => painted(Weight::Bold, Some(Hue::Red), "error"@),
        Level::Warning => painted(Weight::Bold, Some(Hue::Yellow), "warning"@),
    }) + "["@ + code.as_str()@ + "]: "@ + painted(Weight::Bold, None, message) + "\n"@
}

/// The first row of the first `n` labels.
pub open spec fn first_row(labels: Seq<Label>, n: int) -> usize
    decreases n,
{
    if n <= 0 || n > labels.len() {
        usize::MAX
    } else if labels[n - 1].span.row_start < first_row(labels, n - 1) {
        labels[n - 1].span.row_start
    } else {
        first_row(labels, n - 1)
    }
}

pub open spec fn row_end(span: Span) -> usize {
    match span.row_end {
        Some(row) => row,
        None => span.row_start,
    }
}

/// The last row of the first `n` labels.
pub open spec fn last_row(labels: Seq<Label>, n: int) -> usize
    decreases n,
{
    if n <= 0 || n > labels.len() {
        0
    } else if row_end(labels[n - 1].span) > last_row(labels, n - 1) {
        row_end(labels[n - 1].span)
    } else {
        last_row(labels, n - 1)
    }
}

/// Whether a label belongs under a line.
pub open spec fn covers(number: usize, span: Span) -> bool {
    span.row_start == number || (span.row_start <= number && span.row_end is Some
        && span.row_end->0 >= number)
}

/// The marks of a label under a line, with its message where it has one.
pub open spec fn label_lines(label: Label, number: usize, content: Seq<char>, width: nat) -> Seq<
    char,
> {
    underline(label.span, number, content, label.style, width) + "\n"@ + (match label.message {
        Some(m) => gutter(width) + " "@ + label_painted(label.style, m@) + "\n"@,
        None => seq![],
    })
}

/// The marks of the first `n` labels under a line.
pub open spec fn marks(
    labels: Seq<Label>,
    n: int,
    number: usize,
    content: Seq<char>,
    width: nat,
) -> Seq<char>
    decreases n,
{
    if n <= 0 || n > labels.len() {
        seq![]
    } else {
        marks(labels, n - 1, number, content, width) + (if covers(number, labels[n - 1].span) {
            label_lines(labels[n - 1], number, content, width)
        } else {
            seq![]
        })
    }
}

/// A line of context, with the marks under it. Lines behind the end of the
/// source have none.
pub open spec fn context_line(
    labels: Seq<Label>,
    lines: Seq<Seq<char>>,
    number: usize,
    width: nat,
) -> Seq<char> {
    if one_less(number) >= lines.len() {
        seq![]
    } else {
        let content = lines[one_less(number) as int];
        source_line(number as nat, content, width) + "\n"@ + marks(
            labels,
            labels.len() as int,
            number,
            content,
            width,
        )
    }
}

/// The context from line `number` up to and with line `last`.
pub open spec fn context(
    labels: Seq<Label>,
    lines: Seq<Seq<char>>,
    number: int,
    last: usize,
    width: nat,
) -> Seq<char>
    decreases last - number + 1,
{
    if number < 0 || number > last {
        seq![]
    } else {
        context_line(labels, lines, number as usize, width) + context(
            labels,
            lines,
            number + 1,
            last,
            width,
        )
    }
}

/// The help of a diagnostic, where it has one.
pub open spec fn help_lines(help: Option<Seq<char>>, width: nat) -> Seq<char> {
    match help {
        Some(h) => gutter(width) + "\n"@ + painted(Weight::Bold, Some(accent()), "="@) + " "@
            + painted(Weight::Bold, Some(Hue::Cyan), "help:"@) + " "@ + h + "\n"@,
        None => seq![],
    }
}

/// Where a diagnostic is: its file, its first row and its first label's
/// column.
pub open spec fn location(d: Diagnostic, path: Seq<char>, row: usize, width: nat) -> Seq<char> {
    painted(
        Weight::Normal,
        Some(Hue::Cyan),
        "--> "@ + path + ":"@ + decimal(row as nat) + ":"@ + decimal(
            d.labels@[0].span.col_start as nat,
        ),
    ) + "\n"@ + gutter(width) + "\n"@
}

/// A diagnostic with its source context.
pub open spec fn rendered_in(d: Diagnostic, source: Seq<char>, path: Seq<char>) -> Seq<char> {
    if d.labels@.len() == 0 {
        header(d.level, d.code, d.message@) + "\n"@
    } else {
        let n = d.labels@.len() as int;
        let first = first_row(d.labels@, n);
        let last = last_row(d.labels@, n);
        let width = number_width(last as nat);
        header(d.level, d.code, d.message@) + location(d, path, first, width) + context(
            d.labels@,
            shown_lines(source),
            first as int,
            last,
            width,
        ) + help_lines(text_of(d.help), width) + "\n"@
    }
}

/// The report of a diagnostic that names no known file.
pub open spec fn invalid_provenance(reason: Seq<char>) -> Seq<char> {
    header(
        Level::Error,
        DiagnosticCode::InternalCompiler,
        "internal compiler error while rendering a diagnostic: "@ + reason,
    ) + painted(Weight::Bold, Some(accent()), "="@) + " "@ + painted(
        Weight::Bold,
        Some(Hue::Cyan),
        "help: please report this compiler error to the Mux maintainers"@,
    ) + "\n\n"@
}

/// A diagnostic with the context that its file gives.
pub open spec fn rendered(d: Diagnostic, files: Seq<FileModel>) -> Seq<char> {
    match d.file_id {
        None => invalid_provenance("diagnostic has no source file"@),
        Some(id) => if id.0 < files.len() {
            rendered_in(d, files[id.0 as int].1, files[id.0 as int].0)
        } else {
            invalid_provenance("diagnostic refers to an unknown source file"@)
        },
    }
}

/// How many of the first `n` diagnostics are of a level.
pub open spec fn count_level(ds: Seq<Diagnostic>, n: int, level: Level) -> nat
    decreases n,
{
    if n <= 0 || n > ds.len() {
        0
    } else {
        count_level(ds, n - 1, level) + (if ds[n - 1].level == level {
            1nat
        } else {
            0nat
        })
    }
}

pub open spec fn plural(n: nat) -> Seq<char> {
    if n == 1 {
        ""@
    } else {
        "s"@
    }
}

/// The counts above a batch.
pub open spec fn summary(errors: nat, warnings: nat) -> Seq<char> {
    (if errors > 0 {
        painted(Weight::Bold, Some(Hue::Red), "error"@) + ": "@ + decimal(errors) + " error"@
            + plural(errors) + " found\n\n"@
    } else {
        seq![]
    }) + (if warnings > 0 {
        painted(Weight::Bold, Some(Hue::Yellow), "warning"@) + ": "@ + decimal(warnings)
            + " warning"@ + plural(warnings) + "\n\n"@
    } else {
        seq![]
    })
}

/// The first `n` diagnostics of an order.
pub open spec fn rendered_all(
    ds: Seq<Diagnostic>,
    files: Seq<FileModel>,
    order: Seq<int>,
    n: int,
) -> Seq<char>
    decreases n,
{
    if n <= 0 || n > order.len() {
        seq![]
    } else {
        rendered_all(ds, files, order, n - 1) + rendered(ds[order[n - 1]], files)
    }
}

pub open spec fn at_most_limit(n: nat) -> int {
    if n > MAX_DIAGNOSTICS {
        MAX_DIAGNOSTICS as int
    } else {
        n as int
    }
}

/// The note below a batch that shows less than there is.
pub open spec fn truncation(n: nat) -> Seq<char> {
    if n > MAX_DIAGNOSTICS {
        painted(Weight::Bold, Some(Hue::Yellow), "warning"@) + ": output truncated; "@ + decimal(
            (n - MAX_DIAGNOSTICS) as nat,
        ) + " additional diagnostics omitted (maximum is "@ + decimal(MAX_DIAGNOSTICS as nat)
            + ")\n"@
    } else {
        seq![]
    }
}

/// A batch of diagnostics in the order of presentation.
pub open spec fn rendered_batch(ds: Seq<Diagnostic>, files: Seq<FileModel>) -> Seq<char> {
    let n = ds.len() as int;
    summary(count_level(ds, n, Level::Error), count_level(ds, n, Level::Warning)) + rendered_all(
        ds,
        files,
        arranged(sort_keys(ds, files), n),
        at_most_limit(ds.len()),
    ) + truncation(ds.len())
}

/// Renders diagnostics as text.
pub trait DiagnosticEmitter {
    spec fn single(&self, d: Diagnostic, files: Seq<FileModel>) -> Seq<char>;

    spec fn batch(&self, ds: Seq<Diagnostic>, files: Seq<FileModel>) -> Seq<char>;

    fn emit(&self, diagnostic: &Diagnostic, files: &Files) -> (r: String)
        ensures
            r@ == self.single(*diagnostic, files@),
    ;

    fn emit_batch(&self, diagnostics: &[Diagnostic], files: &Files) -> (r: String)
        ensures
            r@ == self.batch(diagnostics@, files@),
    ;
}

/// Standard diagnostic emitter.
pub struct StandardEmitter {
    pub styles: Styles,
}

impl StandardEmitter {
    #[must_use]
    pub fn new(config: ColorConfig) -> (r: Self) {
        Self { styles: Styles::new(config) }
    }

    /// The line number width for proper alignment.
    fn line_number_width(&self, max_line: usize) -> (r: usize)
        ensures
            r == number_width(max_line as nat),
    {
        let digits: usize = chars_of(decimal_string(max_line).as_str()).len();
        if digits > 2 {
            digits
        } else {
            2
        }
    }

    /// A source line with its number.
    fn render_source_line(&self, line_number: usize, line_content: &str, width: usize) -> (r: String)
        ensures
            r@ == source_line(line_number as nat, line_content@, width as nat),
    {
        let mut out = self.styles.line_number(align_right(line_number, width).as_str());
        out.append(" | ");
        out.append(trim_end(line_content).as_str());
        out
    }

    /// The line number column without a number.
    fn render_gutter(&self, width: usize) -> (r: String)
        ensures
            r@ == gutter(width as nat),
    {
        let mut out = repeat(' ', width);
        out.append(" |");
        out
    }

    /// A text in the style of a label.
    fn paint_label(&self, style: LabelStyle, text: &str) -> (r: String)
        ensures
            r@ == label_painted(style, text@),
    {
        match style {
            LabelStyle::Primary => self.styles.primary_label(text),
            LabelStyle::Secondary => self.styles.secondary_label(text),
        }
    }

    /// The carets under a line for a label.
    fn render_label_underline(
        &self,
        span: &Span,
        line_number: usize,
        line_content: &str,
        style: LabelStyle,
        width: usize,
    ) -> (r: String)
        ensures
            r@ == underline(*span, line_number, line_content@, style, width as nat),
    {
        let start_col: usize = if span.row_start == line_number {
            span.col_start.saturating_sub(1)
        } else {
            0
        };
        let end_col: usize = match span.row_end {
            Some(end_line) => {
                if end_line == line_number {
                    match span.col_end {
                        Some(col) => col.saturating_sub(1),
                        None => span.col_start.saturating_sub(1),
                    }
                } else {
                    proof {
                        byte_len_counts_utf8(line_content@);
                    }
                    line_content.len()
                }
            },
            None => start_col,
        };
        let underline_len: usize = if end_col > start_col {
            end_col - start_col
        } else {
            1
        };
        let mut out = self.render_gutter(width);
        out.append(" ");
        out.append(repeat(' ', start_col).as_str());
        out.append(self.paint_label(style, repeat('^', underline_len).as_str()).as_str());
        out
    }

    /// The first line of a diagnostic.
    fn render_header(&self, level: Level, code: DiagnosticCode, message: &str) -> (r: String)
        ensures
            r@ == header(level, code, message@),
    {
        let mut out = match level {
            Level::Error => self.styles.error("error"),
            Level::Warning => self.styles.warning("warning"),
        };
        out.append("[");
        out.append(code.as_str());
        out.append("]: ");
        out.append(self.styles.bold(message).as_str());
        out.append("\n");
        out
    }

    /// The first and the last row that labels point to.
    fn label_line_range(&self, diagnostic: &Diagnostic) -> (r: (usize, usize))
        ensures
            r.0 == first_row(diagnostic.labels@, diagnostic.labels@.len() as int),
            r.1 == last_row(diagnostic.labels@, diagnostic.labels@.len() as int),
    {
        let mut min_line: usize = usize::MAX;
        let mut max_line: usize = 0;
        let mut i: usize = 0;
        while i < diagnostic.labels.len()
            invariant
                i <= diagnostic.labels@.len(),
                min_line == first_row(diagnostic.labels@, i as int),
                max_line == last_row(diagnostic.labels@, i as int),
            decreases diagnostic.labels@.len() - i,
        {
            let span = diagnostic.labels[i].span;
            let end: usize = match span.row_end {
                Some(row) => row,
                None => span.row_start,
            };
            if span.row_start < min_line {
                min_line = span.row_start;
            }
            if end > max_line {
                max_line = end;
            }
            i += 1;
        }
        (min_line, max_line)
    }

    /// Where a diagnostic is.
    fn render_file_location(
        &self,
        diagnostic: &Diagnostic,
        file_path: &str,
        min_line: usize,
        width: usize,
    ) -> (r: String)
        requires
            diagnostic.labels@.len() > 0,
        ensures
            r@ == location(*diagnostic, file_path@, min_line, width as nat),
    {
        let mut place = cat("--> ", file_path);
        place.append(":");
        place.append(decimal_string(min_line).as_str());
        place.append(":");
        place.append(decimal_string(diagnostic.labels[0].span.col_start).as_str());
        let mut out = self.styles.location(place.as_str());
        out.append("\n");
        out.append(self.render_gutter(width).as_str());
        out.append("\n");
        assert(out@ =~= location(*diagnostic, file_path@, min_line, width as nat));
        out
    }

    /// Whether a label belongs under a line.
    fn label_covers_line(&self, line_num: usize, span: &Span) -> (r: bool)
        ensures
            r == covers(line_num, *span),
    {
        match span.row_end {
            Some(end) => span.row_start == line_num || (end >= line_num && span.row_start
                <= line_num),
            None => span.row_start == line_num,
        }
    }

    /// The marks of a label under a line.
    fn render_label(&self, label: &Label, line_num: usize, content: &str, width: usize) -> (r: String)
        ensures
            r@ == label_lines(*label, line_num, content@, width as nat),
    {
        let mut out = self.render_label_underline(
            &label.span,
            line_num,
            content,
            label.style,
            width,
        );
        out.append("\n");
        match &label.message {
            Some(msg) => {
                out.append(self.render_gutter(width).as_str());
                out.append(" ");
                out.append(self.paint_label(label.style, msg.as_str()).as_str());
                out.append("\n");
            },
            None => {},
        }
        assert(out@ =~= label_lines(*label, line_num, content@, width as nat));
        out
    }

    /// A line of context, with the marks under it.
    fn render_source_context_line(
        &self,
        diagnostic: &Diagnostic,
        lines: &Vec<String>,
        line_num: usize,
        width: usize,
    ) -> (r: String)
        ensures
            r@ == context_line(diagnostic.labels@, texts(lines@), line_num, width as nat),
    {
        let line_idx: usize = line_num.saturating_sub(1);
        if line_idx >= lines.len() {
            return String::new();
        }
        let content = lines[line_idx].as_str();
        assert(content@ == texts(lines@)[line_idx as int]);
        let mut out = self.render_source_line(line_num, content, width);
        out.append("\n");
        let ghost front = out@;
        let mut i: usize = 0;
        assert(front + seq![] =~= front);
        while i < diagnostic.labels.len()
            invariant
                i <= diagnostic.labels@.len(),
                out@ == front + marks(
                    diagnostic.labels@,
                    i as int,
                    line_num,
                    content@,
                    width as nat,
                ),
            decreases diagnostic.labels@.len() - i,
        {
            let label = &diagnostic.labels[i];
            if self.label_covers_line(line_num, &label.span) {
                out.append(self.render_label(label, line_num, content, width).as_str());
            }
            i += 1;
            assert(out@ =~= front + marks(
                diagnostic.labels@,
                i as int,
                line_num,
                content@,
                width as nat,
            ));
        }
        out
    }

    /// The context from line `first` up to and with line `last`.
    fn render_context(
        &self,
        diagnostic: &Diagnostic,
        lines: &Vec<String>,
        first: usize,
        last: usize,
        width: usize,
    ) -> (r: String)
        ensures
            r@ == context(diagnostic.labels@, texts(lines@), first as int, last, width as nat),
    {
        let mut out = String::new();
        if first > last {
            return out;
        }
        let ghost ls = texts(lines@);
        let ghost labels = diagnostic.labels@;
        let mut n: usize = first;
        assert(seq![] + context(labels, ls, n as int, last, width as nat) =~= context(
            labels,
            ls,
            n as int,
            last,
            width as nat,
        ));
        while n < last
            invariant
                first <= n <= last,
                ls == texts(lines@),
                labels == diagnostic.labels@,
                context(labels, ls, first as int, last, width as nat) == out@ + context(
                    labels,
                    ls,
                    n as int,
                    last,
                    width as nat,
                ),
            decreases last - n,
        {
            let ghost before = out@;
            let line = self.render_source_context_line(diagnostic, lines, n, width);
            out.append(line.as_str());
            n += 1;
            assert(before + (line@ + context(labels, ls, n as int, last, width as nat)) =~= out@
                + context(labels, ls, n as int, last, width as nat));
        }
        let ghost before = out@;
        let line = self.render_source_context_line(diagnostic, lines, last, width);
        out.append(line.as_str());
        proof {
            reveal_with_fuel(context, 2);
            assert(before + (line@ + seq![]) =~= out@);
        }
        out
    }

    /// The help of a diagnostic, where it has one.
    fn render_help(&self, diagnostic: &Diagnostic, width: usize) -> (r: String)
        ensures
            r@ == help_lines(text_of(diagnostic.help), width as nat),
    {
        match &diagnostic.help {
            Some(help) => {
                let mut out = self.render_gutter(width);
                out.append("\n");
                out.append(self.styles.line_number("=").as_str());
                out.append(" ");
                out.append(self.styles.help("help:").as_str());
                out.append(" ");
                out.append(help.as_str());
                out.append("\n");
                out
            },
            None => String::new(),
        }
    }

    /// A diagnostic with its source context.
    fn render_single(&self, diagnostic: &Diagnostic, source: &str, file_path: &str) -> (r: String)
        ensures
            r@ == rendered_in(*diagnostic, source@, file_path@),
    {
        let mut out = self.render_header(
            diagnostic.level,
            diagnostic.code,
            diagnostic.message.as_str(),
        );
        if diagnostic.labels.len() == 0 {
            out.append("\n");
            return out;
        }
        let lines = display_lines(source);
        let (min_line, max_line) = self.label_line_range(diagnostic);
        let width = self.line_number_width(max_line);
        out.append(
            self.render_file_location(diagnostic, file_path, min_line, width).as_str(),
        );
        out.append(
            self.render_context(diagnostic, &lines, min_line, max_line, width).as_str(),
        );
        out.append(self.render_help(diagnostic, width).as_str());
        out.append("\n");
        out
    }

    /// The report of a diagnostic that names no known file.
    fn render_invalid_provenance(&self, reason: &str) -> (r: String)
        ensures
            r@ == invalid_provenance(reason@),
    {
        let message = cat("internal compiler error while rendering a diagnostic: ", reason);
        let mut out = self.render_header(
            Level::Error,
            DiagnosticCode::InternalCompiler,
            message.as_str(),
        );
        out.append(self.styles.line_number("=").as_str());
        out.append(" ");
        out.append(
            self.styles.help(
                "help: please report this compiler error to the Mux maintainers",
            ).as_str(),
        );
        out.append("\n\n");
        out
    }

    /// The places of diagnostics in the order of presentation.
    pub fn ordered_diagnostics(diagnostics: &[Diagnostic], files: &Files) -> (r: Vec<usize>)
        ensures
            ints(r@) == arranged(sort_keys(diagnostics@, files@), diagnostics@.len() as int),
            forall|i: int| 0 <= i < r@.len() ==> (#[trigger] r@[i]) < diagnostics@.len(),
    {
        diagnostic_order(diagnostics, files)
    }

    /// How many diagnostics are of a level.
    fn count(diagnostics: &[Diagnostic], level: Level) -> (r: usize)
        ensures
            r == count_level(diagnostics@, diagnostics@.len() as int, level),
    {
        let mut n: usize = 0;
        let mut i: usize = 0;
        while i < diagnostics.len()
            invariant
                i <= diagnostics@.len(),
                n <= i,
                n == count_level(diagnostics@, i as int, level),
            decreases diagnostics@.len() - i,
        {
            if diagnostics[i].level == level {
                n += 1;
            }
            i += 1;
        }
        n
    }

    fn plural_suffix(n: usize) -> (r: &'static str)
        ensures
            r@ == plural(n as nat),
    {
        if n == 1 {
            ""
        } else {
            "s"
        }
    }

    /// The counts above a batch.
    fn render_summary(&self, errors: usize, warnings: usize) -> (r: String)
        ensures
            r@ == summary(errors as nat, warnings as nat),
    {
        let mut out = String::new();
        if errors > 0 {
            out.append(self.styles.error("error").as_str());
            out.append(": ");
            out.append(decimal_string(errors).as_str());
            out.append(" error");
            out.append(Self::plural_suffix(errors));
            out.append(" found\n\n");
        }
        if warnings > 0 {
            out.append(self.styles.warning("warning").as_str());
            out.append(": ");
            out.append(decimal_string(warnings).as_str());
            out.append(" warning");
            out.append(Self::plural_suffix(warnings));
            out.append("\n\n");
        }
        assert(out@ =~= summary(errors as nat, warnings as nat));
        out
    }

    /// The note below a batch that shows less than there is.
    fn render_truncation(&self, count: usize) -> (r: String)
        ensures
            r@ == truncation(count as nat),
    {
        if count <= MAX_DIAGNOSTICS {
            return String::new();
        }
        let mut out = self.styles.warning("warning");
        out.append(": output truncated; ");
        out.append(decimal_string(count - MAX_DIAGNOSTICS).as_str());
        out.append(" additional diagnostics omitted (maximum is ");
        out.append(decimal_string(MAX_DIAGNOSTICS).as_str());
        out.append(")\n");
        out
    }
}

impl Default for StandardEmitter {
    fn default() -> (r: Self) {
        Self::new(ColorConfig::Auto)
    }
}

impl DiagnosticEmitter for StandardEmitter {
    open spec fn single(&self, d: Diagnostic, files: Seq<FileModel>) -> Seq<char> {
        rendered(d, files)
    }

    open spec fn batch(&self, ds: Seq<Diagnostic>, files: Seq<FileModel>) -> Seq<char> {
        rendered_batch(ds, files)
    }

    fn emit(&self, diagnostic: &Diagnostic, files: &Files) -> (r: String) {
        match diagnostic.file_id {
            None => self.render_invalid_provenance("diagnostic has no source file"),
            Some(id) => match files.get(id) {
                Some(file) => self.render_single(
                    diagnostic,
                    file.source.as_str(),
                    file.path.as_str(),
                ),
                None => self.render_invalid_provenance(
                    "diagnostic refers to an unknown source file",
                ),
            },
        }
    }

    fn emit_batch(&self, diagnostics: &[Diagnostic], files: &Files) -> (r: String) {
        let order = Self::ordered_diagnostics(diagnostics, files);
        let errors = Self::count(diagnostics, Level::Error);
        let warnings = Self::count(diagnostics, Level::Warning);
        let mut out = self.render_summary(errors, warnings);
        let ghost front = out@;
        let ghost places = ints(order@);
        proof {
            crate::diagnostic::order::arranged_is_ordered(
                sort_keys(diagnostics@, files@),
                diagnostics@.len() as int,
            );
        }
        let limit: usize = if order.len() > MAX_DIAGNOSTICS { MAX_DIAGNOSTICS } else { order.len() };
        let mut i: usize = 0;
        assert(front + seq![] =~= front);
        while i < limit
            invariant
                i <= limit <= order@.len(),
                places == ints(order@),
                forall|j: int| 0 <= j < order@.len() ==> (#[trigger] order@[j]) < diagnostics@.len(),
                out@ == front + rendered_all(diagnostics@, files@, places, i as int),
            decreases limit - i,
        {
            let text = self.emit(&diagnostics[order[i]], files);
            out.append(text.as_str());
            i += 1;
            assert(out@ =~= front + rendered_all(diagnostics@, files@, places, i as int));
        }
        out.append(self.render_truncation(order.len()).as_str());
        out
    }
}

/// However many diagnostics there are, a batch shows at most the limit.
pub proof fn batch_is_bounded(ds: Seq<Diagnostic>)
    ensures
        at_most_limit(ds.len()) <= MAX_DIAGNOSTICS,
        ds.len() <= MAX_DIAGNOSTICS ==> truncation(ds.len()) == Seq::<char>::empty(),
{
}

} // verus!
