//! What readers see of a rendered diagnostic.

use crate::diagnostic::catalog::DiagnosticCode;
use crate::diagnostic::emitter::{
    at_most_limit, context, context_line, count_level, covers, first_row, header, help_lines, label_lines,
    label_painted, last_row, location, mark_end, mark_start, marks, number_width, rendered,
    rendered_all, rendered_batch, source_line, summary, truncation, underline,
};
use crate::diagnostic::files::{FileId, FileModel};
use crate::diagnostic::order::{arranged, sort_keys};
use crate::diagnostic::report::{Diagnostic, Label, LabelStyle, Level};
use crate::diagnostic::styles::{accent, hue_code, painted, weight_code, Hue, Weight};
use crate::lexer::Span;
use crate::lines::{repeated, right_aligned, shown_lines, trimmed_end};
use crate::text::{decimal, is_blank_spec};
use vstd::prelude::*;

verus! {

/// A text that only changes how what follows looks: nothing, or escape codes.
pub open spec fn is_code(s: Seq<char>) -> bool {
    s.len() == 0 || (s[0] == '\u{1b}' && s.last() == 'm')
}

/// A text that looks like another: it stands between codes.
pub open spec fn looks_like(s: Seq<char>, text: Seq<char>) -> bool {
    exists|front: Seq<char>, back: Seq<char>|
        is_code(front) && is_code(back) && s == #[trigger] (front + text + back)
}

proof fn painted_looks_like(
    weight: Weight,
    hue: Option<Hue>,
    text: Seq<char>,
)
    ensures
        looks_like(painted(weight, hue, text), text),
{
    use_codes();
    let front = weight_code(weight)
        + hue_code(hue);
    let back = if weight == Weight::Normal && hue is None {
        seq![]
    } else {
        "\u{1b}[0m"@
    };
    assert(painted(weight, hue, text) =~= front + text + back);
    assert(is_code(front));
}

proof fn use_codes()
    ensures
        "\u{1b}[1m"@.len() == 4 && "\u{1b}[1m"@[0] == '\u{1b}' && "\u{1b}[1m"@[3] == 'm',
        "\u{1b}[31m"@.len() == 5 && "\u{1b}[31m"@[0] == '\u{1b}' && "\u{1b}[31m"@[4] == 'm',
        "\u{1b}[32m"@.len() == 5 && "\u{1b}[32m"@[0] == '\u{1b}' && "\u{1b}[32m"@[4] == 'm',
        "\u{1b}[33m"@.len() == 5 && "\u{1b}[33m"@[0] == '\u{1b}' && "\u{1b}[33m"@[4] == 'm',
        "\u{1b}[36m"@.len() == 5 && "\u{1b}[36m"@[0] == '\u{1b}' && "\u{1b}[36m"@[4] == 'm',
        "\u{1b}[0m"@.len() == 4 && "\u{1b}[0m"@[0] == '\u{1b}' && "\u{1b}[0m"@[3] == 'm',
        "\u{1b}[38;2;"@.len() == 7 && "\u{1b}[38;2;"@[0] == '\u{1b}',
        "m"@.len() == 1 && "m"@[0] == 'm',
{
    reveal_strlit("\u{1b}[1m");
    reveal_strlit("\u{1b}[31m");
    reveal_strlit("\u{1b}[32m");
    reveal_strlit("\u{1b}[33m");
    reveal_strlit("\u{1b}[36m");
    reveal_strlit("\u{1b}[0m");
    reveal_strlit("\u{1b}[38;2;");
    reveal_strlit("m");
}

/// A diagnostic starts with `error` or `warning`, as its level is, the code in
/// brackets, and its message.
pub proof fn header_names_level_code_and_message(
    level: Level,
    code: DiagnosticCode,
    message: Seq<char>,
)
    ensures
        exists|word: Seq<char>, shown: Seq<char>|
            header(level, code, message) == #[trigger] (word + "["@ + code.as_str()@ + "]: "@ + shown
                + "\n"@) && looks_like(
                word,
                if level == Level::Error {
                    "error"@
                } else {
                    "warning"@
                },
            ) && looks_like(shown, message),
{
    let word = match level {
        Level::Error => painted(Weight::Bold, Some(Hue::Red), "error"@),
        Level::Warning => painted(Weight::Bold, Some(Hue::Yellow), "warning"@),
    };
    let shown = painted(Weight::Bold, None, message);
    painted_looks_like(Weight::Bold, Some(Hue::Red), "error"@);
    painted_looks_like(Weight::Bold, Some(Hue::Yellow), "warning"@);
    painted_looks_like(Weight::Bold, None, message);
    assert(header(level, code, message) == word + "["@ + code.as_str()@ + "]: "@ + shown + "\n"@);
}

/// The place of a diagnostic is shown as its path, its row and the column of its
/// first label.
pub proof fn location_names_path_row_and_column(
    d: Diagnostic,
    path: Seq<char>,
    row: usize,
    width: nat,
)
    requires
        d.labels@.len() > 0,
    ensures
        exists|place: Seq<char>|
            location(d, path, row, width) == #[trigger] (place + "\n"@ + (repeated(' ', width)
                + " |"@) + "\n"@) && looks_like(
                place,
                "--> "@ + path + ":"@ + decimal(row as nat) + ":"@ + decimal(
                    d.labels@[0].span.col_start as nat,
                ),
            ),
{
    let text = "--> "@ + path + ":"@ + decimal(row as nat) + ":"@ + decimal(
        d.labels@[0].span.col_start as nat,
    );
    let place = painted(
        Weight::Normal,
        Some(Hue::Cyan),
        text,
    );
    painted_looks_like(
        Weight::Normal,
        Some(Hue::Cyan),
        text,
    );
    assert(location(d, path, row, width) == place + "\n"@ + (repeated(' ', width) + " |"@)
        + "\n"@);
}

/// A source line is shown behind its number and a bar. The number takes up the
/// width, so that every line's text starts in the same column.
pub proof fn source_line_shows_its_text(number: nat, content: Seq<char>, width: nat)
    requires
        decimal(number).len() <= width,
    ensures
        exists|shown: Seq<char>|
            source_line(number, content, width) == #[trigger] (shown + " | "@ + trimmed_end(
                content,
            )) && looks_like(
                shown,
                repeated(' ', (width - decimal(number).len()) as nat) + decimal(number),
            ),
        right_aligned(number, width).len() == width,
{
    let text = repeated(' ', (width - decimal(number).len()) as nat) + decimal(number);
    let shown = painted(
        Weight::Bold,
        Some(accent()),
        right_aligned(number, width),
    );
    assert(right_aligned(number, width) =~= text);
    painted_looks_like(
        Weight::Bold,
        Some(accent()),
        right_aligned(number, width),
    );
    assert(source_line(number, content, width) == shown + " | "@ + trimmed_end(content));
}

/// The carets of a label on one line stand under the columns from where the
/// label starts up to where it ends: as many spaces as there are columns in
/// front of it, behind a margin as wide as that of the source line, and as many
/// carets as it has columns.
pub proof fn carets_stand_under_the_label(
    span: Span,
    to: usize,
    content: Seq<char>,
    style: LabelStyle,
    width: nat,
)
    requires
        span.row_end == Some(span.row_start),
        span.col_end == Some(to),
        1 <= span.col_start < to,
    ensures
        exists|carets: Seq<char>|
            underline(span, span.row_start, content, style, width) == #[trigger] (repeated(
                ' ',
                width,
            ) + " |"@ + " "@ + repeated(' ', (span.col_start - 1) as nat) + carets) && looks_like(
                carets,
                repeated('^', (to - span.col_start) as nat),
            ),
{
    let text = repeated('^', (to - span.col_start) as nat);
    painted_looks_like(Weight::Normal, Some(Hue::Red), text);
    painted_looks_like(Weight::Normal, Some(accent()), text);
    let carets = label_painted(style, text);
    assert(underline(span, span.row_start, content, style, width) == repeated(' ', width) + " |"@
        + " "@ + repeated(' ', (span.col_start - 1) as nat) + carets);
}

/// A label without an end, or one that is empty, gets one caret where it starts.
pub proof fn a_place_gets_one_caret(span: Span, content: Seq<char>, style: LabelStyle, width: nat)
    requires
        span.row_end is None,
        1 <= span.col_start,
    ensures
        exists|caret: Seq<char>|
            underline(span, span.row_start, content, style, width) == #[trigger] (repeated(
                ' ',
                width,
            ) + " |"@ + " "@ + repeated(' ', (span.col_start - 1) as nat) + caret) && looks_like(
                caret,
                seq!['^'],
            ),
{
    let text = repeated('^', 1);
    assert(text =~= seq!['^']);
    painted_looks_like(Weight::Normal, Some(Hue::Red), text);
    painted_looks_like(Weight::Normal, Some(accent()), text);
    let caret = label_painted(style, text);
    assert(underline(span, span.row_start, content, style, width) == repeated(' ', width) + " |"@
        + " "@ + repeated(' ', (span.col_start - 1) as nat) + caret);
}

/// The context of a diagnostic starts at the first row of its labels: none
/// starts above it, and one starts there.
pub proof fn context_starts_at_the_first_label(labels: Seq<Label>, n: int, i: int)
    requires
        0 <= i < n <= labels.len(),
    ensures
        first_row(labels, n) <= labels[i].span.row_start,
        exists|k: int| 0 <= k < n && first_row(labels, n) == (#[trigger] labels[k]).span.row_start,
    decreases n,
{
    if n == 1 {
        assert(first_row(labels, 0) == usize::MAX);
        assert(labels[0].span.row_start == first_row(labels, 1));
    } else if i < n - 1 {
        context_starts_at_the_first_label(labels, n - 1, i);
        let k = choose|k: int|
            0 <= k < n - 1 && first_row(labels, n - 1) == (#[trigger] labels[k]).span.row_start;
        if first_row(labels, n) != first_row(labels, n - 1) {
            assert(first_row(labels, n) == labels[n - 1].span.row_start);
        }
    } else {
        context_starts_at_the_first_label(labels, n - 1, 0);
        let k = choose|k: int|
            0 <= k < n - 1 && first_row(labels, n - 1) == (#[trigger] labels[k]).span.row_start;
        if first_row(labels, n) != first_row(labels, n - 1) {
            assert(first_row(labels, n) == labels[n - 1].span.row_start);
        }
    }
}

/// The context of a diagnostic ends at the last row of its labels: none ends
/// below it.
pub proof fn context_ends_at_the_last_label(labels: Seq<Label>, n: int, i: int)
    requires
        0 <= i < n <= labels.len(),
    ensures
        labels[i].span.row_start <= last_row(labels, n) || labels[i].span.row_end is Some,
        labels[i].span.row_end matches Some(row) ==> row <= last_row(labels, n),
    decreases n,
{
    if i < n - 1 {
        context_ends_at_the_last_label(labels, n - 1, i);
    }
}

/// A line of the context shows the source line of its number, counted from one,
/// and under it nothing but the marks of labels.
pub proof fn context_shows_the_line_of_its_number(
    labels: Seq<Label>,
    lines: Seq<Seq<char>>,
    number: usize,
    width: nat,
)
    requires
        1 <= number <= lines.len(),
    ensures
        context_line(labels, lines, number, width) == source_line(
            number as nat,
            lines[number - 1],
            width,
        ) + "\n"@ + marks(labels, labels.len() as int, number, lines[number - 1], width),
{
}

/// A label is marked under the lines from its first to its last row, and under
/// no other.
pub proof fn labels_are_marked_on_their_rows(number: usize, span: Span)
    ensures
        covers(number, span) <==> number == span.row_start || (span.row_end matches Some(last)
            && span.row_start <= number <= last),
{
}

/// A label that goes on behind a line is marked up to the line's end.
pub proof fn long_labels_are_marked_to_the_end(span: Span, number: usize, content: Seq<char>)
    requires
        span.row_end matches Some(last) && number < last,
        crate::text::byte_len(content) <= usize::MAX,
    ensures
        mark_end(span, number, content) == crate::text::byte_len(content),
{
}

/// Every diagnostic is an error or a warning, and is counted as that.
pub proof fn counts_cover_all(ds: Seq<Diagnostic>, n: int)
    requires
        0 <= n <= ds.len(),
    ensures
        count_level(ds, n, Level::Error) + count_level(ds, n, Level::Warning) == n,
        (forall|i: int| 0 <= i < n ==> (#[trigger] ds[i]).level == Level::Error) ==> count_level(
            ds,
            n,
            Level::Error,
        ) == n,
    decreases n,
{
    if n > 0 {
        counts_cover_all(ds, n - 1);
    }
}

/// The summary says how many errors and warnings there are, each only where
/// there are any, and in the plural unless there is one.
pub proof fn summary_counts(errors: nat, warnings: nat)
    ensures
        errors == 0 && warnings == 0 ==> summary(errors, warnings) == Seq::<char>::empty(),
        errors > 0 && warnings == 0 ==> exists|word: Seq<char>|
            #[trigger] looks_like(word, "error"@) && summary(errors, warnings) == (word + ": "@
                + decimal(errors) + " error"@ + (if errors == 1 {
                ""@
            } else {
                "s"@
            }) + " found\n\n"@),
        errors == 0 && warnings > 0 ==> exists|word: Seq<char>|
            #[trigger] looks_like(word, "warning"@) && summary(errors, warnings) == (word + ": "@
                + decimal(warnings) + " warning"@ + (if warnings == 1 {
                ""@
            } else {
                "s"@
            }) + "\n\n"@),
        errors > 0 && warnings > 0 ==> summary(errors, warnings) == summary(errors, 0) + summary(
            0,
            warnings,
        ),
{
    painted_looks_like(Weight::Bold, Some(Hue::Red), "error"@);
    painted_looks_like(Weight::Bold, Some(Hue::Yellow), "warning"@);
    let e = painted(Weight::Bold, Some(Hue::Red), "error"@);
    let v = painted(Weight::Bold, Some(Hue::Yellow), "warning"@);
    if errors == 0 && warnings == 0 {
        assert(summary(errors, warnings) =~= Seq::<char>::empty());
    }
    if errors > 0 {
        assert(summary(errors, 0) =~= e + ": "@ + decimal(errors) + " error"@ + (if errors == 1 {
            ""@
        } else {
            "s"@
        }) + " found\n\n"@);
    }
    if warnings > 0 {
        assert(summary(0, warnings) =~= v + ": "@ + decimal(warnings) + " warning"@ + (
        if warnings == 1 {
            ""@
        } else {
            "s"@
        }) + "\n\n"@);
    }
    if errors > 0 && warnings > 0 {
        assert(summary(errors, warnings) =~= summary(errors, 0) + summary(0, warnings));
    }
}

/// A text that has lost its blank end is the front of the text, ends with no
/// blank, and lacks nothing but blanks.
pub proof fn only_blanks_are_cut(s: Seq<char>)
    ensures
        trimmed_end(s).len() <= s.len(),
        trimmed_end(s) == s.take(trimmed_end(s).len() as int),
        trimmed_end(s).len() > 0 ==> !is_blank_spec(trimmed_end(s).last()),
        forall|i: int| trimmed_end(s).len() <= i < s.len() ==> is_blank_spec(#[trigger] s[i]),
    decreases s.len(),
{
    if s.len() > 0 && is_blank_spec(s.last()) {
        only_blanks_are_cut(s.drop_last());
        let n = trimmed_end(s).len() as int;
        assert(s.drop_last().take(n) =~= s.take(n));
        assert forall|i: int| n <= i < s.len() implies is_blank_spec(#[trigger] s[i]) by {
            if i < s.len() - 1 {
                assert(s.drop_last()[i] == s[i]);
            }
        }
    } else {
        assert(s.take(s.len() as int) =~= s);
    }
}

/// On the rows behind its first one a label is marked from the line's start.
pub proof fn later_rows_are_marked_from_their_start(span: Span, number: usize)
    requires
        span.row_start < number,
    ensures
        mark_start(span, number) == 0,
{
}

/// The context goes on line by line: what stands between two rows does not depend
/// on where it is cut.
pub proof fn context_goes_line_by_line(
    labels: Seq<Label>,
    lines: Seq<Seq<char>>,
    from: int,
    cut: usize,
    last: usize,
    width: nat,
)
    requires
        0 <= from <= cut + 1,
        cut <= last,
    ensures
        context(labels, lines, from, last, width) == context(labels, lines, from, cut, width)
            + context(labels, lines, cut + 1, last, width),
        context(labels, lines, last as int, last, width) == context_line(
            labels,
            lines,
            last,
            width,
        ),
    decreases cut + 1 - from,
{
    reveal_with_fuel(context, 2);
    assert(context(labels, lines, last as int, last, width) =~= context_line(
        labels,
        lines,
        last,
        width,
    ));
    if from <= cut {
        context_goes_line_by_line(labels, lines, from + 1, cut, last, width);
        let line = context_line(labels, lines, from as usize, width);
        let a = context(labels, lines, from + 1, cut, width);
        let b = context(labels, lines, cut + 1, last, width);
        assert(line + (a + b) =~= (line + a) + b);
    } else {
        assert(context(labels, lines, from, cut, width) =~= seq![]);
        assert(seq![] + context(labels, lines, from, last, width) =~= context(
            labels,
            lines,
            from,
            last,
            width,
        ));
    }
}

/// The marks of labels stand under a line in the order of the labels.
pub proof fn marks_keep_the_order_of_labels(
    labels: Seq<Label>,
    label: Label,
    number: usize,
    content: Seq<char>,
    width: nat,
)
    ensures
        covers(number, label.span) ==> marks(
            labels.push(label),
            labels.len() + 1int,
            number,
            content,
            width,
        ) == marks(labels, labels.len() as int, number, content, width) + label_lines(
            label,
            number,
            content,
            width,
        ),
        !covers(number, label.span) ==> marks(
            labels.push(label),
            labels.len() + 1int,
            number,
            content,
            width,
        ) == marks(labels, labels.len() as int, number, content, width),
{
    let all = labels.push(label);
    same_marks(labels, all, labels.len() as int, number, content, width);
    let before = marks(labels, labels.len() as int, number, content, width);
    assert(before + seq![] =~= before);
}

proof fn same_marks(
    a: Seq<Label>,
    b: Seq<Label>,
    n: int,
    number: usize,
    content: Seq<char>,
    width: nat,
)
    requires
        0 <= n <= a.len() <= b.len(),
        forall|i: int| 0 <= i < n ==> #[trigger] a[i] == b[i],
    ensures
        marks(a, n, number, content, width) == marks(b, n, number, content, width),
    decreases n,
{
    if n > 0 {
        same_marks(a, b, n - 1, number, content, width);
        assert(a[n - 1] == b[n - 1]);
    }
}

/// The message of a label stands below its carets, behind the same margin.
pub proof fn label_message_stands_below_its_carets(
    label: Label,
    number: usize,
    content: Seq<char>,
    width: nat,
)
    ensures
        ({
            let carets = underline(label.span, number, content, label.style, width) + "\n"@;
            &&& label.message is None ==> label_lines(label, number, content, width) == carets
            &&& label.message matches Some(m) ==> exists|shown: Seq<char>|
                #[trigger] looks_like(shown, m@) && label_lines(label, number, content, width)
                    == carets + (repeated(' ', width) + " |"@ + " "@ + shown + "\n"@)
        }),
{
    let carets = underline(label.span, number, content, label.style, width) + "\n"@;
    match label.message {
        None => {
            assert(carets + seq![] =~= carets);
        },
        Some(m) => {
            painted_looks_like(Weight::Normal, Some(Hue::Red), m@);
            painted_looks_like(Weight::Normal, Some(accent()), m@);
            assert(looks_like(label_painted(label.style, m@), m@));
        },
    }
}

/// A diagnostic of a known file is shown with its header first, then where it
/// is, then the lines from the first to the last row of its labels, and its
/// help last. The margin is wide enough for the last line's number.
pub proof fn report_goes_from_header_to_help(
    d: Diagnostic,
    files: Seq<FileModel>,
    id: FileId,
    first: usize,
    last: usize,
)
    requires
        d.file_id == Some(id),
        id.0 < files.len(),
        d.labels@.len() > 0,
        first == first_row(d.labels@, d.labels@.len() as int),
        last == last_row(d.labels@, d.labels@.len() as int),
    ensures
        ({
            let width = number_width(last as nat);
            let path = files[id.0 as int].0;
            let lines = shown_lines(files[id.0 as int].1);
            &&& decimal(last as nat).len() <= width
            &&& rendered(d, files) == header(d.level, d.code, d.message@) + location(
                d,
                path,
                first,
                width,
            ) + context(d.labels@, lines, first as int, last, width) + help_lines(
                match d.help {
                    Some(h) => Some(h@),
                    None => None,
                },
                width,
            ) + "\n"@
        }),
{
}

/// A batch starts with the numbers of all its errors and warnings, shown or not,
/// goes on with the diagnostics in the order of presentation, and ends with how
/// many it does not show, where it does not show all.
pub proof fn batch_goes_from_counts_to_the_rest(
    ds: Seq<Diagnostic>,
    files: Seq<FileModel>,
    errors: nat,
    warnings: nat,
    n: int,
)
    requires
        errors == count_level(ds, ds.len() as int, Level::Error),
        warnings == count_level(ds, ds.len() as int, Level::Warning),
        n == at_most_limit(ds.len()),
    ensures
        errors + warnings == ds.len(),
        rendered_batch(ds, files) == summary(errors, warnings) + rendered_all(
            ds,
            files,
            arranged(sort_keys(ds, files), ds.len() as int),
            n,
        ) + truncation(ds.len()),
        n == ds.len() ==> truncation(ds.len()) == Seq::<char>::empty(),
        n < ds.len() ==> exists|word: Seq<char>|
            #[trigger] looks_like(word, "warning"@) && truncation(ds.len()) == word
                + ": output truncated; "@ + decimal((ds.len() - n) as nat)
                + " additional diagnostics omitted (maximum is "@ + decimal(n as nat) + ")\n"@,
{
    counts_cover_all(ds, ds.len() as int);
    painted_looks_like(Weight::Bold, Some(Hue::Yellow), "warning"@);
}

/// The diagnostics of a batch are shown one behind the other.
pub proof fn batch_shows_one_behind_the_other(
    ds: Seq<Diagnostic>,
    files: Seq<FileModel>,
    order: Seq<int>,
    i: int,
)
    requires
        0 <= i < order.len(),
    ensures
        rendered_all(ds, files, order, 0) == Seq::<char>::empty(),
        rendered_all(ds, files, order, i + 1) == rendered_all(ds, files, order, i) + rendered(
            ds[order[i]],
            files,
        ),
{
}

} // verus!
