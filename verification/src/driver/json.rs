//! JSON text of fix results.

use crate::diagnostic::edit::TextEdit;
use crate::diagnostic::files::{FileId, FileModel, Files};
use crate::diagnostic::order::path_of;
use crate::diagnostic::report::{Diagnostic, Level};
use crate::text::{cat, chars_of, decimal, decimal_string, push_decimal};
use vstd::prelude::*;

verus! {

/// Control characters: those below the space, and those from `DEL` on up to
/// the end of the second control block.
pub open spec fn is_control_spec(c: char) -> bool {
    c as u32 <= 0x1f || 0x7f <= c as u32 <= 0x9f
}

fn is_control(c: char) -> (r: bool)
    ensures
        r == is_control_spec(c),
{
    c as u32 <= 0x1f || (0x7f <= c as u32 && c as u32 <= 0x9f)
}

/// A hexadecimal digit.
pub open spec fn hex_digit(d: int) -> char {
    if d < 10 {
        ((48 + d) as u8) as char
    } else {
        ((87 + d) as u8) as char
    }
}

fn hex(d: u32) -> (r: char)
    requires
        d < 16,
    ensures
        r == hex_digit(d as int),
{
    if d < 10 {
        ((48 + d) as u8) as char
    } else {
        ((87 + d) as u8) as char
    }
}

/// How a character is written between quotes.
pub open spec fn escaped_char(c: char) -> Seq<char> {
    if c == '"' {
        "\\\""@
    } else if c == '\\' {
        "\\\\"@
    } else if c == '\n' {
        "\\n"@
    } else if c == '\r' {
        "\\r"@
    } else if c == '\t' {
        "\\t"@
    } else if is_control_spec(c) {
        "\\u00"@.push(hex_digit((c as u32 / 16) as int)).push(hex_digit((c as u32 % 16) as int))
    } else {
        seq![c]
    }
}

/// How a text is written between quotes.
pub open spec fn escaped(s: Seq<char>) -> Seq<char>
    decreases s.len(),
{
    if s.len() == 0 {
        seq![]
    } else {
        escaped(s.drop_last()) + escaped_char(s.last())
    }
}

/// How a text is written between the quotes of a JSON string.
pub fn fix_json_escape(value: &str) -> (r: String)
    ensures
        r@ == escaped(value@),
{
    let chars = chars_of(value);
    let mut out = String::new();
    let mut i: usize = 0;
    assert(chars@.take(0) =~= seq![]);
    assert(out@ =~= seq![]);
    while i < chars.len()
        invariant
            i <= chars@.len(),
            out@ == escaped(chars@.take(i as int)),
        decreases chars@.len() - i,
    {
        let c = chars[i];
        let ghost before = out@;
        assert(chars@.take(i + 1).drop_last() =~= chars@.take(i as int));
        if c == '"' {
            out.append("\\\"");
        } else if c == '\\' {
            out.append("\\\\");
        } else if c == '\n' {
            out.append("\\n");
        } else if c == '\r' {
            out.append("\\r");
        } else if c == '\t' {
            out.append("\\t");
        } else if is_control(c) {
            out.append("\\u00");
            out.push(hex(c as u32 / 16));
            out.push(hex(c as u32 % 16));
        } else {
            out.push(c);
        }
        assert(out@ =~= before + escaped_char(c));
        i += 1;
    }
    assert(chars@.take(i as int) =~= value@);
    out
}

pub open spec fn level_word(level: Level) -> Seq<char> {
    match level {
        Level::Error => "error"@,
        Level::Warning => "warning"@,
    }
}

/// A diagnostic as JSON.
pub open spec fn diagnostic_json(d: Diagnostic, files: Seq<FileModel>) -> Seq<char> {
    "{\"code\":\""@ + d.code.as_str()@ + "\",\"level\":\""@ + level_word(d.level)
        + "\",\"file\":\""@ + escaped(path_of(d, files)) + "\",\"message\":\""@ + escaped(
        d.message@,
    ) + "\"}"@
}

/// The path of a file, or the empty text.
pub open spec fn path_text(id: FileId, files: Seq<FileModel>) -> Seq<char> {
    if id.0 < files.len() {
        files[id.0 as int].0
    } else {
        seq![]
    }
}

/// An edit as JSON.
pub open spec fn edit_json(e: TextEdit, files: Seq<FileModel>) -> Seq<char> {
    "{\"code\":\""@ + e.diagnostic_code.as_str()@ + "\",\"file\":\""@ + escaped(
        path_text(e.file_id, files),
    ) + "\",\"start_byte\":"@ + decimal(e.range.start_byte as nat) + ",\"end_byte\":"@ + decimal(
        e.range.end_byte as nat,
    ) + ",\"replacement\":\""@ + escaped(e.replacement@) + "\",\"applicability\":\""@
        + e.applicability.as_str()@ + "\",\"solution_id\":"@ + (match e.solution_id {
        Some(id) => decimal(id as nat),
        None => "null"@,
    }) + "}"@
}

/// The first `n` texts, joined by commas.
pub open spec fn comma_separated(items: Seq<Seq<char>>, n: int) -> Seq<char>
    decreases n,
{
    if n <= 0 || n > items.len() {
        seq![]
    } else {
        comma_separated(items, n - 1) + (if n > 1 {
            ","@
        } else {
            seq![]
        }) + items[n - 1]
    }
}

/// The diagnostics as JSON.
pub open spec fn diagnostics_json(ds: Seq<Diagnostic>, files: Seq<FileModel>) -> Seq<char> {
    comma_separated(
        Seq::new(ds.len(), |i: int| diagnostic_json(ds[i], files)),
        ds.len() as int,
    )
}

/// The edits as JSON.
pub open spec fn edits_json(es: Seq<TextEdit>, files: Seq<FileModel>) -> Seq<char> {
    comma_separated(Seq::new(es.len(), |i: int| edit_json(es[i], files)), es.len() as int)
}

/// The paths of the first `n` files that are registered, quoted.
pub open spec fn quoted_paths(ids: Seq<FileId>, files: Seq<FileModel>, n: int) -> Seq<Seq<char>>
    decreases n,
{
    if n <= 0 || n > ids.len() {
        seq![]
    } else if ids[n - 1].0 < files.len() {
        quoted_paths(ids, files, n - 1).push(
            "\""@ + escaped(files[ids[n - 1].0 as int].0) + "\""@,
        )
    } else {
        quoted_paths(ids, files, n - 1)
    }
}

pub open spec fn truth(b: bool) -> Seq<char> {
    if b {
        "true"@
    } else {
        "false"@
    }
}

/// The result of fixing, as JSON.
pub open spec fn fix_json_text(
    status: Seq<char>,
    dry_run: bool,
    diagnostics: Seq<Diagnostic>,
    edits: Seq<TextEdit>,
    changed: Seq<FileId>,
    files: Seq<FileModel>,
    error: Option<Seq<char>>,
    truncated: nat,
) -> Seq<char> {
    let paths = quoted_paths(changed, files, changed.len() as int);
    "{\"status\":\""@ + status + "\",\"dry_run\":"@ + truth(dry_run) + ",\"diagnostics\":["@
        + diagnostics_json(diagnostics, files) + "],\"edits\":["@ + edits_json(edits, files)
        + "],\"changed_files\":["@ + comma_separated(paths, paths.len() as int)
        + "],\"truncated_count\":"@ + decimal(truncated) + ",\"error\":"@ + (match error {
        Some(e) => "\""@ + escaped(e) + "\""@,
        None => "null"@,
    }) + "}\n"@
}

fn quoted(text: &str) -> (r: String)
    ensures
        r@ == "\""@ + escaped(text@) + "\""@,
{
    let mut out = cat("\"", fix_json_escape(text).as_str());
    out.append("\"");
    out
}

fn diagnostic_text(d: &Diagnostic, files: &Files) -> (r: String)
    ensures
        r@ == diagnostic_json(*d, files@),
{
    let path = match d.file_id {
        Some(id) => match files.path(id) {
            Some(path) => path,
            None => "",
        },
        None => "",
    };
    proof {
        reveal_strlit("");
        assert(path@ =~= path_of(*d, files@));
    }
    let mut out = cat("{\"code\":\"", d.code.as_str());
    out.append("\",\"level\":\"");
    out.append(
        match d.level {
            Level::Error => "error",
            Level::Warning => "warning",
        },
    );
    out.append("\",\"file\":\"");
    out.append(fix_json_escape(path).as_str());
    out.append("\",\"message\":\"");
    out.append(fix_json_escape(d.message.as_str()).as_str());
    out.append("\"}");
    out
}

fn edit_text(e: &TextEdit, files: &Files) -> (r: String)
    ensures
        r@ == edit_json(*e, files@),
{
    let path = match files.path(e.file_id) {
        Some(path) => path,
        None => "",
    };
    proof {
        reveal_strlit("");
        assert(path@ =~= path_text(e.file_id, files@));
    }
    let mut out = cat("{\"code\":\"", e.diagnostic_code.as_str());
    out.append("\",\"file\":\"");
    out.append(fix_json_escape(path).as_str());
    out.append("\",\"start_byte\":");
    out.append(decimal_string(e.range.start_byte).as_str());
    out.append(",\"end_byte\":");
    out.append(decimal_string(e.range.end_byte).as_str());
    out.append(",\"replacement\":\"");
    out.append(fix_json_escape(e.replacement.as_str()).as_str());
    out.append("\",\"applicability\":\"");
    out.append(e.applicability.as_str());
    out.append("\",\"solution_id\":");
    match e.solution_id {
        Some(id) => {
            push_decimal(&mut out, id as u64);
        },
        None => {
            out.append("null");
        },
    }
    out.append("}");
    out
}

/// The result of fixing as JSON, with the number of diagnostics left out.
pub fn fix_json_with_truncation(
    status: &str,
    dry_run: bool,
    diagnostics: &[Diagnostic],
    edits: &[TextEdit],
    changed_files: &[FileId],
    files: &Files,
    error: Option<&str>,
    truncated_count: usize,
) -> (r: String)
    ensures
        r@ == fix_json_text(
            status@,
            dry_run,
            diagnostics@,
            edits@,
            changed_files@,
            files@,
            match error {
                Some(e) => Some(e@),
                None => None,
            },
            truncated_count as nat,
        ),
{
    let ghost ds = Seq::new(diagnostics@.len(), |i: int| diagnostic_json(diagnostics@[i], files@));
    let ghost es = Seq::new(edits@.len(), |i: int| edit_json(edits@[i], files@));
    let mut ds_text = String::new();
    let mut i: usize = 0;
    assert(ds_text@ =~= seq![]);
    while i < diagnostics.len()
        invariant
            i <= diagnostics@.len(),
            ds == Seq::new(
                diagnostics@.len(),
                |i: int| diagnostic_json(diagnostics@[i], files@),
            ),
            ds_text@ == comma_separated(ds, i as int),
        decreases diagnostics@.len() - i,
    {
        let ghost before = ds_text@;
        if i > 0 {
            ds_text.append(",");
        }
        ds_text.append(diagnostic_text(&diagnostics[i], files).as_str());
        assert(ds_text@ =~= comma_separated(ds, i + 1));
        i += 1;
    }
    let mut es_text = String::new();
    let mut j: usize = 0;
    assert(es_text@ =~= seq![]);
    while j < edits.len()
        invariant
            j <= edits@.len(),
            es == Seq::new(edits@.len(), |i: int| edit_json(edits@[i], files@)),
            es_text@ == comma_separated(es, j as int),
        decreases edits@.len() - j,
    {
        if j > 0 {
            es_text.append(",");
        }
        es_text.append(edit_text(&edits[j], files).as_str());
        assert(es_text@ =~= comma_separated(es, j + 1));
        j += 1;
    }
    let mut paths_text = String::new();
    let mut any = false;
    let mut k: usize = 0;
    assert(paths_text@ =~= seq![]);
    while k < changed_files.len()
        invariant
            k <= changed_files@.len(),
            ({
                let paths = quoted_paths(changed_files@, files@, k as int);
                &&& paths_text@ == comma_separated(paths, paths.len() as int)
                &&& any == (paths.len() > 0)
            }),
        decreases changed_files@.len() - k,
    {
        let ghost paths = quoted_paths(changed_files@, files@, k as int);
        match files.path(changed_files[k]) {
            Some(path) => {
                let text = quoted(path);
                if any {
                    paths_text.append(",");
                }
                paths_text.append(text.as_str());
                any = true;
                proof {
                    let more = paths.push(text@);
                    assert(more == quoted_paths(changed_files@, files@, k + 1));
                    comma_front(paths, text@, paths.len() as int);
                    assert(paths_text@ =~= comma_separated(more, more.len() as int));
                }
            },
            None => {},
        }
        k += 1;
    }
    let mut out = cat("{\"status\":\"", status);
    out.append("\",\"dry_run\":");
    out.append(if dry_run { "true" } else { "false" });
    out.append(",\"diagnostics\":[");
    out.append(ds_text.as_str());
    out.append("],\"edits\":[");
    out.append(es_text.as_str());
    out.append("],\"changed_files\":[");
    out.append(paths_text.as_str());
    out.append("],\"truncated_count\":");
    out.append(decimal_string(truncated_count).as_str());
    out.append(",\"error\":");
    match error {
        Some(e) => {
            out.append(quoted(e).as_str());
        },
        None => {
            out.append("null");
        },
    }
    out.append("}\n");
    out
}

proof fn comma_front(items: Seq<Seq<char>>, last: Seq<char>, n: int)
    requires
        0 <= n <= items.len(),
    ensures
        comma_separated(items.push(last), n) == comma_separated(items, n),
    decreases n,
{
    if n > 0 {
        comma_front(items, last, n - 1);
    }
}

/// The result of fixing as JSON.
pub fn fix_json(
    status: &str,
    dry_run: bool,
    diagnostics: &[Diagnostic],
    edits: &[TextEdit],
    changed_files: &[FileId],
    files: &Files,
    error: Option<&str>,
) -> (r: String)
    ensures
        r@ == fix_json_text(
            status@,
            dry_run,
            diagnostics@,
            edits@,
            changed_files@,
            files@,
            match error {
                Some(e) => Some(e@),
                None => None,
            },
            0,
        ),
{
    fix_json_with_truncation(
        status,
        dry_run,
        diagnostics,
        edits,
        changed_files,
        files,
        error,
        0,
    )
}

proof fn escaped_char_is_plain(c: char)
    ensures
        forall|i: int|
            0 <= i < escaped_char(c).len() ==> (#[trigger] escaped_char(c)[i]) as u32 >= 0x20,
        escaped_char(c).len() == 1 ==> escaped_char(c)[0] != '"' && escaped_char(c)[0] != '\\',
        escaped_char(c).len() > 0,
        escaped_char(c).len() > 1 ==> escaped_char(c)[0] == '\\',
{
    reveal_strlit("\\\"");
    reveal_strlit("\\\\");
    reveal_strlit("\\n");
    reveal_strlit("\\r");
    reveal_strlit("\\t");
    reveal_strlit("\\u00");
}

/// An escaped text holds no character that a JSON string could not hold as it
/// is: no control character below the space.
pub proof fn escaped_has_no_controls(s: Seq<char>)
    ensures
        forall|i: int| 0 <= i < escaped(s).len() ==> (#[trigger] escaped(s)[i]) as u32 >= 0x20,
    decreases s.len(),
{
    if s.len() > 0 {
        let front = escaped(s.drop_last());
        let last = escaped_char(s.last());
        escaped_has_no_controls(s.drop_last());
        escaped_char_is_plain(s.last());
        assert(escaped(s) == front + last);
        assert forall|i: int| 0 <= i < escaped(s).len() implies (#[trigger] escaped(s)[i]) as u32
            >= 0x20 by {
            if i < front.len() {
                assert(escaped(s)[i] == front[i]);
            } else {
                assert(escaped(s)[i] == last[i - front.len()]);
            }
        }
    }
}

/// The value of a hexadecimal digit.
pub open spec fn hex_value(c: char) -> Option<int> {
    if '0' <= c <= '9' {
        Some(c as u32 - 48)
    } else if 'a' <= c <= 'f' {
        Some(c as u32 - 87)
    } else {
        None
    }
}

/// The first character that a text between quotes stands for, and how many
/// characters it is written with.
pub open spec fn read_char(t: Seq<char>) -> Option<(char, int)> {
    if t.len() == 0 {
        None
    } else if t[0] != '\\' {
        Some((t[0], 1))
    } else if t.len() < 2 {
        None
    } else if t[1] == '"' || t[1] == '\\' {
        Some((t[1], 2))
    } else if t[1] == 'n' {
        Some(('\n', 2))
    } else if t[1] == 'r' {
        Some(('\r', 2))
    } else if t[1] == 't' {
        Some(('\t', 2))
    } else if t[1] == 'u' && t.len() >= 6 && t[2] == '0' && t[3] == '0' {
        match (hex_value(t[4]), hex_value(t[5])) {
            (Some(h), Some(l)) => Some((((16 * h + l) as u8) as char, 6)),
            _ => None,
        }
    } else {
        None
    }
}

/// What a text between quotes stands for.
pub open spec fn unescaped(t: Seq<char>) -> Option<Seq<char>>
    decreases t.len(),
{
    if t.len() == 0 {
        Some(seq![])
    } else {
        match read_char(t) {
            None => None,
            Some((c, n)) => if 0 < n <= t.len() {
                match unescaped(t.skip(n)) {
                    Some(rest) => Some(seq![c] + rest),
                    None => None,
                }
            } else {
                None
            },
        }
    }
}

proof fn hex_reads_back(d: u32)
    requires
        d < 16,
    ensures
        hex_value(hex_digit(d as int)) == Some(d as int),
{
}

proof fn char_reads_back(c: char, rest: Seq<char>)
    ensures
        read_char(escaped_char(c) + rest) == Some((c, escaped_char(c).len() as int)),
{
    reveal_strlit("\\\"");
    reveal_strlit("\\\\");
    reveal_strlit("\\n");
    reveal_strlit("\\r");
    reveal_strlit("\\t");
    reveal_strlit("\\u00");
    let t = escaped_char(c) + rest;
    if c != '"' && c != '\\' && c != '\n' && c != '\r' && c != '\t' && is_control_spec(c) {
        let high = c as u32 / 16;
        let low = c as u32 % 16;
        hex_reads_back(high);
        hex_reads_back(low);
        assert(t[4] == hex_digit(high as int));
        assert(t[5] == hex_digit(low as int));
        assert(16 * high + low == c as u32);
    }
}

proof fn escaped_splits_first(c: char, rest: Seq<char>)
    ensures
        escaped(seq![c] + rest) == escaped_char(c) + escaped(rest),
    decreases rest.len(),
{
    let s = seq![c] + rest;
    if rest.len() == 0 {
        assert(s.drop_last() =~= Seq::<char>::empty());
        assert(escaped(Seq::<char>::empty()) =~= Seq::<char>::empty());
        assert(rest =~= Seq::<char>::empty());
        assert(s.last() == c);
        assert(escaped(s) =~= escaped_char(c) + escaped(rest));
    } else {
        assert(s.drop_last() =~= seq![c] + rest.drop_last());
        escaped_splits_first(c, rest.drop_last());
        assert(escaped(s) =~= escaped_char(c) + escaped(rest));
    }
}

/// Reading an escaped text back gives the text.
pub proof fn escaping_reads_back(s: Seq<char>)
    ensures
        unescaped(escaped(s)) == Some(s),
    decreases s.len(),
{
    if s.len() > 0 {
        let rest = s.drop_first();
        assert(s =~= seq![s[0]] + rest);
        escaped_splits_first(s[0], rest);
        escaping_reads_back(rest);
        let t = escaped(s);
        char_reads_back(s[0], escaped(rest));
        escaped_char_is_plain(s[0]);
        assert(t.skip(escaped_char(s[0]).len() as int) =~= escaped(rest));
    }
}

} // verus!
