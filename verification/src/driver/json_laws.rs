//! What a result in JSON says.

use crate::diagnostic::edit::{Applicability, TextEdit};
use crate::diagnostic::files::{FileId, FileModel};
use crate::diagnostic::order::path_of;
use crate::diagnostic::report::{Diagnostic, Level};
use crate::driver::json::{
    comma_separated, diagnostic_json, diagnostics_json, edit_json, edits_json, escaped,
    fix_json_text, quoted_paths,
};
use crate::table::joined;
use crate::text::decimal;
use vstd::prelude::*;

verus! {

/// Texts behind each other, grouped from the left.
broadcast proof fn grouped_from_the_left(a: Seq<char>, b: Seq<char>, c: Seq<char>)
    ensures
        #[trigger] (a + (b + c)) == (a + b) + c,
{
    assert(a + (b + c) =~= (a + b) + c);
}

/// A text as a value.
pub open spec fn string(s: Seq<char>) -> Seq<char> {
    "\""@ + escaped(s) + "\""@
}

/// A word without anything to escape as a value.
pub open spec fn word(s: Seq<char>) -> Seq<char> {
    "\""@ + s + "\""@
}

/// A value under a name.
pub open spec fn member(name: Seq<char>, value: Seq<char>) -> Seq<char> {
    "\""@ + name + "\":"@ + value
}

/// Members in braces, with commas between them.
pub open spec fn object(members: Seq<Seq<char>>) -> Seq<char> {
    "{"@ + joined(members, ","@) + "}"@
}

/// Values in brackets, with commas between them.
pub open spec fn array(values: Seq<Seq<char>>) -> Seq<char> {
    "["@ + joined(values, ","@) + "]"@
}

proof fn joined_is_comma_separated(v: Seq<Seq<char>>, n: int)
    requires
        0 <= n <= v.len(),
    ensures
        comma_separated(v, n) == joined(v.take(n), ","@),
    decreases n,
{
    if n > 0 {
        joined_is_comma_separated(v, n - 1);
        assert(v.take(n).drop_last() =~= v.take(n - 1));
        assert(v.take(n).last() == v[n - 1]);
        if n == 1 {
            assert(comma_separated(v, 0) =~= seq![]);
            assert(comma_separated(v, 1) =~= v[0]);
            assert(v.take(1)[0] == v[0]);
        }
    } else {
        assert(v.take(0) =~= seq![]);
    }
}

proof fn signs()
    ensures
        "{\"code\":\""@ == "{"@ + ("\""@ + "code"@ + "\":"@) + "\""@,
        "\",\"level\":\""@ == "\""@ + ","@ + ("\""@ + "level"@ + "\":"@) + "\""@,
        "\",\"file\":\""@ == "\""@ + ","@ + ("\""@ + "file"@ + "\":"@) + "\""@,
        "\",\"message\":\""@ == "\""@ + ","@ + ("\""@ + "message"@ + "\":"@) + "\""@,
        "\"}"@ == "\""@ + "}"@,
        "\",\"start_byte\":"@ == "\""@ + ","@ + ("\""@ + "start_byte"@ + "\":"@),
        ",\"end_byte\":"@ == ","@ + ("\""@ + "end_byte"@ + "\":"@),
        ",\"replacement\":\""@ == ","@ + ("\""@ + "replacement"@ + "\":"@) + "\""@,
        "\",\"applicability\":\""@ == "\""@ + ","@ + ("\""@ + "applicability"@ + "\":"@) + "\""@,
        "\",\"solution_id\":"@ == "\""@ + ","@ + ("\""@ + "solution_id"@ + "\":"@),
{
    reveal_strlit("{");
    reveal_strlit("}");
    reveal_strlit("\"");
    reveal_strlit("\":");
    reveal_strlit(",");
    reveal_strlit("code");
    reveal_strlit("level");
    reveal_strlit("file");
    reveal_strlit("message");
    reveal_strlit("start_byte");
    reveal_strlit("end_byte");
    reveal_strlit("replacement");
    reveal_strlit("applicability");
    reveal_strlit("solution_id");
    reveal_strlit("{\"code\":\"");
    reveal_strlit("\",\"level\":\"");
    reveal_strlit("\",\"file\":\"");
    reveal_strlit("\",\"message\":\"");
    reveal_strlit("\"}");
    reveal_strlit("\",\"start_byte\":");
    reveal_strlit(",\"end_byte\":");
    reveal_strlit(",\"replacement\":\"");
    reveal_strlit("\",\"applicability\":\"");
    reveal_strlit("\",\"solution_id\":");
    assert("{\"code\":\""@ =~= "{"@ + ("\""@ + "code"@ + "\":"@) + "\""@);
    assert("\",\"level\":\""@ =~= "\""@ + ","@ + ("\""@ + "level"@ + "\":"@) + "\""@);
    assert("\",\"file\":\""@ =~= "\""@ + ","@ + ("\""@ + "file"@ + "\":"@) + "\""@);
    assert("\",\"message\":\""@ =~= "\""@ + ","@ + ("\""@ + "message"@ + "\":"@) + "\""@);
    assert("\"}"@ =~= "\""@ + "}"@);
    assert("\",\"start_byte\":"@ =~= "\""@ + ","@ + ("\""@ + "start_byte"@ + "\":"@));
    assert(",\"end_byte\":"@ =~= ","@ + ("\""@ + "end_byte"@ + "\":"@));
    assert(",\"replacement\":\""@ =~= ","@ + ("\""@ + "replacement"@ + "\":"@) + "\""@);
    assert("\",\"applicability\":\""@ =~= "\""@ + ","@ + ("\""@ + "applicability"@ + "\":"@)
        + "\""@);
    assert("\",\"solution_id\":"@ =~= "\""@ + ","@ + ("\""@ + "solution_id"@ + "\":"@));
}

proof fn four_joined(a: Seq<char>, b: Seq<char>, c: Seq<char>, d: Seq<char>)
    ensures
        joined(seq![a, b, c, d], ","@) == a + ","@ + b + ","@ + c + ","@ + d,
{
    let v = seq![a, b, c, d];
    assert(v.drop_last() =~= seq![a, b, c]);
    assert(seq![a, b, c].drop_last() =~= seq![a, b]);
    assert(seq![a, b].drop_last() =~= seq![a]);
    reveal_with_fuel(joined, 4);
}

proof fn three_more_joined(v: Seq<Seq<char>>, a: Seq<char>, b: Seq<char>, c: Seq<char>)
    requires
        v.len() > 0,
    ensures
        joined(v + seq![a, b, c], ","@) == joined(v, ","@) + ","@ + a + ","@ + b + ","@ + c,
{
    let w = v + seq![a, b, c];
    assert(w.drop_last() =~= v + seq![a, b]);
    assert((v + seq![a, b]).drop_last() =~= v + seq![a]);
    assert((v + seq![a]).drop_last() =~= v);
    assert(w.last() == c);
    assert((v + seq![a, b]).last() == b);
    assert((v + seq![a]).last() == a);
    reveal_with_fuel(joined, 4);
}

/// A member whose text value is still open: its last quote is missing.
spec fn opened(name: Seq<char>, inner: Seq<char>) -> Seq<char> {
    "\""@ + name + "\":"@ + "\""@ + inner
}

/// A text value is closed, and another text value opened.
proof fn text_then_text(
    x: Seq<char>,
    name: Seq<char>,
    inner: Seq<char>,
    lit: Seq<char>,
    next: Seq<char>,
    text: Seq<char>,
)
    requires
        lit == "\""@ + ","@ + ("\""@ + next + "\":"@) + "\""@,
    ensures
        x + opened(name, inner) + lit + text == x + member(name, word(inner)) + ","@ + opened(
            next,
            text,
        ),
{
    broadcast use grouped_from_the_left;

}

/// A text value is closed, and a plain value follows.
proof fn text_then_plain(
    x: Seq<char>,
    name: Seq<char>,
    inner: Seq<char>,
    lit: Seq<char>,
    next: Seq<char>,
    value: Seq<char>,
)
    requires
        lit == "\""@ + ","@ + ("\""@ + next + "\":"@),
    ensures
        x + opened(name, inner) + lit + value == x + member(name, word(inner)) + ","@ + member(
            next,
            value,
        ),
{
    broadcast use grouped_from_the_left;

}

/// A plain value follows.
proof fn plain_then_plain(x: Seq<char>, lit: Seq<char>, next: Seq<char>, value: Seq<char>)
    requires
        lit == ","@ + ("\""@ + next + "\":"@),
    ensures
        x + lit + value == x + ","@ + member(next, value),
{
    broadcast use grouped_from_the_left;

}

/// A text value is opened.
proof fn plain_then_text(x: Seq<char>, lit: Seq<char>, next: Seq<char>, text: Seq<char>)
    requires
        lit == ","@ + ("\""@ + next + "\":"@) + "\""@,
    ensures
        x + lit + text == x + ","@ + opened(next, text),
{
    broadcast use grouped_from_the_left;

}

/// A list is opened behind a plain value.
proof fn plain_then_list(x: Seq<char>, lit: Seq<char>, next: Seq<char>, items: Seq<char>)
    requires
        lit == ","@ + ("\""@ + next + "\":"@) + "["@,
    ensures
        x + lit + items + "]"@ == x + ","@ + member(next, "["@ + items + "]"@),
{
    broadcast use grouped_from_the_left;

}

/// A list is closed and something else follows.
proof fn list_closes(x: Seq<char>, lit: Seq<char>, rest: Seq<char>)
    requires
        lit == "]"@ + rest,
    ensures
        x + lit == x + "]"@ + rest,
{
    grouped_from_the_left(x, "]"@, rest);
}

/// Seven members, in braces.
proof fn seven_in_braces(
    a: Seq<char>,
    b: Seq<char>,
    c: Seq<char>,
    d: Seq<char>,
    e: Seq<char>,
    f: Seq<char>,
    g: Seq<char>,
)
    ensures
        "{"@ + a + ","@ + b + ","@ + c + ","@ + d + ","@ + e + ","@ + f + ","@ + g + "}"@ == object(
            seq![a, b, c, d] + seq![e, f, g],
        ),
{
    broadcast use grouped_from_the_left;

    four_joined(a, b, c, d);
    three_more_joined(seq![a, b, c, d], e, f, g);
}

/// A diagnostic is an object of its code, its level, its file and its message.
pub proof fn diagnostic_in_json(d: Diagnostic, files: Seq<FileModel>)
    ensures
        diagnostic_json(d, files) == object(
            seq![
                member("code"@, word(d.code.as_str()@)),
                member(
                    "level"@,
                    word(
                        if d.level == Level::Error {
                            "error"@
                        } else {
                            "warning"@
                        },
                    ),
                ),
                member("file"@, string(path_of(d, files))),
                member("message"@, string(d.message@)),
            ],
        ),
{
    broadcast use grouped_from_the_left;

    let level = if d.level == Level::Error {
        "error"@
    } else {
        "warning"@
    };
    signs();
    four_joined(
        member("code"@, word(d.code.as_str()@)),
        member("level"@, word(level)),
        member("file"@, string(path_of(d, files))),
        member("message"@, string(d.message@)),
    );
    assert(crate::driver::json::level_word(d.level) == level);
    assert(diagnostic_json(d, files) == "{"@ + (member("code"@, word(d.code.as_str()@)) + ","@
        + member("level"@, word(level)) + ","@ + member("file"@, string(path_of(d, files))) + ","@
        + member("message"@, string(d.message@))) + "}"@);
}

/// The code that an edit belongs to, its file, the byte that it starts at, the
/// one that it ends in front of, what it puts in, how safe it is, and which
/// solution it is part of.
pub open spec fn edit_members(e: TextEdit, files: Seq<FileModel>) -> Seq<Seq<char>> {
    let solution = match e.solution_id {
        Some(id) => decimal(id as nat),
        None => "null"@,
    };
    seq![
        member("code"@, word(e.diagnostic_code.as_str()@)),
        member("file"@, string(files[e.file_id.0 as int].0)),
        member("start_byte"@, decimal(e.range.start_byte as nat)),
        member("end_byte"@, decimal(e.range.end_byte as nat)),
    ] + seq![
        member("replacement"@, string(e.replacement@)),
        member("applicability"@, word(e.applicability.as_str()@)),
        member("solution_id"@, solution),
    ]
}

/// An edit is an object of its members.
pub proof fn edit_in_json(e: TextEdit, files: Seq<FileModel>)
    requires
        e.file_id.0 < files.len(),
    ensures
        edit_json(e, files) == object(edit_members(e, files)),
{
    let code = member("code"@, word(e.diagnostic_code.as_str()@));
    let file = member("file"@, string(files[e.file_id.0 as int].0));
    let start = member("start_byte"@, decimal(e.range.start_byte as nat));
    let end = member("end_byte"@, decimal(e.range.end_byte as nat));
    let text = member("replacement"@, string(e.replacement@));
    let safety = member("applicability"@, word(e.applicability.as_str()@));
    let id = match e.solution_id {
        Some(id) => decimal(id as nat),
        None => "null"@,
    };
    let solution = member("solution_id"@, id);
    signs();
    let c = e.diagnostic_code.as_str()@;
    let path = escaped(files[e.file_id.0 as int].0);
    let x0 = "{\"code\":\""@ + c;
    assert(x0 == "{"@ + opened("code"@, c)) by {
        broadcast use grouped_from_the_left;

    }
    text_then_text("{"@, "code"@, c, "\",\"file\":\""@, "file"@, path);
    let y1 = "{"@ + code + ","@;
    let x1 = x0 + "\",\"file\":\""@ + path;
    assert(x1 == y1 + opened("file"@, path));
    let from = decimal(e.range.start_byte as nat);
    text_then_plain(y1, "file"@, path, "\",\"start_byte\":"@, "start_byte"@, from);
    let x2 = x1 + "\",\"start_byte\":"@ + from;
    let y2 = y1 + file + ","@ + start;
    assert(x2 == y2);
    let to = decimal(e.range.end_byte as nat);
    plain_then_plain(y2, ",\"end_byte\":"@, "end_byte"@, to);
    let x3 = x2 + ",\"end_byte\":"@ + to;
    let y3 = y2 + ","@ + end;
    assert(x3 == y3);
    let new_text = escaped(e.replacement@);
    plain_then_text(y3, ",\"replacement\":\""@, "replacement"@, new_text);
    let x4 = x3 + ",\"replacement\":\""@ + new_text;
    let y4 = y3 + ","@;
    assert(x4 == y4 + opened("replacement"@, new_text));
    let degree = e.applicability.as_str()@;
    text_then_text(
        y4,
        "replacement"@,
        new_text,
        "\",\"applicability\":\""@,
        "applicability"@,
        degree,
    );
    let x5 = x4 + "\",\"applicability\":\""@ + degree;
    let y5 = y4 + text + ","@;
    assert(x5 == y5 + opened("applicability"@, degree));
    text_then_plain(y5, "applicability"@, degree, "\",\"solution_id\":"@, "solution_id"@, id);
    let x6 = x5 + "\",\"solution_id\":"@ + id;
    assert(x6 == y5 + safety + ","@ + solution);
    assert(edit_json(e, files) == x6 + "}"@);
    seven_in_braces(code, file, start, end, text, safety, solution);
    let all = "{"@ + code + ","@ + file + ","@ + start + ","@ + end + ","@ + text + ","@ + safety
        + ","@ + solution + "}"@;
    assert(x6 + "}"@ == all);
    let members = seq![code, file, start, end] + seq![text, safety, solution];
    assert(all == object(members));
    assert(members == edit_members(e, files));
}

/// How safe an edit is has a word for each degree.
pub proof fn degrees_of_safety(a: Applicability)
    ensures
        a == Applicability::MachineApplicable <==> a.as_str()@ == "machine-applicable"@,
        a == Applicability::MaybeIncorrect <==> a.as_str()@ == "maybe-incorrect"@,
        a == Applicability::HasPlaceholders <==> a.as_str()@ == "has-placeholders"@,
        a == Applicability::Unspecified <==> a.as_str()@ == "unspecified"@,
{
    reveal_strlit("machine-applicable");
    reveal_strlit("maybe-incorrect");
    reveal_strlit("has-placeholders");
    reveal_strlit("unspecified");
    assert("machine-applicable"@.len() == 18);
    assert("maybe-incorrect"@.len() == 15);
    assert("has-placeholders"@.len() == 16);
    assert("unspecified"@.len() == 11);
}

/// A result lists all diagnostics and all edits, each in its order.
pub proof fn result_lists_everything(
    ds: Seq<Diagnostic>,
    es: Seq<TextEdit>,
    files: Seq<FileModel>,
)
    ensures
        "["@ + diagnostics_json(ds, files) + "]"@ == array(
            Seq::new(ds.len(), |i: int| diagnostic_json(ds[i], files)),
        ),
        "["@ + edits_json(es, files) + "]"@ == array(
            Seq::new(es.len(), |i: int| edit_json(es[i], files)),
        ),
{
    let a = Seq::new(ds.len(), |i: int| diagnostic_json(ds[i], files));
    let b = Seq::new(es.len(), |i: int| edit_json(es[i], files));
    joined_is_comma_separated(a, ds.len() as int);
    joined_is_comma_separated(b, es.len() as int);
    assert(a.take(ds.len() as int) =~= a);
    assert(b.take(es.len() as int) =~= b);
}

/// How fixing went, whether it was only tried, what was found, what was changed
/// and where, how much is not listed, and what went wrong.
pub open spec fn result_members(
    status: Seq<char>,
    dry_run: bool,
    ds: Seq<Diagnostic>,
    es: Seq<TextEdit>,
    changed: Seq<FileId>,
    files: Seq<FileModel>,
    error: Option<Seq<char>>,
    truncated: nat,
) -> Seq<Seq<char>> {
    let tried = if dry_run {
        "true"@
    } else {
        "false"@
    };
    let wrong = match error {
        Some(e) => string(e),
        None => "null"@,
    };
    seq![
        member("status"@, word(status)),
        member("dry_run"@, tried),
        member("diagnostics"@, "["@ + diagnostics_json(ds, files) + "]"@),
        member("edits"@, "["@ + edits_json(es, files) + "]"@),
    ] + seq![
        member("changed_files"@, array(quoted_paths(changed, files, changed.len() as int))),
        member("truncated_count"@, decimal(truncated)),
        member("error"@, wrong),
    ]
}

/// A result is an object of its members, on a line of its own.
pub proof fn result_in_json(
    status: Seq<char>,
    dry_run: bool,
    ds: Seq<Diagnostic>,
    es: Seq<TextEdit>,
    changed: Seq<FileId>,
    files: Seq<FileModel>,
    error: Option<Seq<char>>,
    truncated: nat,
)
    ensures
        fix_json_text(status, dry_run, ds, es, changed, files, error, truncated) == object(
            result_members(status, dry_run, ds, es, changed, files, error, truncated),
        ) + "\n"@,
{
    let paths = quoted_paths(changed, files, changed.len() as int);
    let tried = if dry_run {
        "true"@
    } else {
        "false"@
    };
    let wrong = match error {
        Some(e) => string(e),
        None => "null"@,
    };
    let m0 = member("status"@, word(status));
    let m1 = member("dry_run"@, tried);
    let m2 = member("diagnostics"@, "["@ + diagnostics_json(ds, files) + "]"@);
    let m3 = member("edits"@, "["@ + edits_json(es, files) + "]"@);
    let m4 = member("changed_files"@, array(paths));
    let m5 = member("truncated_count"@, decimal(truncated));
    let m6 = member("error"@, wrong);
    more_signs();
    joined_is_comma_separated(paths, paths.len() as int);
    assert(paths.take(paths.len() as int) =~= paths);
    let x0 = "{\"status\":\""@ + status;
    assert(x0 == "{"@ + opened("status"@, status)) by {
        broadcast use grouped_from_the_left;

    }
    text_then_plain("{"@, "status"@, status, "\",\"dry_run\":"@, "dry_run"@, tried);
    let x1 = x0 + "\",\"dry_run\":"@ + tried;
    let y1 = "{"@ + m0 + ","@ + m1;
    assert(x1 == y1);
    let found = diagnostics_json(ds, files);
    let made = edits_json(es, files);
    let listed = comma_separated(paths, paths.len() as int);
    plain_then_list(y1, ",\"diagnostics\":["@, "diagnostics"@, found);
    let y2 = y1 + ","@ + m2;
    plain_then_list(y2, ",\"edits\":["@, "edits"@, made);
    let y3 = y2 + ","@ + m3;
    plain_then_list(y3, ",\"changed_files\":["@, "changed_files"@, listed);
    let y4 = y3 + ","@ + m4;
    list_closes(x1 + ",\"diagnostics\":["@ + found, "],\"edits\":["@, ",\"edits\":["@);
    let x2 = x1 + ",\"diagnostics\":["@ + found + "],\"edits\":["@ + made;
    assert(x2 + "]"@ == y3);
    list_closes(x2, "],\"changed_files\":["@, ",\"changed_files\":["@);
    let x3 = x2 + "],\"changed_files\":["@ + listed;
    assert(x3 + "]"@ == y4);
    list_closes(x3, "],\"truncated_count\":"@, ",\"truncated_count\":"@);
    plain_then_plain(y4, ",\"truncated_count\":"@, "truncated_count"@, decimal(truncated));
    let x4 = x3 + "],\"truncated_count\":"@ + decimal(truncated);
    let y5 = y4 + ","@ + m5;
    assert(x4 == y5);
    plain_then_plain(y5, ",\"error\":"@, "error"@, wrong);
    let x5 = x4 + ",\"error\":"@ + wrong;
    assert(x5 == y5 + ","@ + m6);
    seven_in_braces(m0, m1, m2, m3, m4, m5, m6);
    assert(fix_json_text(status, dry_run, ds, es, changed, files, error, truncated) == x5 + "}\n"@);
    grouped_from_the_left(x5, "}"@, "\n"@);
    let all = "{"@ + m0 + ","@ + m1 + ","@ + m2 + ","@ + m3 + ","@ + m4 + ","@ + m5 + ","@ + m6
        + "}"@;
    assert(x5 + "}"@ == all);
    let members = seq![m0, m1, m2, m3] + seq![m4, m5, m6];
    assert(all == object(members));
    assert(members == result_members(
        status,
        dry_run,
        ds,
        es,
        changed,
        files,
        error,
        truncated,
    ));
    assert(x5 + "}\n"@ == all + "\n"@);
}

proof fn more_signs()
    ensures
        "{\"status\":\""@ == "{"@ + ("\""@ + "status"@ + "\":"@) + "\""@,
        "\",\"dry_run\":"@ == "\""@ + ","@ + ("\""@ + "dry_run"@ + "\":"@),
        ",\"diagnostics\":["@ == ","@ + ("\""@ + "diagnostics"@ + "\":"@) + "["@,
        "],\"edits\":["@ == "]"@ + ","@ + ("\""@ + "edits"@ + "\":"@) + "["@,
        "],\"changed_files\":["@ == "]"@ + ","@ + ("\""@ + "changed_files"@ + "\":"@) + "["@,
        "],\"truncated_count\":"@ == "]"@ + ","@ + ("\""@ + "truncated_count"@ + "\":"@),
        ",\"error\":"@ == ","@ + ("\""@ + "error"@ + "\":"@),
        "}\n"@ == "}"@ + "\n"@,
        ",\"edits\":["@ == ","@ + ("\""@ + "edits"@ + "\":"@) + "["@,
        ",\"changed_files\":["@ == ","@ + ("\""@ + "changed_files"@ + "\":"@) + "["@,
        ",\"truncated_count\":"@ == ","@ + ("\""@ + "truncated_count"@ + "\":"@),
        "],\"edits\":["@ == "]"@ + ",\"edits\":["@,
        "],\"changed_files\":["@ == "]"@ + ",\"changed_files\":["@,
        "],\"truncated_count\":"@ == "]"@ + ",\"truncated_count\":"@,
{
    reveal_strlit(",\"edits\":[");
    reveal_strlit(",\"changed_files\":[");
    reveal_strlit(",\"truncated_count\":");
    reveal_strlit("{");
    reveal_strlit("}");
    reveal_strlit("[");
    reveal_strlit("]");
    reveal_strlit("\n");
    reveal_strlit("\"");
    reveal_strlit("\":");
    reveal_strlit(",");
    reveal_strlit("status");
    reveal_strlit("dry_run");
    reveal_strlit("diagnostics");
    reveal_strlit("edits");
    reveal_strlit("changed_files");
    reveal_strlit("truncated_count");
    reveal_strlit("error");
    reveal_strlit("{\"status\":\"");
    reveal_strlit("\",\"dry_run\":");
    reveal_strlit(",\"diagnostics\":[");
    reveal_strlit("],\"edits\":[");
    reveal_strlit("],\"changed_files\":[");
    reveal_strlit("],\"truncated_count\":");
    reveal_strlit(",\"error\":");
    reveal_strlit("}\n");
    assert("{\"status\":\""@ =~= "{"@ + ("\""@ + "status"@ + "\":"@) + "\""@);
    assert("\",\"dry_run\":"@ =~= "\""@ + ","@ + ("\""@ + "dry_run"@ + "\":"@));
    assert(",\"diagnostics\":["@ =~= ","@ + ("\""@ + "diagnostics"@ + "\":"@) + "["@);
    assert("],\"edits\":["@ =~= "]"@ + ","@ + ("\""@ + "edits"@ + "\":"@) + "["@);
    assert("],\"changed_files\":["@ =~= "]"@ + ","@ + ("\""@ + "changed_files"@ + "\":"@) + "["@);
    assert("],\"truncated_count\":"@ =~= "]"@ + ","@ + ("\""@ + "truncated_count"@ + "\":"@));
    assert(",\"error\":"@ =~= ","@ + ("\""@ + "error"@ + "\":"@));
    assert("}\n"@ =~= "}"@ + "\n"@);
    assert(",\"edits\":["@ =~= ","@ + ("\""@ + "edits"@ + "\":"@) + "["@);
    assert(",\"changed_files\":["@ =~= ","@ + ("\""@ + "changed_files"@ + "\":"@) + "["@);
    assert(",\"truncated_count\":"@ =~= ","@ + ("\""@ + "truncated_count"@ + "\":"@));
    assert("],\"edits\":["@ =~= "]"@ + ",\"edits\":["@);
    assert("],\"changed_files\":["@ =~= "]"@ + ",\"changed_files\":["@);
    assert("],\"truncated_count\":"@ =~= "]"@ + ",\"truncated_count\":"@);
}

} // verus!
