//! Unified diffs of staged files, and which of them changed.

use crate::diagnostic::files::{FileId, FileModel, Files};
use crate::diagnostic::fix::{AppliedEdits, FixError, StagedFiles};
use crate::lines::{lines, lines_of, split_lines, Line};
use crate::text::{decimal, decimal_string, same};
use vstd::prelude::*;

verus! {

/// One line of a diff.
pub open spec fn diff_line(prefix: char, line: Line) -> Seq<char> {
    seq![prefix] + line.0 + "\n"@ + (if line.1 {
        seq![]
    } else {
        "\\ No newline at end of file\n"@
    })
}

/// The first `n` lines of a text, each with a prefix.
pub open spec fn diff_lines(prefix: char, all: Seq<Line>, n: int) -> Seq<char>
    decreases n,
{
    if n <= 0 || n > all.len() {
        seq![]
    } else {
        diff_lines(prefix, all, n - 1) + diff_line(prefix, all[n - 1])
    }
}

/// The start and length of one side of a hunk.
pub open spec fn hunk_side(count: nat) -> Seq<char> {
    (if count == 0 {
        "0"@
    } else {
        "1"@
    }) + ","@ + decimal(count)
}

/// The diff of one file: one hunk that replaces all lines.
pub open spec fn file_diff(path: Seq<char>, old_text: Seq<char>, new_text: Seq<char>) -> Seq<char> {
    let before = lines(old_text);
    let after = lines(new_text);
    "--- "@ + path + "\n+++ "@ + path + "\n@@ -"@ + hunk_side(before.len()) + " +"@ + hunk_side(
        after.len(),
    ) + " @@\n"@ + diff_lines('-', before, before.len() as int) + diff_lines(
        '+',
        after,
        after.len() as int,
    )
}

/// The diff of the first `n` staged files. Unchanged and unknown files have
/// none.
pub open spec fn diff_of(files: Seq<FileModel>, staged: Seq<(FileId, Seq<char>)>, n: int) -> Seq<char>
    decreases n,
{
    if n <= 0 || n > staged.len() {
        seq![]
    } else {
        let (id, text) = staged[n - 1];
        diff_of(files, staged, n - 1) + (if id.0 < files.len() && files[id.0 as int].1 != text {
            file_diff(files[id.0 as int].0, files[id.0 as int].1, text)
        } else {
            seq![]
        })
    }
}

fn append_diff_line(output: &mut String, prefix: char, line: &str, has_newline: bool)
    ensures
        final(output)@ == old(output)@ + diff_line(prefix, (line@, has_newline)),
{
    output.push(prefix);
    output.append(line);
    output.append("\n");
    if !has_newline {
        output.append("\\ No newline at end of file\n");
    }
    assert(output@ =~= old(output)@ + diff_line(prefix, (line@, has_newline)));
}

fn append_diff_lines(output: &mut String, prefix: char, all: &Vec<(String, bool)>)
    ensures
        final(output)@ == old(output)@ + diff_lines(prefix, lines_of(all@), all@.len() as int),
{
    let mut i: usize = 0;
    assert(output@ + seq![] =~= output@);
    while i < all.len()
        invariant
            i <= all@.len(),
            output@ == old(output)@ + diff_lines(prefix, lines_of(all@), i as int),
        decreases all@.len() - i,
    {
        assert(lines_of(all@)[i as int] == (all@[i as int].0@, all@[i as int].1));
        append_diff_line(output, prefix, all[i].0.as_str(), all[i].1);
        i += 1;
        assert(output@ =~= old(output)@ + diff_lines(prefix, lines_of(all@), i as int));
    }
}

fn append_hunk_side(output: &mut String, count: usize)
    ensures
        final(output)@ == old(output)@ + hunk_side(count as nat),
{
    output.append(if count == 0 { "0" } else { "1" });
    output.append(",");
    output.append(decimal_string(count).as_str());
    assert(output@ =~= old(output)@ + hunk_side(count as nat));
}

fn append_file_diff(output: &mut String, path: &str, old_text: &str, new_text: &str)
    ensures
        final(output)@ == old(output)@ + file_diff(path@, old_text@, new_text@),
{
    let before = split_lines(old_text);
    let after = split_lines(new_text);
    proof {
        assert(lines_of(before@).len() == before@.len());
        assert(lines_of(after@).len() == after@.len());
    }
    output.append("--- ");
    output.append(path);
    output.append("\n+++ ");
    output.append(path);
    output.append("\n@@ -");
    append_hunk_side(output, before.len());
    output.append(" +");
    append_hunk_side(output, after.len());
    output.append(" @@\n");
    append_diff_lines(output, '-', &before);
    append_diff_lines(output, '+', &after);
    assert(output@ =~= old(output)@ + file_diff(path@, old_text@, new_text@));
}

/// A unified diff of the changed files.
pub fn unified_diff(files: &Files, applied: &AppliedEdits) -> (r: String)
    ensures
        r@ == diff_of(files@, applied.files@, applied.files@.len() as int),
{
    let staged = &applied.files.entries;
    let mut output = String::new();
    let mut i: usize = 0;
    while i < staged.len()
        invariant
            i <= staged@.len(),
            staged@ == applied.files.entries@,
            output@ == diff_of(files@, applied.files@, i as int),
        decreases staged@.len() - i,
    {
        let entry = &staged[i];
        let ghost before = output@;
        assert(applied.files@[i as int] == (entry.file_id, entry.text@));
        match files.get(entry.file_id) {
            Some(file) => {
                if !same(file.source.as_str(), entry.text.as_str()) {
                    append_file_diff(
                        &mut output,
                        file.path.as_str(),
                        file.source.as_str(),
                        entry.text.as_str(),
                    );
                } else {
                    assert(before + seq![] =~= before);
                }
            },
            None => {
                assert(before + seq![] =~= before);
            },
        }
        i += 1;
    }
    output
}

/// The staged files from `i` on whose text differs from the registered one,
/// or the first that is not registered.
pub open spec fn changed_from(
    files: Seq<FileModel>,
    staged: Seq<(FileId, Seq<char>)>,
    i: int,
    done: Seq<int>,
) -> Result<Seq<int>, FileId>
    decreases staged.len() - i,
{
    if i < 0 || i >= staged.len() {
        Ok(done)
    } else {
        let (id, text) = staged[i];
        if id.0 >= files.len() {
            Err(id)
        } else if files[id.0 as int].1 == text {
            changed_from(files, staged, i + 1, done)
        } else {
            changed_from(files, staged, i + 1, done.push(i))
        }
    }
}

/// The places of the staged files that are to be written.
pub fn changed_updates(files: &Files, updates: &StagedFiles) -> (r: Result<Vec<usize>, FixError>)
    ensures
        match changed_from(files@, updates@, 0, seq![]) {
            Ok(done) => r matches Ok(v) && v@.map_values(|i: usize| i as int) == done,
            Err(id) => r == Err::<Vec<usize>, FixError>(FixError::UnknownFile(id)),
        },
{
    let mut out: Vec<usize> = Vec::new();
    let mut i: usize = 0;
    let ghost as_int = |i: usize| i as int;
    assert(out@.map_values(as_int) =~= seq![]);
    while i < updates.entries.len()
        invariant
            i <= updates.entries@.len(),
            as_int == (|i: usize| i as int),
            changed_from(files@, updates@, 0, seq![]) == changed_from(
                files@,
                updates@,
                i as int,
                out@.map_values(as_int),
            ),
        decreases updates.entries@.len() - i,
    {
        let entry = &updates.entries[i];
        let ghost done = out@.map_values(as_int);
        assert(updates@[i as int] == (entry.file_id, entry.text@));
        match files.source(entry.file_id) {
            Some(original) => {
                if !same(original, entry.text.as_str()) {
                    out.push(i);
                    assert(out@.map_values(as_int) =~= done.push(i as int));
                }
            },
            None => {
                return Err(FixError::UnknownFile(entry.file_id));
            },
        }
        i += 1;
    }
    Ok(out)
}

/// An unchanged file adds nothing to the diff.
pub proof fn unchanged_file_has_no_diff(
    files: Seq<FileModel>,
    staged: Seq<(FileId, Seq<char>)>,
    n: int,
)
    requires
        0 < n <= staged.len(),
        staged[n - 1].0.0 < files.len(),
        files[staged[n - 1].0.0 as int].1 == staged[n - 1].1,
    ensures
        diff_of(files, staged, n) == diff_of(files, staged, n - 1),
{
    assert(diff_of(files, staged, n - 1) + seq![] =~= diff_of(files, staged, n - 1));
}

} // verus!
