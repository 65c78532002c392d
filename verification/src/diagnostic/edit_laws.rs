//! Where edits reach, which are refused, and what a diff shows.

use crate::diagnostic::diff::{changed_from, diff_line, diff_lines, diff_of, file_diff};
use crate::diagnostic::edit::{Applicability, SourceRange, TextEdit};
use crate::diagnostic::files::{FileId, FileModel};
use crate::diagnostic::fix::{edit_fault, offset_of, overlap, position_from, range_of};
use crate::lexer::Span;
use crate::lines::{lines, shown, Line};
use crate::source::{col_at, columns, line_at};
use crate::text::{byte_len, decimal};
use vstd::prelude::*;

verus! {

/// Whether a range takes up a place: one of its bytes, or, for an insertion, the
/// place where it inserts.
pub open spec fn takes_up(r: SourceRange, b: int) -> bool {
    r.start_byte <= b < r.end_byte || (r.start_byte == r.end_byte && b == r.start_byte)
}

/// Two ranges overlap where there is a place that both take up, and only there.
pub proof fn overlapping_ranges_share_a_place(left: SourceRange, right: SourceRange)
    requires
        left.start_byte <= left.end_byte,
        right.start_byte <= right.end_byte,
    ensures
        overlap(left, right) <==> exists|b: int| #[trigger] takes_up(left, b) && takes_up(right, b),
{
    if overlap(left, right) {
        let b = if left.start_byte < right.start_byte {
            right.start_byte as int
        } else {
            left.start_byte as int
        };
        assert(takes_up(left, b) && takes_up(right, b));
    }
}

/// The first offset from `i` on with a row and column.
proof fn position_is_first(text: Seq<char>, i: int, row: int, col: int)
    requires
        0 <= i <= text.len(),
    ensures
        match position_from(text, i, row, col) {
            Some(p) => {
                &&& i <= p <= text.len()
                &&& line_at(text, p) == row
                &&& col_at(text, p) == col
                &&& forall|k: int|
                    i <= k < p ==> #[trigger] line_at(text, k) != row || col_at(text, k) != col
            },
            None => forall|k: int|
                i <= k <= text.len() ==> #[trigger] line_at(text, k) != row || col_at(text, k)
                    != col,
        },
    decreases text.len() - i,
{
    if !(line_at(text, i) == row && col_at(text, i) == col) && i < text.len() {
        position_is_first(text, i + 1, row, col);
    }
}

/// The byte offset of a row and column is the number of bytes in front of the
/// first character that stands there.
pub proof fn location_is_where_its_character_is(text: Seq<char>, row: usize, col: usize, p: int)
    requires
        0 <= p <= text.len(),
        line_at(text, p) == row,
        col_at(text, p) == col,
        forall|k: int| 0 <= k < p ==> #[trigger] line_at(text, k) != row || col_at(text, k) != col,
        row > 0,
        col > 0,
    ensures
        offset_of(text, row, col) == Result::<nat, &'static str>::Ok(byte_len(text.take(p))),
{
    position_is_first(text, 0, row as int, col as int);
    let q = position_from(text, 0, row as int, col as int);
    assert(line_at(text, p) == row && col_at(text, p) == col);
    assert(q is Some);
    let i = q->0;
    if i < p {
        assert(line_at(text, i) != row || col_at(text, i) != col);
    } else if p < i {
        assert(line_at(text, p) != row || col_at(text, p) != col);
    }
}

/// A row and column at which nothing stands have no byte offset.
pub proof fn location_outside_is_refused(text: Seq<char>, row: usize, col: usize)
    requires
        forall|k: int|
            0 <= k <= text.len() ==> #[trigger] line_at(text, k) != row || col_at(text, k) != col,
    ensures
        offset_of(text, row, col) is Err,
{
    position_is_first(text, 0, row as int, col as int);
    if let Some(p) = position_from(text, 0, row as int, col as int) {
        assert(line_at(text, p) == row && col_at(text, p) == col);
    }
}

/// The byte range of a span starts at its start and ends at its end, or where it
/// starts if it has no end.
pub proof fn range_goes_from_start_to_end(text: Seq<char>, span: Span, range: SourceRange)
    requires
        range_of(text, span) == Result::<SourceRange, &'static str>::Ok(range),
        byte_len(text) <= usize::MAX,
    ensures
        offset_of(text, span.row_start, span.col_start) == Result::<nat, &'static str>::Ok(
            range.start_byte as nat,
        ),
        span.row_end is Some <==> span.col_end is Some,
        span.row_end matches Some(row) ==> (span.col_end matches Some(col) ==> offset_of(
            text,
            row,
            col,
        ) == Result::<nat, &'static str>::Ok(range.end_byte as nat)),
        span.row_end is None ==> range.end_byte == range.start_byte,
        range.start_byte <= range.end_byte <= byte_len(text),
{
    offsets_are_inside(text, span.row_start, span.col_start);
    if let Some(row) = span.row_end {
        if let Some(col) = span.col_end {
            offsets_are_inside(text, row, col);
        }
    }
}

proof fn offsets_are_inside(text: Seq<char>, row: usize, col: usize)
    ensures
        offset_of(text, row, col) matches Ok(b) ==> b <= byte_len(text),
{
    position_is_first(text, 0, row as int, col as int);
    if let Some(p) = position_from(text, 0, row as int, col as int) {
        assert(text.take(p) + text.skip(p) =~= text);
        crate::text::byte_len_adds(text.take(p), text.skip(p));
    }
}

/// A column depends on nothing in front of its line: a newline starts the
/// columns anew.
pub proof fn newline_starts_the_columns(front: Seq<char>, line: Seq<char>, k: int)
    requires
        0 <= k <= line.len(),
    ensures
        col_at(front.push('\n') + line, front.len() + 1 + k) == col_at(line, k),
    decreases k,
{
    let text = front.push('\n') + line;
    let p = front.len() + 1 + k;
    if k > 0 {
        assert(text[p - 1] == line[k - 1]);
        newline_starts_the_columns(front, line, k - 1);
    } else {
        assert(text[p - 1] == '\n');
    }
}

/// The columns that a text takes up.
pub open spec fn width_of(s: Seq<char>) -> nat
    decreases s.len(),
{
    if s.len() == 0 {
        0
    } else {
        columns(s[0]) + width_of(s.drop_first())
    }
}

proof fn width_adds_last(s: Seq<char>)
    requires
        s.len() > 0,
    ensures
        width_of(s) == width_of(s.drop_last()) + columns(s.last()),
    decreases s.len(),
{
    if s.len() == 1 {
        assert(s.drop_first() =~= Seq::<char>::empty());
        assert(s.drop_last() =~= Seq::<char>::empty());
    } else {
        width_adds_last(s.drop_first());
        assert(s.drop_first().drop_last() =~= s.drop_last().drop_first());
        assert(s.drop_first().last() == s.last());
    }
}

/// A column is one more than the width of what stands in front of it on its
/// line.
pub proof fn columns_count_widths(line: Seq<char>, k: int)
    requires
        0 <= k <= line.len(),
        !line.contains('\n'),
    ensures
        col_at(line, k) == 1 + width_of(line.take(k)),
        line_at(line, k) == 1,
    decreases k,
{
    if k > 0 {
        columns_count_widths(line, k - 1);
        assert(line[k - 1] != '\n');
        assert(line.take(k).drop_last() =~= line.take(k - 1));
        width_adds_last(line.take(k));
    }
}

/// An edit is let through where a machine may apply it, its file is known and
/// not built in, its range lies between characters of the file, and no
/// recovered range overlaps it.
pub proof fn edits_let_through(
    files: Seq<FileModel>,
    edit: TextEdit,
    recovery: Seq<(FileId, SourceRange)>,
    i: int,
    j: int,
)
    requires
        edit.applicability == Applicability::MachineApplicable,
        edit.file_id.0 < files.len(),
        !"<embedded>/"@.is_prefix_of(files[edit.file_id.0 as int].0),
        0 <= i <= j <= files[edit.file_id.0 as int].1.len(),
        edit.range.start_byte == byte_len(files[edit.file_id.0 as int].1.take(i)),
        edit.range.end_byte == byte_len(files[edit.file_id.0 as int].1.take(j)),
    ensures
        edit_fault(files, edit, recovery) is None <==> forall|k: int|
            0 <= k < recovery.len() && (#[trigger] recovery[k]).0 == edit.file_id ==> !overlap(
                recovery[k].1,
                edit.range,
            ),
{
    let text = files[edit.file_id.0 as int].1;
    assert(text.take(i) + text.subrange(i, j) =~= text.take(j));
    crate::text::byte_len_adds(text.take(i), text.subrange(i, j));
    assert(text.take(j) + text.skip(j) =~= text);
    crate::text::byte_len_adds(text.take(j), text.skip(j));
}

/// An edit that a machine may not apply, that names no known file or a built-in
/// one, or whose range ends before it starts or behind the text, is refused.
pub proof fn edits_refused(
    files: Seq<FileModel>,
    edit: TextEdit,
    recovery: Seq<(FileId, SourceRange)>,
)
    requires
        edit.applicability != Applicability::MachineApplicable || edit.file_id.0 >= files.len()
            || "<embedded>/"@.is_prefix_of(files[edit.file_id.0 as int].0)
            || edit.range.end_byte < edit.range.start_byte || edit.range.end_byte > byte_len(
            files[edit.file_id.0 as int].1,
        ),
    ensures
        edit_fault(files, edit, recovery) is Some,
{
}

/// A line of a diff stands at some place of a text, on a line of its own.
pub open spec fn shows_line(diff: Seq<char>, mark: char, content: Seq<char>) -> bool {
    exists|front: Seq<char>, back: Seq<char>|
        diff == #[trigger] (front + (seq![mark] + content + seq!['\n']) + back) && (front.len() == 0
            || front.last() == '\n')
}

proof fn diff_lines_end(mark: char, all: Seq<Line>, n: int)
    ensures
        diff_lines(mark, all, n).len() == 0 || diff_lines(mark, all, n).last() == '\n',
{
    reveal_strlit("\n");
    reveal_strlit("\\ No newline at end of file\n");
    if 0 < n <= all.len() {
        let d = diff_line(mark, all[n - 1]);
        assert(d.last() == '\n');
        assert(diff_lines(mark, all, n).last() == d.last());
    }
}

proof fn diff_lines_show(mark: char, all: Seq<Line>, n: int, i: int)
    requires
        0 <= i < n <= all.len(),
    ensures
        shows_line(diff_lines(mark, all, n), mark, all[i].0),
    decreases n,
{
    reveal_strlit("\n");
    let d = diff_line(mark, all[n - 1]);
    let content = all[i].0;
    let shown_line = seq![mark] + content + seq!['\n'];
    if i == n - 1 {
        let front = diff_lines(mark, all, n - 1);
        let back = d.skip(shown_line.len() as int);
        diff_lines_end(mark, all, n - 1);
        assert(d.take(shown_line.len() as int) =~= shown_line);
        assert(diff_lines(mark, all, n) =~= front + shown_line + back);
    } else {
        diff_lines_show(mark, all, n - 1, i);
        let whole = diff_lines(mark, all, n - 1);
        let (front, back) = choose|front: Seq<char>, back: Seq<char>|
            whole == #[trigger] (front + (seq![mark] + content + seq!['\n']) + back) && (
            front.len() == 0 || front.last() == '\n');
        assert(diff_lines(mark, all, n) =~= front + shown_line + (back + d));
    }
}

/// The diff of a file names its path for both sides, and then shows each of its
/// old lines behind a minus and each of its new lines behind a plus, the old
/// ones first.
pub proof fn diff_shows_both_sides(
    path: Seq<char>,
    old_text: Seq<char>,
    new_text: Seq<char>,
    i: int,
    j: int,
)
    requires
        0 <= i < lines(old_text).len(),
        0 <= j < lines(new_text).len(),
    ensures
        exists|removed: Seq<char>, added: Seq<char>|
            file_diff(path, old_text, new_text) == #[trigger] ("--- "@ + path + "\n+++ "@ + path
                + "\n@@ -1,"@ + decimal(lines(old_text).len()) + " +1,"@ + decimal(
                lines(new_text).len(),
            ) + " @@\n"@ + removed + added) && shows_line(removed, '-', lines(old_text)[i].0)
                && shows_line(added, '+', lines(new_text)[j].0),
{
    let before = lines(old_text);
    let after = lines(new_text);
    let removed = diff_lines('-', before, before.len() as int);
    let added = diff_lines('+', after, after.len() as int);
    diff_lines_show('-', before, before.len() as int, i);
    diff_lines_show('+', after, after.len() as int, j);
    reveal_strlit("1");
    reveal_strlit(",");
    reveal_strlit("\n@@ -");
    reveal_strlit("\n@@ -1,");
    reveal_strlit(" +");
    reveal_strlit(" +1,");
    assert("\n@@ -1,"@ =~= "\n@@ -"@ + ("1"@ + ","@));
    assert(" +1,"@ =~= " +"@ + ("1"@ + ","@));
    let head = "--- "@ + path + "\n+++ "@ + path;
    assert(file_diff(path, old_text, new_text) =~= head + "\n@@ -1,"@ + decimal(before.len())
        + " +1,"@ + decimal(after.len()) + " @@\n"@ + removed + added);
}

/// The diff of staged files is that of each changed one, in their order.
pub proof fn diff_goes_file_by_file(
    files: Seq<FileModel>,
    staged: Seq<(FileId, Seq<char>)>,
    n: int,
)
    requires
        0 <= n < staged.len(),
        staged[n].0.0 < files.len(),
    ensures
        files[staged[n].0.0 as int].1 == staged[n].1 ==> diff_of(files, staged, n + 1) == diff_of(
            files,
            staged,
            n,
        ),
        files[staged[n].0.0 as int].1 != staged[n].1 ==> diff_of(files, staged, n + 1) == diff_of(
            files,
            staged,
            n,
        ) + file_diff(
            files[staged[n].0.0 as int].0,
            files[staged[n].0.0 as int].1,
            staged[n].1,
        ),
{
    assert(diff_of(files, staged, n) + Seq::<char>::empty() =~= diff_of(files, staged, n));
}

/// The files to be written are those whose text changes, each once and in their
/// order.
pub proof fn changed_files_are_written(
    files: Seq<FileModel>,
    staged: Seq<(FileId, Seq<char>)>,
    i: int,
    done: Seq<int>,
)
    requires
        0 <= i <= staged.len(),
        forall|k: int| i <= k < staged.len() ==> (#[trigger] staged[k]).0.0 < files.len(),
    ensures
        changed_from(files, staged, i, done) is Ok,
        ({
            let all = changed_from(files, staged, i, done)->Ok_0;
            &&& all.len() >= done.len()
            &&& all.take(done.len() as int) == done
            &&& forall|x: int|
                done.len() <= x < all.len() ==> i <= (#[trigger] all[x]) < staged.len()
                    && files[staged[all[x]].0.0 as int].1 != staged[all[x]].1
            &&& forall|x: int, y: int|
                done.len() <= x < y < all.len() ==> (#[trigger] all[x]) < (#[trigger] all[y])
            &&& forall|k: int|
                i <= k < staged.len() && files[(#[trigger] staged[k]).0.0 as int].1 != staged[k].1
                    ==> exists|x: int| done.len() <= x < all.len() && #[trigger] all[x] == k
        }),
    decreases staged.len() - i,
{
    if i < staged.len() {
        assert(staged[i].0.0 < files.len());
        let next = if files[staged[i].0.0 as int].1 == staged[i].1 {
            done
        } else {
            done.push(i)
        };
        changed_files_are_written(files, staged, i + 1, next);
        let all = changed_from(files, staged, i, done)->Ok_0;
        assert(all.take(done.len() as int) =~= all.take(next.len() as int).take(done.len() as int));
        assert(next.take(done.len() as int) =~= done);
        if next.len() > done.len() {
            assert(all.take(next.len() as int)[done.len() as int] == all[done.len() as int]);
            assert(all[done.len() as int] == i);
        }
    } else {
        assert(done.take(done.len() as int) =~= done);
    }
}

/// A line is shown without the characters that end it, and otherwise whole.
pub proof fn lines_are_shown_whole(content: Seq<char>)
    requires
        content.len() == 0 || content.last() != '\r',
    ensures
        shown((content, true)) == content,
        shown((content, false)) == content,
        shown((content.push('\r'), true)) == content,
{
    assert(content.push('\r').drop_last() =~= content);
}

} // verus!
