//! Validation and application of source edits.

use crate::diagnostic::catalog::DiagnosticCode;
use crate::diagnostic::edit::{Applicability, SourceRange, TextEdit};
use crate::diagnostic::files::{FileId, FileModel, Files};
use crate::lexer::Span;
use crate::source::{col_at, columns_of, fits, line_at};
use crate::table::starts_with;
use crate::text::{
    byte_len, byte_len_bounds, cat, chars_of, decimal, decimal_string, same, string_of, utf8_len,
};
use vstd::prelude::*;

verus! {

/// Source intervals produced while recovering from syntax errors.
#[derive(Debug, Clone, PartialEq, Eq)]
pub struct RecoveryIntervals {
    pub intervals: Vec<(FileId, SourceRange)>,
}

/// Whether two ranges overlap. An empty range is a point: it overlaps a range
/// that it lies in, its start included, and another empty range at the same
/// place.
pub open spec fn overlap(left: SourceRange, right: SourceRange) -> bool {
    if left.is_empty() && right.is_empty() {
        left.start_byte == right.start_byte
    } else if left.is_empty() {
        right.start_byte <= left.start_byte < right.end_byte
    } else if right.is_empty() {
        left.start_byte <= right.start_byte < left.end_byte
    } else {
        left.start_byte < right.end_byte && right.start_byte < left.end_byte
    }
}

pub fn ranges_overlap(left: SourceRange, right: SourceRange) -> (r: bool)
    ensures
        r == overlap(left, right),
{
    if left.is_empty() && right.is_empty() {
        return left.start_byte == right.start_byte;
    }
    if left.is_empty() {
        return left.start_byte >= right.start_byte && left.start_byte < right.end_byte;
    }
    if right.is_empty() {
        return right.start_byte >= left.start_byte && right.start_byte < left.end_byte;
    }
    left.start_byte < right.end_byte && right.start_byte < left.end_byte
}

/// Overlapping is mutual.
pub proof fn overlap_is_symmetric(left: SourceRange, right: SourceRange)
    ensures
        overlap(left, right) == overlap(right, left),
{
}

/// Whether a range of a file overlaps one of the recorded intervals.
pub open spec fn touches(
    intervals: Seq<(FileId, SourceRange)>,
    file_id: FileId,
    range: SourceRange,
) -> bool {
    exists|i: int|
        0 <= i < intervals.len() && (#[trigger] intervals[i]).0 == file_id && overlap(
            intervals[i].1,
            range,
        )
}

impl Default for RecoveryIntervals {
    fn default() -> (r: Self)
        ensures
            r.intervals@ == Seq::<(FileId, SourceRange)>::empty(),
    {
        Self::new()
    }
}

impl RecoveryIntervals {
    pub fn new() -> (r: Self)
        ensures
            r.intervals@ == Seq::<(FileId, SourceRange)>::empty(),
    {
        Self { intervals: Vec::new() }
    }

    pub fn add(&mut self, file_id: FileId, range: SourceRange)
        ensures
            final(self).intervals@ == old(self).intervals@.push((file_id, range)),
    {
        self.intervals.push((file_id, range));
    }

    pub fn extend(&mut self, other: Self)
        ensures
            final(self).intervals@ == old(self).intervals@ + other.intervals@,
    {
        let mut other = other;
        self.intervals.append(&mut other.intervals);
    }

    pub fn touches(&self, file_id: FileId, range: SourceRange) -> (r: bool)
        ensures
            r == touches(self.intervals@, file_id, range),
    {
        let mut i: usize = 0;
        while i < self.intervals.len()
            invariant
                i <= self.intervals@.len(),
                forall|j: int|
                    0 <= j < i ==> !((#[trigger] self.intervals@[j]).0 == file_id && overlap(
                        self.intervals@[j].1,
                        range,
                    )),
            decreases self.intervals@.len() - i,
        {
            let entry = self.intervals[i];
            if entry.0 == file_id && ranges_overlap(entry.1, range) {
                assert(self.intervals@[i as int] == entry);
                return true;
            }
            i += 1;
        }
        false
    }
}

/// The new text of a file.
#[derive(Debug, Clone, PartialEq, Eq)]
pub struct StagedFile {
    pub file_id: FileId,
    pub text: String,
}

/// The new texts of edited files, in the order of their IDs.
#[derive(Debug, Clone, PartialEq, Eq)]
pub struct StagedFiles {
    pub entries: Vec<StagedFile>,
}

/// The new texts as mathematical values.
pub open spec fn texts_of(s: Seq<StagedFile>) -> Seq<(FileId, Seq<char>)> {
    Seq::new(s.len(), |i: int| (s[i].file_id, s[i].text@))
}

proof fn texts_of_push(s: Seq<StagedFile>, x: StagedFile)
    ensures
        texts_of(s.push(x)) == texts_of(s).push((x.file_id, x.text@)),
{
    assert(texts_of(s.push(x)) =~= texts_of(s).push((x.file_id, x.text@)));
}

impl View for StagedFiles {
    type V = Seq<(FileId, Seq<char>)>;

    open spec fn view(&self) -> Seq<(FileId, Seq<char>)> {
        texts_of(self.entries@)
    }
}

impl StagedFiles {
    /// The new text of a file, where it was edited.
    pub fn get(&self, file_id: &FileId) -> (r: Option<&String>)
        ensures
            match r {
                Some(t) => exists|i: int|
                    0 <= i < self@.len() && #[trigger] self@[i] == (*file_id, t@),
                None => forall|i: int|
                    0 <= i < self@.len() ==> (#[trigger] self@[i]).0 != *file_id,
            },
    {
        let mut i: usize = 0;
        while i < self.entries.len()
            invariant
                i <= self.entries@.len(),
                forall|j: int| 0 <= j < i ==> (#[trigger] self@[j]).0 != *file_id,
            decreases self.entries@.len() - i,
        {
            assert(self@[i as int] == (
                self.entries@[i as int].file_id,
                self.entries@[i as int].text@,
            ));
            if self.entries[i].file_id == *file_id {
                return Some(&self.entries[i].text);
            }
            i += 1;
        }
        None
    }
}

/// The result of applying validated edits in memory.
#[derive(Debug, Clone, PartialEq, Eq)]
pub struct AppliedEdits {
    pub files: StagedFiles,
    pub changed_files: Vec<FileId>,
}

/// Errors that prevent a fix transaction from being applied.
#[derive(Debug, PartialEq)]
pub enum FixError {
    UnknownFile(FileId),
    EmbeddedFile(FileId),
    NonMachineApplicable { code: DiagnosticCode, applicability: Applicability },
    InvalidRange { file_id: FileId, range: SourceRange, source_len: usize },
    OverlappingEdits { file_id: FileId },
    RecoveryRange { file_id: FileId, range: SourceRange },
    InvalidLocation { span: Span, reason: &'static str },
    Io(String),
    Transaction(String),
}

/// How a file ID is written in messages.
pub open spec fn id_text(id: FileId) -> Seq<char> {
    "FileId("@ + decimal(id.0 as nat) + ")"@
}

pub fn id_string(id: FileId) -> (r: String)
    ensures
        r@ == id_text(id),
{
    let mut out = cat("FileId(", decimal_string(id.0).as_str());
    out.append(")");
    out
}

/// How a byte range is written in messages.
pub open spec fn range_text(range: SourceRange) -> Seq<char> {
    decimal(range.start_byte as nat) + ".."@ + decimal(range.end_byte as nat)
}

fn range_string(range: SourceRange) -> (r: String)
    ensures
        r@ == range_text(range),
{
    let mut out = cat(decimal_string(range.start_byte).as_str(), "..");
    out.append(decimal_string(range.end_byte).as_str());
    out
}

impl FixError {
    /// The message of an error.
    pub open spec fn message(self) -> Seq<char> {
        match self {
            FixError::UnknownFile(id) => "edit refers to unknown file "@ + id_text(id),
            FixError::EmbeddedFile(id) => "edits to embedded file "@ + id_text(id)
                + " are not allowed"@,
            FixError::NonMachineApplicable { code, applicability } => code.as_str()@
                + " is not machine-applicable ("@ + applicability.name()@ + ")"@,
            FixError::InvalidRange { file_id, range, source_len } => "edit for "@ + id_text(file_id)
                + " has invalid byte range "@ + range_text(range) + " (source length "@ + decimal(
                source_len as nat,
            ) + ")"@,
            FixError::OverlappingEdits { file_id } => "machine-applicable edits overlap in "@
                + id_text(file_id),
            FixError::RecoveryRange { file_id, range } => "edit for "@ + id_text(file_id)
                + " touches recovered source at "@ + range_text(range),
            FixError::InvalidLocation { span, reason } => "cannot map diagnostic span at "@
                + decimal(span.row_start as nat) + ":"@ + decimal(span.col_start as nat)
                + " to bytes: "@ + reason@,
            FixError::Io(error) => "I/O error while applying fixes: "@ + error@,
            FixError::Transaction(message) => "fix transaction failed: "@ + message@,
        }
    }

    pub fn to_string(&self) -> (r: String)
        ensures
            r@ == self.message(),
    {
        match self {
            FixError::UnknownFile(id) => cat(
                "edit refers to unknown file ",
                id_string(*id).as_str(),
            ),
            FixError::EmbeddedFile(id) => {
                let mut out = cat("edits to embedded file ", id_string(*id).as_str());
                out.append(" are not allowed");
                out
            },
            FixError::NonMachineApplicable { code, applicability } => {
                let mut out = cat(code.as_str(), " is not machine-applicable (");
                out.append(applicability.name());
                out.append(")");
                out
            },
            FixError::InvalidRange { file_id, range, source_len } => {
                let mut out = cat("edit for ", id_string(*file_id).as_str());
                out.append(" has invalid byte range ");
                out.append(range_string(*range).as_str());
                out.append(" (source length ");
                out.append(decimal_string(*source_len).as_str());
                out.append(")");
                out
            },
            FixError::OverlappingEdits { file_id } => cat(
                "machine-applicable edits overlap in ",
                id_string(*file_id).as_str(),
            ),
            FixError::RecoveryRange { file_id, range } => {
                let mut out = cat("edit for ", id_string(*file_id).as_str());
                out.append(" touches recovered source at ");
                out.append(range_string(*range).as_str());
                out
            },
            FixError::InvalidLocation { span, reason } => {
                let mut out = cat(
                    "cannot map diagnostic span at ",
                    decimal_string(span.row_start).as_str(),
                );
                out.append(":");
                out.append(decimal_string(span.col_start).as_str());
                out.append(" to bytes: ");
                out.append(reason);
                out
            },
            FixError::Io(error) => cat("I/O error while applying fixes: ", error.as_str()),
            FixError::Transaction(message) => cat("fix transaction failed: ", message.as_str()),
        }
    }
}

/// The first character from `i` on that stands at a row and column; the end
/// of the text counts as a place.
pub open spec fn position_from(text: Seq<char>, i: int, row: int, col: int) -> Option<int>
    decreases text.len() - i,
{
    if i < 0 || i > text.len() {
        None
    } else if line_at(text, i) == row && col_at(text, i) == col {
        Some(i)
    } else if i == text.len() {
        None
    } else {
        position_from(text, i + 1, row, col)
    }
}

/// The byte offset of a row and column, both counted from one, or why there
/// is none.
pub open spec fn offset_of(text: Seq<char>, row: usize, col: usize) -> Result<nat, &'static str> {
    if row == 0 || col == 0 {
        Err("locations are one-based")
    } else {
        match position_from(text, 0, row as int, col as int) {
            Some(i) => Ok(byte_len(text.take(i))),
            None => Err("location is outside the source or inside a wide character"),
        }
    }
}

/// The byte range of a span, or why there is none.
pub open spec fn range_of(text: Seq<char>, span: Span) -> Result<SourceRange, &'static str> {
    match offset_of(text, span.row_start, span.col_start) {
        Err(reason) => Err(reason),
        Ok(start) => {
            let end = match (span.row_end, span.col_end) {
                (Some(row), Some(col)) => offset_of(text, row, col),
                (None, None) => Ok(start),
                _ => Err("span has only one end coordinate"),
            };
            match end {
                Err(reason) => Err(reason),
                Ok(e) => if e < start {
                    Err("span end precedes its start")
                } else {
                    Ok(SourceRange { start_byte: start as usize, end_byte: e as usize })
                },
            }
        },
    }
}

/// Converts a row/column span to bytes using the exact source text.
///
/// Columns count terminal display width, not UTF-8 bytes. A location in the
/// middle of a wide character is rejected.
pub fn source_range_for_span(source: &str, span: Span) -> (r: Result<SourceRange, FixError>)
    requires
        fits(source@),
    ensures
        r == (match range_of(source@, span) {
            Ok(range) => Ok(range),
            Err(reason) => Err(FixError::InvalidLocation { span, reason }),
        }),
{
    let start = match byte_offset_for_position(source, span.row_start, span.col_start, span) {
        Ok(start) => start,
        Err(e) => {
            return Err(e);
        },
    };
    let end = match (span.row_end, span.col_end) {
        (Some(row), Some(column)) => match byte_offset_for_position(source, row, column, span) {
            Ok(end) => end,
            Err(e) => {
                return Err(e);
            },
        },
        (None, None) => start,
        _ => {
            return Err(
                FixError::InvalidLocation { span, reason: "span has only one end coordinate" },
            );
        },
    };
    if end < start {
        return Err(FixError::InvalidLocation { span, reason: "span end precedes its start" });
    }
    Ok(SourceRange::new(start, end))
}

fn byte_offset_for_position(source: &str, row: usize, column: usize, span: Span) -> (r: Result<
    usize,
    FixError,
>)
    requires
        fits(source@),
    ensures
        match r {
            Ok(b) => offset_of(source@, row, column) == Ok::<nat, &'static str>(b as nat),
            Err(e) => offset_of(source@, row, column) is Err && e == (FixError::InvalidLocation {
                span,
                reason: offset_of(source@, row, column)->Err_0,
            }),
        },
{
    if row == 0 || column == 0 {
        return Err(FixError::InvalidLocation { span, reason: "locations are one-based" });
    }
    let chars = chars_of(source);
    let ghost text = source@;
    let mut current_row: usize = 1;
    let mut current_column: usize = 1;
    let mut bytes: usize = 0;
    let mut i: usize = 0;
    assert(text.take(0) =~= seq![]);
    while i < chars.len()
        invariant
            i <= chars@.len(),
            chars@ == text,
            text == source@,
            fits(text),
            row > 0,
            column > 0,
            current_row == line_at(text, i as int),
            current_column == col_at(text, i as int),
            1 <= current_row <= 1 + i,
            1 <= current_column <= 1 + 3 * i,
            bytes == byte_len(text.take(i as int)),
            bytes <= 4 * i,
            position_from(text, 0, row as int, column as int) == position_from(
                text,
                i as int,
                row as int,
                column as int,
            ),
        decreases chars@.len() - i,
    {
        if current_row == row && current_column == column {
            return Ok(bytes);
        }
        let c = chars[i];
        if c == '\n' {
            current_row += 1;
            current_column = 1;
        } else {
            current_column += columns_of(c);
        }
        assert(text.take(i + 1).drop_last() =~= text.take(i as int));
        bytes += utf8_len(c);
        i += 1;
    }
    if current_row == row && current_column == column {
        return Ok(bytes);
    }
    Err(
        FixError::InvalidLocation {
            span,
            reason: "location is outside the source or inside a wide character",
        },
    )
}

/// The number of characters in front of byte offset `b`, from character `i`
/// on, which starts at byte `bytes`.
pub open spec fn index_from(text: Seq<char>, i: int, bytes: nat, b: nat) -> int
    decreases text.len() - i,
{
    if i < 0 || i >= text.len() || bytes >= b {
        i
    } else {
        index_from(text, i + 1, bytes + crate::text::utf8_len_spec(text[i]), b)
    }
}

/// The number of characters in front of byte offset `b`.
pub open spec fn index_at(text: Seq<char>, b: nat) -> int {
    index_from(text, 0, 0, b)
}

/// Whether a character starts at byte offset `b`, or the text ends there.
pub open spec fn boundary(text: Seq<char>, b: nat) -> bool {
    exists|i: int| 0 <= i <= text.len() && #[trigger] byte_len(text.take(i)) == b
}

proof fn index_from_bounds(text: Seq<char>, i: int, b: nat)
    requires
        0 <= i <= text.len(),
    ensures
        i <= index_from(text, i, byte_len(text.take(i)), b) <= text.len(),
        ({
            let j = index_from(text, i, byte_len(text.take(i)), b);
            j < text.len() ==> byte_len(text.take(j)) >= b
        }),
        forall|k: int|
            i <= k < index_from(text, i, byte_len(text.take(i)), b) ==> #[trigger] byte_len(
                text.take(k),
            ) < b,
    decreases text.len() - i,
{
    if i < text.len() && byte_len(text.take(i)) < b {
        assert(text.take(i + 1).drop_last() =~= text.take(i));
        index_from_bounds(text, i + 1, b);
    }
}

proof fn prefix_bytes_rise(text: Seq<char>, i: int, j: int)
    requires
        0 <= i <= j <= text.len(),
    ensures
        byte_len(text.take(i)) + (j - i) <= byte_len(text.take(j)),
    decreases j - i,
{
    if i < j {
        prefix_bytes_rise(text, i, j - 1);
        assert(text.take(j).drop_last() =~= text.take(j - 1));
    }
}

/// The character that starts at a boundary is the one that `index_at` gives,
/// and no other starts there.
pub proof fn boundary_index(text: Seq<char>, b: nat)
    ensures
        0 <= index_at(text, b) <= text.len(),
        boundary(text, b) <==> byte_len(text.take(index_at(text, b))) == b,
        forall|i: int|
            0 <= i <= text.len() && #[trigger] byte_len(text.take(i)) == b ==> i == index_at(
                text,
                b,
            ),
{
    assert(text.take(0) =~= seq![]);
    index_from_bounds(text, 0, b);
    let j = index_at(text, b);
    assert forall|i: int| 0 <= i <= text.len() && #[trigger] byte_len(text.take(i)) == b implies i
        == j by {
        if i < j {
            assert(byte_len(text.take(i)) < b);
        } else if j < i {
            prefix_bytes_rise(text, j, i);
        }
    }
}

/// The number of characters in front of byte offset `b`, and the byte at
/// which the next one starts.
pub fn char_index(chars: &Vec<char>, b: u128) -> (r: (usize, u128))
    ensures
        r.0 == index_at(chars@, b as nat),
        r.0 <= chars@.len(),
        r.1 == byte_len(chars@.take(r.0 as int)),
{
    let mut i: usize = 0;
    let mut bytes: u128 = 0;
    assert(chars@.take(0) =~= seq![]);
    while i < chars.len() && bytes < b
        invariant
            i <= chars@.len(),
            bytes == byte_len(chars@.take(i as int)),
            bytes <= 4 * i,
            index_at(chars@, b as nat) == index_from(chars@, i as int, bytes as nat, b as nat),
        decreases chars@.len() - i,
    {
        assert(chars@.take(i + 1).drop_last() =~= chars@.take(i as int));
        bytes += utf8_len(chars[i]) as u128;
        i += 1;
    }
    (i, bytes)
}

/// Whether an edit may replace a range of a text.
pub open spec fn valid_range(text: Seq<char>, range: SourceRange) -> bool {
    &&& range.start_byte <= range.end_byte <= byte_len(text)
    &&& boundary(text, range.start_byte as nat)
    &&& boundary(text, range.end_byte as nat)
}

/// The prefix of the paths of embedded files.
pub open spec fn is_embedded(path: Seq<char>) -> bool {
    "<embedded>/"@.is_prefix_of(path)
}

/// Why an edit is refused on its own, where it is.
pub open spec fn edit_fault(
    files: Seq<FileModel>,
    edit: TextEdit,
    recovery: Seq<(FileId, SourceRange)>,
) -> Option<FixError> {
    if !edit.is_machine_applicable() {
        Some(
            FixError::NonMachineApplicable {
                code: edit.diagnostic_code,
                applicability: edit.applicability,
            },
        )
    } else if edit.file_id.0 >= files.len() {
        Some(FixError::UnknownFile(edit.file_id))
    } else if is_embedded(files[edit.file_id.0 as int].0) {
        Some(FixError::EmbeddedFile(edit.file_id))
    } else if !valid_range(files[edit.file_id.0 as int].1, edit.range) {
        Some(
            FixError::InvalidRange {
                file_id: edit.file_id,
                range: edit.range,
                source_len: byte_len(files[edit.file_id.0 as int].1) as usize,
            },
        )
    } else if touches(recovery, edit.file_id, edit.range) {
        Some(FixError::RecoveryRange { file_id: edit.file_id, range: edit.range })
    } else {
        None
    }
}

/// The first refusal among the edits from `i` on.
#[verifier::opaque]
pub open spec fn first_fault(
    files: Seq<FileModel>,
    edits: Seq<TextEdit>,
    recovery: Seq<(FileId, SourceRange)>,
    i: int,
) -> Option<FixError>
    decreases edits.len() - i,
{
    if i < 0 || i >= edits.len() {
        None
    } else {
        match edit_fault(files, edits[i], recovery) {
            Some(e) => Some(e),
            None => first_fault(files, edits, recovery, i + 1),
        }
    }
}

fn validate_edit(files: &Files, edit: &TextEdit, recovery: &RecoveryIntervals) -> (r: Result<
    (),
    FixError,
>)
    ensures
        match r {
            Ok(_) => edit_fault(files@, *edit, recovery.intervals@) is None,
            Err(e) => edit_fault(files@, *edit, recovery.intervals@) == Some(e),
        },
{
    if !edit.is_machine_applicable() {
        return Err(
            FixError::NonMachineApplicable {
                code: edit.diagnostic_code,
                applicability: edit.applicability,
            },
        );
    }
    let file = match files.get(edit.file_id) {
        Some(file) => file,
        None => {
            return Err(FixError::UnknownFile(edit.file_id));
        },
    };
    match reject_embedded_file(edit.file_id, file.path.as_str()) {
        Err(e) => {
            return Err(e);
        },
        Ok(_) => {},
    }
    match validate_range(edit.file_id, edit.range, file.source.as_str()) {
        Err(e) => {
            return Err(e);
        },
        Ok(_) => {},
    }
    if recovery.touches(edit.file_id, edit.range) {
        return Err(FixError::RecoveryRange { file_id: edit.file_id, range: edit.range });
    }
    Ok(())
}

pub fn reject_embedded_file(file_id: FileId, path: &str) -> (r: Result<(), FixError>)
    ensures
        r == (if is_embedded(path@) {
            Err(FixError::EmbeddedFile(file_id))
        } else {
            Ok(())
        }),
{
    if starts_with(path, "<embedded>/") {
        return Err(FixError::EmbeddedFile(file_id));
    }
    Ok(())
}

fn validate_range(file_id: FileId, range: SourceRange, source: &str) -> (r: Result<(), FixError>)
    ensures
        r == (if valid_range(source@, range) {
            Ok(())
        } else {
            Err(
                FixError::InvalidRange {
                    file_id,
                    range,
                    source_len: byte_len(source@) as usize,
                },
            )
        }),
{
    let chars = chars_of(source);
    let (_, start) = char_index(&chars, range.start_byte as u128);
    let (_, end) = char_index(&chars, range.end_byte as u128);
    let (last, total) = char_index(&chars, u128::MAX);
    let count: usize = chars.len();
    proof {
        byte_len_bounds(chars@.take(last as int));
        boundary_index(chars@, range.start_byte as nat);
        boundary_index(chars@, range.end_byte as nat);
        index_from_bounds(chars@, 0, u128::MAX as nat);
        assert(chars@.take(0) =~= seq![]);
        assert(last == chars@.len()) by {
            assert(byte_len(chars@.take(last as int)) <= 4 * count);
        }
        assert(chars@.take(chars@.len() as int) =~= chars@);
    }
    if range.start_byte > range.end_byte || range.end_byte as u128 > total || start
        != range.start_byte as u128 || end != range.end_byte as u128 {
        let source_len: usize = #[verifier::truncate] (total as usize);
        return Err(FixError::InvalidRange { file_id, range, source_len });
    }
    Ok(())
}

/// Whether an edit comes before another: by its start, then by its end.
pub open spec fn precedes(a: &TextEdit, b: &TextEdit) -> bool {
    a.range.start_byte < b.range.start_byte || (a.range.start_byte == b.range.start_byte
        && a.range.end_byte < b.range.end_byte)
}

/// An ordered sequence with one more edit, behind those that it does not
/// precede.
pub open spec fn inserted<'a>(s: Seq<&'a TextEdit>, e: &'a TextEdit) -> Seq<&'a TextEdit>
    decreases s.len(),
{
    if s.len() > 0 && precedes(e, s.last()) {
        inserted(s.drop_last(), e).push(s.last())
    } else {
        s.push(e)
    }
}

/// The first `n` edits that are for a file, in order.
#[verifier::opaque]
pub open spec fn ordered<'a>(edits: Seq<TextEdit>, n: int, id: FileId) -> Seq<&'a TextEdit>
    decreases n,
{
    if n <= 0 || n > edits.len() {
        seq![]
    } else if edits[n - 1].file_id == id {
        inserted(ordered(edits, n - 1, id), &edits[n - 1])
    } else {
        ordered(edits, n - 1, id)
    }
}

/// Whether an edit overlaps the next one.
pub open spec fn clash_at(s: Seq<&TextEdit>, i: int) -> bool {
    overlap(s[i].range, s[i + 1].range)
}

/// Whether neighbours overlap.
#[verifier::opaque]
pub open spec fn clash(s: Seq<&TextEdit>) -> bool {
    exists|i: int| 0 <= i < s.len() - 1 && #[trigger] clash_at(s, i)
}

/// A text with one range replaced.
pub open spec fn splice(text: Seq<char>, edit: &TextEdit) -> Seq<char> {
    text.take(index_at(text, edit.range.start_byte as nat)) + edit.replacement@ + text.skip(
        index_at(text, edit.range.end_byte as nat),
    )
}

/// A text with ordered edits applied from the right to the left.
#[verifier::opaque]
pub open spec fn edited(text: Seq<char>, s: Seq<&TextEdit>) -> Seq<char>
    decreases s.len(),
{
    if s.len() == 0 {
        text
    } else {
        edited(splice(text, s.last()), s.drop_last())
    }
}

/// The new texts of the files from `id` on, or the first file with
/// overlapping edits. Only edited files have a new text.
pub open spec fn staged(
    files: Seq<FileModel>,
    edits: Seq<TextEdit>,
    id: int,
    done: Seq<(FileId, Seq<char>)>,
    changed: Seq<FileId>,
) -> Result<(Seq<(FileId, Seq<char>)>, Seq<FileId>), FixError>
    decreases files.len() - id,
{
    if id < 0 || id >= files.len() {
        Ok((done, changed))
    } else {
        let file_id = FileId(id as usize);
        let s = ordered(edits, edits.len() as int, file_id);
        let text = files[id].1;
        if s.len() == 0 {
            staged(files, edits, id + 1, done, changed)
        } else if clash(s) {
            Err(FixError::OverlappingEdits { file_id })
        } else {
            staged(
                files,
                edits,
                id + 1,
                done.push((file_id, edited(text, s))),
                if edited(text, s) == text {
                    changed
                } else {
                    changed.push(file_id)
                },
            )
        }
    }
}

/// What applying edits gives: every edit is validated first, in order.
#[verifier::opaque]
pub open spec fn outcome(
    files: Seq<FileModel>,
    edits: Seq<TextEdit>,
    recovery: Seq<(FileId, SourceRange)>,
) -> Result<(Seq<(FileId, Seq<char>)>, Seq<FileId>), FixError> {
    match first_fault(files, edits, recovery, 0) {
        Some(e) => Err(e),
        None => staged(files, edits, 0, seq![], seq![]),
    }
}

fn edit_precedes(a: &TextEdit, b: &TextEdit) -> (r: bool)
    ensures
        r == precedes(a, b),
{
    a.range.start_byte < b.range.start_byte || (a.range.start_byte == b.range.start_byte
        && a.range.end_byte < b.range.end_byte)
}

/// Puts an edit into its place among ordered ones.
fn insert_edit<'a>(s: &mut Vec<&'a TextEdit>, e: &'a TextEdit)
    ensures
        final(s)@ == inserted(old(s)@, e),
    decreases old(s)@.len(),
{
    let n: usize = s.len();
    if n > 0 && edit_precedes(e, s[n - 1]) {
        match s.pop() {
            Some(last) => {
                assert(s@ =~= old(s)@.drop_last());
                insert_edit(s, e);
                s.push(last);
            },
            None => {},
        }
    } else {
        s.push(e);
    }
}

/// The edits for a file, in order.
fn edits_in_order<'a>(edits: &'a [TextEdit], id: FileId) -> (r: Vec<&'a TextEdit>)
    ensures
        r@ == ordered(edits@, edits@.len() as int, id),
{
    proof {
        reveal(ordered);
    }
    let mut out: Vec<&'a TextEdit> = Vec::new();
    let mut i: usize = 0;
    while i < edits.len()
        invariant
            i <= edits@.len(),
            out@ == ordered(edits@, i as int, id),
        decreases edits@.len() - i,
    {
        proof {
            reveal(ordered);
        }
        if edits[i].file_id == id {
            insert_edit(&mut out, &edits[i]);
        }
        i += 1;
    }
    out
}

fn has_clash(s: &Vec<&TextEdit>) -> (r: bool)
    ensures
        r == clash(s@),
{
    proof {
        reveal(clash);
    }
    let mut i: usize = 1;
    while i < s.len()
        invariant
            1 <= i,
            i <= s@.len() || s@.len() == 0,
            forall|j: int| 0 <= j < i - 1 ==> !#[trigger] clash_at(s@, j),
        decreases s@.len() - i,
    {
        proof {
            reveal(clash);
        }
        if ranges_overlap(s[i - 1].range, s[i].range) {
            assert(clash_at(s@, i - 1));
            return true;
        }
        i += 1;
    }
    false
}

/// A text with one range replaced.
fn spliced(text: &str, edit: &TextEdit) -> (r: String)
    ensures
        r@ == splice(text@, edit),
{
    let chars = chars_of(text);
    let (start, _) = char_index(&chars, edit.range.start_byte as u128);
    let (end, _) = char_index(&chars, edit.range.end_byte as u128);
    let mut out = string_of(&chars, 0, start);
    out.append(edit.replacement.as_str());
    out.append(string_of(&chars, end, chars.len()).as_str());
    assert(chars@.subrange(0, start as int) =~= chars@.take(start as int));
    assert(chars@.subrange(end as int, chars@.len() as int) =~= chars@.skip(end as int));
    out
}

/// A text with ordered edits applied from the right to the left.
fn edit_text(text: &str, s: &Vec<&TextEdit>) -> (r: String)
    ensures
        r@ == edited(text@, s@),
{
    proof {
        reveal(edited);
    }
    let mut out = text.to_owned();
    let mut n: usize = s.len();
    assert(s@.take(n as int) =~= s@);
    while n > 0
        invariant
            n <= s@.len(),
            edited(text@, s@) == edited(out@, s@.take(n as int)),
        decreases n,
    {
        proof {
            reveal(edited);
        }
        assert(s@.take(n as int).drop_last() =~= s@.take(n - 1));
        out = spliced(out.as_str(), s[n - 1]);
        n -= 1;
    }
    out
}

/// Applies machine-applicable edits without touching the filesystem.
pub fn apply_in_memory(files: &Files, edits: &[TextEdit], recovery: &RecoveryIntervals) -> (r: Result<
    AppliedEdits,
    FixError,
>)
    ensures
        match r {
            Ok(a) => outcome(files@, edits@, recovery.intervals@) == Ok::<
                (Seq<(FileId, Seq<char>)>, Seq<FileId>),
                FixError,
            >((a.files@, a.changed_files@)),
            Err(e) => outcome(files@, edits@, recovery.intervals@) == Err::<
                (Seq<(FileId, Seq<char>)>, Seq<FileId>),
                FixError,
            >(e),
        },
{
    proof {
        reveal(outcome);
        reveal(first_fault);
    }
    let mut i: usize = 0;
    while i < edits.len()
        invariant
            i <= edits@.len(),
            first_fault(files@, edits@, recovery.intervals@, 0) == first_fault(
                files@,
                edits@,
                recovery.intervals@,
                i as int,
            ),
        decreases edits@.len() - i,
    {
        proof {
            reveal(outcome);
            reveal(first_fault);
        }
        match validate_edit(files, &edits[i], recovery) {
            Err(e) => {
                return Err(e);
            },
            Ok(_) => {},
        }
        i += 1;
    }
    let mut entries: Vec<StagedFile> = Vec::new();
    let mut changed_files: Vec<FileId> = Vec::new();
    let mut id: usize = 0;
    assert(texts_of(entries@) =~= seq![]);
    while id < files.len()
        invariant
            id <= files@.len(),
            first_fault(files@, edits@, recovery.intervals@, 0) is None,
            staged(files@, edits@, 0, seq![], seq![]) == staged(
                files@,
                edits@,
                id as int,
                texts_of(entries@),
                changed_files@,
            ),
        decreases files@.len() - id,
    {
        proof {
            reveal(outcome);
            reveal(first_fault);
        }
        let file_id = FileId(id);
        let file_edits = edits_in_order(edits, file_id);
        if file_edits.len() > 0 {
            if has_clash(&file_edits) {
                return Err(FixError::OverlappingEdits { file_id });
            }
            let original = match files.source(file_id) {
                Some(original) => original,
                None => {
                    return Err(FixError::UnknownFile(file_id));
                },
            };
            assert(files@[id as int].1 == original@);
            let text = edit_text(original, &file_edits);
            if !same(text.as_str(), original) {
                changed_files.push(file_id);
            }
            let entry = StagedFile { file_id, text };
            proof {
                texts_of_push(entries@, entry);
            }
            entries.push(entry);
        }
        id += 1;
    }
    Ok(AppliedEdits { files: StagedFiles { entries }, changed_files })
}

/// Stages edits and validates the complete staged source set before returning
/// it. The callback is where the staged sources are analysed; it is asked only
/// when something changed.
pub fn apply_and_validate<F: FnOnce(&StagedFiles) -> Result<(), String>>(
    files: &Files,
    edits: &[TextEdit],
    recovery: &RecoveryIntervals,
    validate: F,
) -> (r: Result<AppliedEdits, FixError>)
    requires
        forall|s: &StagedFiles| #[trigger] validate.requires((s,)),
    ensures
        match outcome(files@, edits@, recovery.intervals@) {
            Err(e) => r == Err::<AppliedEdits, FixError>(e),
            Ok(done) => match r {
                Ok(a) => {
                    &&& (a.files@, a.changed_files@) == done
                    &&& done.1.len() > 0 ==> validate.ensures((&a.files,), Ok(()))
                },
                Err(e) => {
                    &&& done.1.len() > 0
                    &&& e is Transaction
                    &&& exists|s: StagedFiles|
                        s@ == done.0 && #[trigger] validate.ensures(
                            (&s,),
                            Err(e->Transaction_0),
                        )
                },
            },
        },
{
    let applied = match apply_in_memory(files, edits, recovery) {
        Ok(applied) => applied,
        Err(e) => {
            return Err(e);
        },
    };
    let changed = applied.changed_files.len() > 0;
    if changed {
        let verdict = validate(&applied.files);
        assert(validate.ensures((&applied.files,), verdict));
        match verdict {
            Ok(unit) => {
                assert(unit == ());
            },
            Err(message) => {
                let e = FixError::Transaction(message);
                assert(validate.ensures((&applied.files,), Err(e->Transaction_0)));
                return Err(e);
            },
        }
    }
    Ok(applied)
}

} // verus!
