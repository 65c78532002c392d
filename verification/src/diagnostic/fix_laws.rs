//! What holds of applied edits.

use crate::diagnostic::edit::{SourceRange, TextEdit};
use crate::diagnostic::files::{FileId, FileModel};
use crate::diagnostic::fix::{
    clash, clash_at, edit_fault, edited, first_fault, index_at, index_from, inserted, ordered,
    precedes, splice, valid_range,
};
use crate::text::{byte_len, byte_len_adds};
use vstd::prelude::*;

verus! {

/// No edit comes before one that stands in front of it.
pub open spec fn sorted(s: Seq<&TextEdit>) -> bool {
    forall|i: int, j: int| 0 <= i < j < s.len() ==> !precedes(#[trigger] s[j], #[trigger] s[i])
}

proof fn inserted_members(s: Seq<&TextEdit>, e: &TextEdit)
    ensures
        inserted(s, e).len() == s.len() + 1,
        inserted(s, e).to_multiset() == s.to_multiset().insert(e),
    decreases s.len(),
{
    broadcast use vstd::seq_lib::group_to_multiset_ensures;
    if s.len() > 0 && precedes(e, s.last()) {
        inserted_members(s.drop_last(), e);
        assert(s =~= s.drop_last().push(s.last()));
        assert(inserted(s, e) == inserted(s.drop_last(), e).push(s.last()));
        assert(inserted(s, e).to_multiset() =~= s.to_multiset().insert(e));
    }
}

proof fn inserted_is_sorted(s: Seq<&TextEdit>, e: &TextEdit)
    requires
        sorted(s),
    ensures
        sorted(inserted(s, e)),
        forall|i: int|
            0 <= i < inserted(s, e).len() ==> (#[trigger] inserted(s, e)[i]) == e || s.contains(
                inserted(s, e)[i],
            ),
    decreases s.len(),
{
    if s.len() > 0 && precedes(e, s.last()) {
        let front = s.drop_last();
        assert forall|i: int, j: int| 0 <= i < j < front.len() implies !precedes(
            #[trigger] front[j],
            #[trigger] front[i],
        ) by {
            assert(front[i] == s[i] && front[j] == s[j]);
        }
        inserted_is_sorted(front, e);
        let r = inserted(s, e);
        let f = inserted(front, e);
        inserted_members(front, e);
        assert forall|i: int| 0 <= i < r.len() implies (#[trigger] r[i]) == e || s.contains(
            r[i],
        ) by {
            if i < f.len() {
                assert(r[i] == f[i]);
                if f[i] != e {
                    let k = choose|k: int| 0 <= k < front.len() && front[k] == f[i];
                    assert(s[k] == f[i]);
                }
            } else {
                assert(r[i] == s[s.len() - 1]);
            }
        }
        assert forall|i: int, j: int| 0 <= i < j < r.len() implies !precedes(
            #[trigger] r[j],
            #[trigger] r[i],
        ) by {
            if j < f.len() {
                assert(r[i] == f[i] && r[j] == f[j]);
            } else {
                assert(r[j] == s.last());
                assert(r[i] == f[i]);
                if f[i] != e {
                    let k = choose|k: int| 0 <= k < front.len() && front[k] == f[i];
                    assert(!precedes(s[s.len() - 1], s[k]));
                }
            }
        }
    } else {
        let r = inserted(s, e);
        assert forall|i: int| 0 <= i < r.len() implies (#[trigger] r[i]) == e || s.contains(
            r[i],
        ) by {
            if i < s.len() {
                assert(r[i] == s[i]);
            }
        }
        assert forall|i: int, j: int| 0 <= i < j < r.len() implies !precedes(
            #[trigger] r[j],
            #[trigger] r[i],
        ) by {
            if j < s.len() {
                assert(r[i] == s[i] && r[j] == s[j]);
            } else {
                assert(r[j] == e);
                assert(r[i] == s[i]);
                if i < s.len() - 1 {
                    assert(!precedes(s[s.len() - 1], s[i]));
                }
            }
        }
    }
}

/// The edits for a file come in order, and they are the edits for that file.
pub proof fn ordered_edits_are_sorted(edits: Seq<TextEdit>, n: int, id: FileId)
    ensures
        sorted(ordered(edits, n, id)),
        forall|i: int|
            0 <= i < ordered(edits, n, id).len() ==> edits.contains(
                *(#[trigger] ordered(edits, n, id)[i]),
            ) && ordered(edits, n, id)[i].file_id == id,
    decreases n,
{
    reveal(ordered);
    if 0 < n <= edits.len() {
        ordered_edits_are_sorted(edits, n - 1, id);
        let before = ordered(edits, n - 1, id);
        if edits[n - 1].file_id == id {
            inserted_is_sorted(before, &edits[n - 1]);
            let r = ordered(edits, n, id);
            assert forall|i: int| 0 <= i < r.len() implies edits.contains(*(#[trigger] r[i]))
                && r[i].file_id == id by {
                if r[i] == &edits[n - 1] {
                    assert(edits[n - 1] == *r[i]);
                } else {
                    let k = choose|k: int| 0 <= k < before.len() && before[k] == r[i];
                    assert(edits.contains(*before[k]));
                }
            }
        }
    }
}

/// Each range ends before the next one starts.
pub open spec fn apart(s: Seq<&TextEdit>) -> bool {
    &&& forall|i: int|
        0 <= i < s.len() ==> (#[trigger] s[i]).range.start_byte <= s[i].range.end_byte
    &&& forall|i: int, j: int|
        0 <= i < j < s.len() ==> (#[trigger] s[i]).range.end_byte <= (#[trigger] s[j]).range.start_byte
}

proof fn sorted_without_clash_step(s: Seq<&TextEdit>, i: int)
    requires
        sorted(s),
        !clash(s),
        0 <= i < s.len() - 1,
        s[i].range.start_byte <= s[i].range.end_byte,
        s[i + 1].range.start_byte <= s[i + 1].range.end_byte,
    ensures
        s[i].range.end_byte <= s[i + 1].range.start_byte,
{
    reveal(clash);
    assert(!clash_at(s, i));
    assert(!precedes(s[i + 1], s[i]));
}

proof fn sorted_without_clash(s: Seq<&TextEdit>, i: int, j: int)
    requires
        sorted(s),
        !clash(s),
        forall|k: int|
            0 <= k < s.len() ==> (#[trigger] s[k]).range.start_byte <= s[k].range.end_byte,
        0 <= i < j < s.len(),
    ensures
        s[i].range.end_byte <= s[j].range.start_byte,
    decreases j - i,
{
    sorted_without_clash_step(s, j - 1);
    if i < j - 1 {
        sorted_without_clash(s, i, j - 1);
    }
}

/// Ordered edits of which no neighbours overlap do not overlap at all.
pub proof fn neighbours_suffice(s: Seq<&TextEdit>)
    requires
        sorted(s),
        !clash(s),
        forall|k: int|
            0 <= k < s.len() ==> (#[trigger] s[k]).range.start_byte <= s[k].range.end_byte,
    ensures
        apart(s),
{
    assert forall|i: int, j: int| 0 <= i < j < s.len() implies (
    #[trigger] s[i]).range.end_byte <= (#[trigger] s[j]).range.start_byte by {
        sorted_without_clash(s, i, j);
    }
}

/// A text with all ranges replaced at once: what stands between two ranges
/// stays as it is.
pub open spec fn rewritten(text: Seq<char>, s: Seq<&TextEdit>) -> Seq<char>
    decreases s.len(),
{
    if s.len() == 0 {
        text
    } else {
        let e = s.last();
        rewritten(text.take(index_at(text, e.range.start_byte as nat)), s.drop_last())
            + e.replacement@ + text.skip(index_at(text, e.range.end_byte as nat))
    }
}

proof fn index_in_prefix(p: Seq<char>, q: Seq<char>, i: int, b: nat)
    requires
        0 <= i <= p.len(),
        b <= byte_len(p),
    ensures
        index_from(p + q, i, byte_len(p.take(i)), b) == index_from(p, i, byte_len(p.take(i)), b),
        i <= index_from(p, i, byte_len(p.take(i)), b) <= p.len(),
        byte_len(p.take(index_from(p, i, byte_len(p.take(i)), b))) >= b,
    decreases p.len() - i,
{
    if i == p.len() {
        assert(p.take(i) =~= p);
    } else if byte_len(p.take(i)) < b {
        assert(p.take(i + 1).drop_last() =~= p.take(i));
        assert((p + q)[i] == p[i]);
        index_in_prefix(p, q, i + 1, b);
    }
}

proof fn index_prefix(p: Seq<char>, q: Seq<char>, b: nat)
    requires
        b <= byte_len(p),
    ensures
        index_at(p + q, b) == index_at(p, b),
        0 <= index_at(p, b) <= p.len(),
        byte_len(p.take(index_at(p, b))) >= b,
{
    assert(p.take(0) =~= seq![]);
    index_in_prefix(p, q, 0, b);
}

proof fn edited_in_prefix(p: Seq<char>, q: Seq<char>, s: Seq<&TextEdit>)
    requires
        apart(s),
        s.len() > 0 ==> s.last().range.end_byte <= byte_len(p),
    ensures
        edited(p + q, s) == edited(p, s) + q,
    decreases s.len(),
{
    reveal(edited);
    if s.len() > 0 {
        let e = s.last();
        assert(s[s.len() - 1].range.start_byte <= s[s.len() - 1].range.end_byte);
        let a = index_at(p, e.range.start_byte as nat);
        let b = index_at(p, e.range.end_byte as nat);
        index_prefix(p, q, e.range.start_byte as nat);
        index_prefix(p, q, e.range.end_byte as nat);
        assert((p + q).take(a) =~= p.take(a));
        assert((p + q).skip(b) =~= p.skip(b) + q);
        assert(splice(p + q, e) =~= splice(p, e) + q);
        byte_len_adds(p.take(a) + e.replacement@, p.skip(b));
        byte_len_adds(p.take(a), e.replacement@);
        let rest = s.drop_last();
        assert(apart(rest)) by {
            assert forall|i: int, j: int| 0 <= i < j < rest.len() implies (
            #[trigger] rest[i]).range.end_byte <= (#[trigger] rest[j]).range.start_byte by {
                assert(rest[i] == s[i] && rest[j] == s[j]);
            }
            assert forall|i: int| 0 <= i < rest.len() implies (
            #[trigger] rest[i]).range.start_byte <= rest[i].range.end_byte by {
                assert(rest[i] == s[i]);
            }
        }
        if rest.len() > 0 {
            assert(rest.last() == s[s.len() - 2]);
            assert(s[s.len() - 2].range.end_byte <= s[s.len() - 1].range.start_byte);
        }
        edited_in_prefix(splice(p, e), q, rest);
    }
}

/// Applying edits that do not overlap from the right to the left replaces all
/// ranges at once.
pub proof fn right_to_left_is_simultaneous(text: Seq<char>, s: Seq<&TextEdit>)
    requires
        apart(s),
        s.len() > 0 ==> s.last().range.end_byte <= byte_len(text),
    ensures
        edited(text, s) == rewritten(text, s),
    decreases s.len(),
{
    reveal(edited);
    if s.len() > 0 {
        let e = s.last();
        assert(s[s.len() - 1].range.start_byte <= s[s.len() - 1].range.end_byte);
        let a = index_at(text, e.range.start_byte as nat);
        let b = index_at(text, e.range.end_byte as nat);
        index_prefix(text, seq![], e.range.start_byte as nat);
        index_prefix(text, seq![], e.range.end_byte as nat);
        let p = text.take(a);
        let q = e.replacement@ + text.skip(b);
        assert(splice(text, e) =~= p + q);
        let rest = s.drop_last();
        assert(apart(rest)) by {
            assert forall|i: int, j: int| 0 <= i < j < rest.len() implies (
            #[trigger] rest[i]).range.end_byte <= (#[trigger] rest[j]).range.start_byte by {
                assert(rest[i] == s[i] && rest[j] == s[j]);
            }
            assert forall|i: int| 0 <= i < rest.len() implies (
            #[trigger] rest[i]).range.start_byte <= rest[i].range.end_byte by {
                assert(rest[i] == s[i]);
            }
        }
        if rest.len() > 0 {
            assert(rest.last() == s[s.len() - 2]);
            assert(s[s.len() - 2].range.end_byte <= s[s.len() - 1].range.start_byte);
        }
        edited_in_prefix(p, q, rest);
        right_to_left_is_simultaneous(p, rest);
        assert(rewritten(p, rest) + q =~= rewritten(p, rest) + e.replacement@ + text.skip(b));
    }
}

proof fn no_fault_means_valid(
    files: Seq<FileModel>,
    edits: Seq<TextEdit>,
    recovery: Seq<(FileId, SourceRange)>,
    i: int,
    k: int,
)
    requires
        0 <= i <= k < edits.len(),
        first_fault(files, edits, recovery, i) is None,
    ensures
        edit_fault(files, edits[k], recovery) is None,
    decreases edits.len() - i,
{
    reveal(first_fault);
    if i < k {
        no_fault_means_valid(files, edits, recovery, i + 1, k);
    }
}

/// Where applying edits succeeds, the new text of a file is its old text with
/// the ranges of its edits replaced at once, and everything else kept.
pub proof fn applied_edits_keep_the_rest(
    files: Seq<FileModel>,
    edits: Seq<TextEdit>,
    recovery: Seq<(FileId, SourceRange)>,
    id: FileId,
)
    requires
        id.0 < files.len(),
        first_fault(files, edits, recovery, 0) is None,
        !clash(ordered(edits, edits.len() as int, id)),
    ensures
        edited(files[id.0 as int].1, ordered(edits, edits.len() as int, id)) == rewritten(
            files[id.0 as int].1,
            ordered(edits, edits.len() as int, id),
        ),
{
    let s = ordered(edits, edits.len() as int, id);
    let text = files[id.0 as int].1;
    ordered_edits_are_sorted(edits, edits.len() as int, id);
    assert forall|k: int| 0 <= k < s.len() implies (
    #[trigger] s[k]).range.start_byte <= s[k].range.end_byte && s[k].range.end_byte <= byte_len(
        text,
    ) by {
        let e = *s[k];
        let j = choose|j: int| 0 <= j < edits.len() && edits[j] == e;
        no_fault_means_valid(files, edits, recovery, 0, j);
        assert(valid_range(text, e.range));
    }
    neighbours_suffice(s);
    if s.len() > 0 {
        assert(s[s.len() - 1].range.end_byte <= byte_len(text));
    }
    right_to_left_is_simultaneous(text, s);
}

} // verus!
