//! What the order of diagnostics means for those who read them.

use crate::diagnostic::catalog::{number, DiagnosticCode};
use crate::diagnostic::files::FileModel;
use crate::diagnostic::order::{
    arranged, arranged_is_ordered, code_rank, key, key_of_labels, key_of_level,
    key_of_optional_text, key_of_text, less, less_from, less_is_irreflexive, path_of, place_of,
    sort_keys,
};
use crate::diagnostic::report::{text_of, Diagnostic, Level};
use vstd::prelude::*;

verus! {

/// Whether a text comes before another in a dictionary: it is the front of the
/// other, or has the smaller character at the first place where they differ.
pub open spec fn text_before(a: Seq<char>, b: Seq<char>) -> bool {
    exists|k: int| #[trigger] differs_at(a, b, k)
}

pub open spec fn differs_at(a: Seq<char>, b: Seq<char>, k: int) -> bool {
    &&& 0 <= k <= a.len()
    &&& k < b.len()
    &&& forall|i: int| 0 <= i < k ==> #[trigger] a[i] == b[i]
    &&& k == a.len() || (a[k] as u32) < (b[k] as u32)
}

/// The path that a diagnostic is shown under.
pub open spec fn shown_under(d: Diagnostic, files: Seq<FileModel>) -> Seq<char> {
    match d.file_id {
        Some(id) if id.0 < files.len() => files[id.0 as int].0,
        _ => seq![],
    }
}

/// Whether a diagnostic's first label starts in front of another's.
pub open spec fn starts_before(a: Diagnostic, b: Diagnostic) -> bool {
    &&& a.labels@.len() > 0
    &&& b.labels@.len() > 0
    &&& {
        ||| a.labels@[0].span.row_start < b.labels@[0].span.row_start
        ||| a.labels@[0].span.row_start == b.labels@[0].span.row_start
            && a.labels@[0].span.col_start < b.labels@[0].span.col_start
    }
}

/// Whether two diagnostics' first labels start at the same place.
pub open spec fn starts_with(a: Diagnostic, b: Diagnostic) -> bool {
    &&& a.labels@.len() > 0
    &&& b.labels@.len() > 0
    &&& a.labels@[0].span.row_start == b.labels@[0].span.row_start
    &&& a.labels@[0].span.col_start == b.labels@[0].span.col_start
}

/// Whether a diagnostic has a place and another has none. The last place of all
/// does not count.
pub open spec fn only_first_has_place(a: Diagnostic, b: Diagnostic) -> bool {
    &&& a.labels@.len() > 0
    &&& b.labels@.len() == 0
    &&& a.labels@[0].span.row_start < usize::MAX
}

/// The place of a code: by its number, but for the two codes with the last
/// numbers among the errors of the analysis, which come in front of the three
/// before them.
pub open spec fn code_place(code: DiagnosticCode) -> int {
    let n = number(code);
    if n == 312 || n == 313 {
        n - 3
    } else if n == 309 || n == 310 || n == 311 {
        n + 2
    } else {
        n
    }
}

/// Whether a diagnostic is to be read before another: by path, then by where
/// its first label starts, then errors before warnings, then by code, then by
/// message, then by help.
pub open spec fn read_first(a: Diagnostic, b: Diagnostic, files: Seq<FileModel>) -> bool {
    ||| text_before(shown_under(a, files), shown_under(b, files))
    ||| {
        &&& shown_under(a, files) == shown_under(b, files)
        &&& {
            ||| starts_before(a, b)
            ||| only_first_has_place(a, b)
            ||| {
                &&& starts_with(a, b) || (a.labels@.len() == 0 && b.labels@.len() == 0)
                &&& {
                    ||| a.level == Level::Error && b.level == Level::Warning
                    ||| a.level == b.level && code_place(a.code) < code_place(b.code)
                    ||| a.level == b.level && a.code == b.code && text_before(
                        a.message@,
                        b.message@,
                    )
                    ||| a.level == b.level && a.code == b.code && a.message@ == b.message@
                        && a.help is None && b.help is Some
                    ||| a.level == b.level && a.code == b.code && a.message@ == b.message@ && (
                    a.help is Some && b.help is Some && text_before(a.help->0@, b.help->0@))
                }
            }
        }
    }
}

/// A key that is the same up to a place and smaller there comes first.
proof fn smaller_at(a: Seq<u64>, b: Seq<u64>, j: int, i: int)
    requires
        0 <= j <= i < a.len(),
        i < b.len(),
        forall|k: int| j <= k < i ==> #[trigger] a[k] == b[k],
        a[i] < b[i],
    ensures
        less_from(a, b, j),
    decreases i - j,
{
    if j < i {
        smaller_at(a, b, j + 1, i);
    }
}

/// Keys with the same front: what a smaller text behind it means.
proof fn text_decides(
    a: Seq<u64>,
    b: Seq<u64>,
    front: Seq<u64>,
    s: Seq<char>,
    t: Seq<char>,
    a_rest: Seq<u64>,
    b_rest: Seq<u64>,
)
    requires
        a == front + key_of_text(s) + a_rest,
        b == front + key_of_text(t) + b_rest,
        text_before(s, t),
    ensures
        less(a, b),
{
    let k = choose|k: int| #[trigger] differs_at(s, t, k);
    let n = front.len() as int;
    assert(differs_at(s, t, k));
    assert forall|i: int| 0 <= i < n + k implies #[trigger] a[i] == b[i] by {
        if i >= n {
            assert(a[i] == key_of_text(s)[i - n]);
            assert(b[i] == key_of_text(t)[i - n]);
            assert(s[i - n] == t[i - n]);
        } else {
            assert(a[i] == front[i]);
            assert(b[i] == front[i]);
        }
    }
    assert(a[n + k] == key_of_text(s)[k]);
    assert(b[n + k] == key_of_text(t)[k]);
    smaller_at(a, b, 0, n + k);
}

/// A diagnostic's key up to its code.
spec fn key_head(d: Diagnostic, files: Seq<FileModel>) -> Seq<u64> {
    key_of_text(shown_under(d, files)) + place_of(d) + seq![key_of_level(d.level), code_rank(d.code)]
}

/// A diagnostic's key from its labels on.
spec fn key_tail(d: Diagnostic) -> Seq<u64> {
    key_of_labels(d.labels@, d.labels@.len() as int) + seq![0u64]
}

proof fn key_split(d: Diagnostic, files: Seq<FileModel>)
    ensures
        key(d, files) == key_head(d, files) + key_of_text(d.message@) + (key_of_optional_text(
            text_of(d.help),
        ) + key_tail(d)),
        key_head(d, files).len() == key_of_text(shown_under(d, files)).len() + 4,
{
    assert(path_of(d, files) =~= shown_under(d, files));
    assert(key(d, files) =~= key_head(d, files) + key_of_text(d.message@) + (key_of_optional_text(
        text_of(d.help),
    ) + key_tail(d)));
}

/// What a diagnostic's key holds up to its code.
proof fn key_parts(d: Diagnostic, files: Seq<FileModel>)
    ensures
        ({
            let k = key(d, files);
            let p = key_of_text(shown_under(d, files));
            let n = p.len() as int;
            &&& k.len() > n + 4
            &&& forall|i: int| 0 <= i < n ==> #[trigger] k[i] == p[i]
            &&& d.labels@.len() > 0 ==> k[n] == d.labels@[0].span.row_start && k[n + 1]
                == d.labels@[0].span.col_start
            &&& d.labels@.len() == 0 ==> k[n] == usize::MAX && k[n + 1] == usize::MAX
            &&& k[n + 2] == (if d.level == Level::Error {
                0u64
            } else {
                1u64
            })
            &&& k[n + 3] == code_rank(d.code)
        }),
{
    let k = key(d, files);
    let p = key_of_text(shown_under(d, files));
    let n = p.len() as int;
    key_split(d, files);
    let head = key_head(d, files);
    assert forall|i: int| 0 <= i < n + 4 implies #[trigger] k[i] == head[i] by {
    }
}

proof fn codes_rank_by_place(a: DiagnosticCode, b: DiagnosticCode)
    requires
        code_place(a) < code_place(b),
        a.level() == b.level(),
    ensures
        code_rank(a) < code_rank(b),
{
}

/// Between diagnostics that are alike up to their code, message and help decide.
proof fn texts_decide(a: Diagnostic, b: Diagnostic, files: Seq<FileModel>)
    requires
        key_head(a, files) == key_head(b, files),
        ({
            ||| text_before(a.message@, b.message@)
            ||| a.message@ == b.message@ && a.help is None && b.help is Some
            ||| a.message@ == b.message@ && a.help is Some && b.help is Some && text_before(
                a.help->0@,
                b.help->0@,
            )
        }),
    ensures
        less(key(a, files), key(b, files)),
{
    let x = key(a, files);
    let y = key(b, files);
    key_split(a, files);
    key_split(b, files);
    let front = key_head(a, files);
    let ha = key_of_optional_text(text_of(a.help));
    let hb = key_of_optional_text(text_of(b.help));
    if text_before(a.message@, b.message@) {
        text_decides(
            x,
            y,
            front,
            a.message@,
            b.message@,
            ha + key_tail(a),
            hb + key_tail(b),
        );
    } else {
        let whole = front + key_of_text(a.message@);
        let at = whole.len() as int;
        assert forall|i: int| 0 <= i < at implies #[trigger] x[i] == y[i] by {
            assert(x[i] == whole[i] && y[i] == whole[i]);
        }
        assert(x[at] == ha[0]);
        assert(y[at] == hb[0]);
        if a.help is None {
            smaller_at(x, y, 0, at);
        } else {
            let more = whole.push(1);
            assert(x =~= more + key_of_text(a.help->0@) + key_tail(a));
            assert(y =~= more + key_of_text(b.help->0@) + key_tail(b));
            text_decides(x, y, more, a.help->0@, b.help->0@, key_tail(a), key_tail(b));
        }
    }
}

/// Between diagnostics of different paths the paths decide.
proof fn paths_decide(a: Diagnostic, b: Diagnostic, files: Seq<FileModel>)
    requires
        text_before(shown_under(a, files), shown_under(b, files)),
    ensures
        less(key(a, files), key(b, files)),
{
    let x = key(a, files);
    let y = key(b, files);
    key_parts(a, files);
    key_parts(b, files);
    let pa = shown_under(a, files);
    let pb = shown_under(b, files);
    let n = key_of_text(pa).len() as int;
    let m = key_of_text(pb).len() as int;
    let none = Seq::<u64>::empty();
    assert(x =~= none + key_of_text(pa) + x.skip(n));
    assert(y =~= none + key_of_text(pb) + y.skip(m));
    text_decides(x, y, none, pa, pb, x.skip(n), y.skip(m));
}

/// Between diagnostics of the same path the place decides, and then the level
/// and the code.
proof fn places_decide(a: Diagnostic, b: Diagnostic, files: Seq<FileModel>)
    requires
        shown_under(a, files) == shown_under(b, files),
        ({
            ||| starts_before(a, b)
            ||| only_first_has_place(a, b)
            ||| {
                &&& starts_with(a, b) || (a.labels@.len() == 0 && b.labels@.len() == 0)
                &&& {
                    ||| a.level == Level::Error && b.level == Level::Warning
                    ||| a.level == b.level && code_rank(a.code) < code_rank(b.code)
                }
            }
        }),
    ensures
        less(key(a, files), key(b, files)),
{
    let x = key(a, files);
    let y = key(b, files);
    key_parts(a, files);
    key_parts(b, files);
    let p = key_of_text(shown_under(a, files));
    let n = p.len() as int;
    assert forall|i: int| 0 <= i < n implies #[trigger] x[i] == y[i] by {
        assert(x[i] == p[i]);
    }
    if x[n] != y[n] {
        smaller_at(x, y, 0, n);
    } else if x[n + 1] != y[n + 1] {
        smaller_at(x, y, 0, n + 1);
    } else if x[n + 2] != y[n + 2] {
        smaller_at(x, y, 0, n + 2);
    } else {
        smaller_at(x, y, 0, n + 3);
    }
}

/// The key of a diagnostic that is to be read first is the smaller one.
proof fn read_first_has_smaller_key(a: Diagnostic, b: Diagnostic, files: Seq<FileModel>)
    requires
        read_first(a, b, files),
        a.level == a.code.level(),
        b.level == b.code.level(),
    ensures
        less(key(a, files), key(b, files)),
{
    if text_before(shown_under(a, files), shown_under(b, files)) {
        paths_decide(a, b, files);
    } else if starts_before(a, b) || only_first_has_place(a, b) || (a.level == Level::Error
        && b.level == Level::Warning) {
        places_decide(a, b, files);
    } else if code_place(a.code) < code_place(b.code) {
        codes_rank_by_place(a.code, b.code);
        places_decide(a, b, files);
    } else {
        assert(key_head(a, files) =~= key_head(b, files));
        texts_decide(a, b, files);
    }
}

/// Of two diagnostics, the one that is to be read first stands in front: by
/// path, by row, by column, by severity, by code, by message and by help. The
/// diagnostics' levels are those of their codes.
pub proof fn diagnostics_come_in_reading_order(
    ds: Seq<Diagnostic>,
    files: Seq<FileModel>,
    i: int,
    j: int,
)
    requires
        0 <= i < ds.len(),
        0 <= j < ds.len(),
        ({
            let order = arranged(sort_keys(ds, files), ds.len() as int);
            let a = ds[order[i]];
            let b = ds[order[j]];
            &&& read_first(a, b, files)
            &&& a.level == a.code.level()
            &&& b.level == b.code.level()
        }),
    ensures
        i < j,
{
    let keys = sort_keys(ds, files);
    let order = arranged(keys, ds.len() as int);
    arranged_is_ordered(keys, ds.len() as int);
    crate::driver::sorting::arranged_in_range(keys, ds.len() as int);
    assert(0 <= order[i] < ds.len());
    assert(0 <= order[j] < ds.len());
    let a = ds[order[i]];
    let b = ds[order[j]];
    read_first_has_smaller_key(a, b, files);
    assert(keys[order[i]] == key(a, files));
    assert(keys[order[j]] == key(b, files));
    if j < i {
        assert(!less(keys[order[i]], keys[order[j]]));
    } else if i == j {
        less_is_irreflexive(keys[order[i]], 0);
    }
}

/// Of two diagnostics of the same file, the one whose first label starts on an
/// earlier row, or on the same row in an earlier column, stands in front.
pub proof fn diagnostics_come_in_source_order(
    ds: Seq<Diagnostic>,
    files: Seq<FileModel>,
    i: int,
    j: int,
)
    requires
        0 <= i < ds.len(),
        0 <= j < ds.len(),
        ({
            let order = arranged(sort_keys(ds, files), ds.len() as int);
            let a = ds[order[i]];
            let b = ds[order[j]];
            &&& a.file_id == b.file_id
            &&& starts_before(a, b)
        }),
    ensures
        i < j,
{
    let keys = sort_keys(ds, files);
    let order = arranged(keys, ds.len() as int);
    arranged_is_ordered(keys, ds.len() as int);
    crate::driver::sorting::arranged_in_range(keys, ds.len() as int);
    assert(0 <= order[i] < ds.len());
    assert(0 <= order[j] < ds.len());
    let a = ds[order[i]];
    let b = ds[order[j]];
    places_decide(a, b, files);
    let x = key(a, files);
    let y = key(b, files);
    assert(keys[order[i]] == x);
    assert(keys[order[j]] == y);
    if j < i {
        assert(!less(keys[order[i]], keys[order[j]]));
    } else if i == j {
        less_is_irreflexive(keys[order[i]], 0);
    }
}

/// Every diagnostic is presented.
pub proof fn every_diagnostic_is_presented(
    ds: Seq<Diagnostic>,
    files: Seq<FileModel>,
    d: int,
)
    requires
        0 <= d < ds.len(),
    ensures
        arranged(sort_keys(ds, files), ds.len() as int).contains(d),
{
    broadcast use vstd::seq_lib::group_to_multiset_ensures;
    let keys = sort_keys(ds, files);
    let n = ds.len() as int;
    arranged_is_ordered(keys, n);
    let all = Seq::new(n as nat, |i: int| i);
    assert(all[d] == d);
    assert(all.contains(d));
    assert(all.to_multiset().count(d) > 0);
}

} // verus!
