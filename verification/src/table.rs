//! Tables by name, splitting of paths, and sets of names in order.

use crate::text::{chars_of, same, string_of};
use vstd::prelude::*;

verus! {

/// A value under a name.
#[derive(Debug)]
pub struct Entry<T> {
    pub key: String,
    pub value: T,
}

/// The value under a name.
pub open spec fn entry_at<T>(s: Seq<Entry<T>>, key: Seq<char>) -> Option<T>
    decreases s.len(),
{
    if s.len() == 0 {
        None
    } else if s[0].key@ == key {
        Some(s[0].value)
    } else {
        entry_at(s.drop_first(), key)
    }
}

/// The value under a name.
pub fn find_entry<'t, T>(table: &'t Vec<Entry<T>>, key: &str) -> (r: Option<&'t T>)
    ensures
        match r {
            Some(v) => entry_at(table@, key@) == Some(*v),
            None => entry_at(table@, key@) is None,
        },
{
    let mut i: usize = 0;
    let ghost all = table@;
    assert(all.skip(0) =~= all);
    while i < table.len()
        invariant
            i <= all.len(),
            all == table@,
            entry_at(all, key@) == entry_at(all.skip(i as int), key@),
        decreases all.len() - i,
    {
        assert(all.skip(i as int)[0] == all[i as int]);
        assert(all.skip(i as int).drop_first() =~= all.skip(i + 1));
        if same(table[i].key.as_str(), key) {
            return Some(&table[i].value);
        }
        i += 1;
    }
    None
}

/// Whether a table is another one with a value put under a name.
pub open spec fn put<T>(after: Seq<Entry<T>>, before: Seq<Entry<T>>, key: Seq<char>, value: T) -> bool {
    forall|k: Seq<char>| #[trigger]
        entry_at(after, k) == (if k == key {
            Some(value)
        } else {
            entry_at(before, k)
        })
}

/// Puts a value under a name, in place of what was there.
pub fn put_entry<T>(table: &mut Vec<Entry<T>>, key: &str, value: T)
    ensures
        put(final(table)@, old(table)@, key@, value),
{
    let ghost before = table@;
    let entry = Entry { key: key.to_owned(), value };
    table.insert(0, entry);
    assert(table@[0] == entry);
    assert(table@.drop_first() =~= before);
}

/// Whether names hold one.
pub open spec fn holds(names: Seq<String>, name: Seq<char>) -> bool {
    exists|i: int| 0 <= i < names.len() && (#[trigger] names[i])@ == name
}

pub fn has(names: &Vec<String>, name: &str) -> (r: bool)
    ensures
        r == holds(names@, name@),
{
    let mut i: usize = 0;
    while i < names.len()
        invariant
            i <= names@.len(),
            forall|j: int| 0 <= j < i ==> (#[trigger] names@[j])@ != name@,
        decreases names@.len() - i,
    {
        if same(names[i].as_str(), name) {
            return true;
        }
        i += 1;
    }
    false
}

/// Adds a name.
pub fn insert_name(names: &mut Vec<String>, name: &str)
    ensures
        forall|k: Seq<char>| #[trigger]
            holds(final(names)@, k) == (k == name@ || holds(old(names)@, k)),
{
    let ghost before = names@;
    names.push(name.to_owned());
    assert forall|k: Seq<char>| #[trigger] holds(names@, k) == (k == name@ || holds(before, k)) by {
        if holds(before, k) {
            let i = choose|i: int| 0 <= i < before.len() && (#[trigger] before[i])@ == k;
            assert(names@[i]@ == k);
        }
        if k == name@ {
            assert(names@[before.len() as int]@ == k);
        }
        if holds(names@, k) {
            let i = choose|i: int| 0 <= i < names@.len() && (#[trigger] names@[i])@ == k;
            if i < before.len() {
                assert(before[i]@ == k);
            }
        }
    }
}

/// Takes a name out.
pub fn remove_name(names: &mut Vec<String>, name: &str)
    ensures
        forall|k: Seq<char>| #[trigger]
            holds(final(names)@, k) == (k != name@ && holds(old(names)@, k)),
{
    let mut kept: Vec<String> = Vec::new();
    let mut i: usize = 0;
    let ghost all = names@;
    while i < names.len()
        invariant
            i <= names@.len(),
            all == names@,
            forall|k: Seq<char>| #[trigger]
                holds(kept@, k) == (k != name@ && holds(all.take(i as int), k)),
        decreases names@.len() - i,
    {
        let ghost before = kept@;
        let ghost front = all.take(i as int);
        let ghost more = all.take(i + 1);
        assert(more =~= front.push(all[i as int]));
        assert forall|k: Seq<char>| #[trigger]
            holds(more, k) == (holds(front, k) || k == all[i as int]@) by {
            if holds(front, k) {
                let j = choose|j: int| 0 <= j < front.len() && (#[trigger] front[j])@ == k;
                assert(more[j]@ == k);
            }
            if k == all[i as int]@ {
                assert(more[i as int]@ == k);
            }
            if holds(more, k) {
                let j = choose|j: int| 0 <= j < more.len() && (#[trigger] more[j])@ == k;
                if j < i {
                    assert(front[j]@ == k);
                }
            }
        }
        if !same(names[i].as_str(), name) {
            insert_name(&mut kept, names[i].as_str());
        }
        i += 1;
    }
    assert(all.take(i as int) =~= all);
    *names = kept;
}

/// Whether a text begins with another.
pub fn starts_with(text: &str, prefix: &str) -> (r: bool)
    ensures
        r == prefix@.is_prefix_of(text@),
{
    strip_prefix(text, prefix).is_some()
}

/// What follows a prefix.
pub fn strip_prefix(text: &str, prefix: &str) -> (r: Option<String>)
    ensures
        match r {
            Some(rest) => prefix@.is_prefix_of(text@) && rest@ == text@.skip(prefix@.len() as int),
            None => !prefix@.is_prefix_of(text@),
        },
{
    let t = chars_of(text);
    let p = chars_of(prefix);
    if p.len() > t.len() {
        return None;
    }
    let mut i: usize = 0;
    while i < p.len()
        invariant
            i <= p@.len() <= t@.len(),
            p@ == prefix@,
            t@ == text@,
            forall|j: int| 0 <= j < i ==> p@[j] == t@[j],
        decreases p@.len() - i,
    {
        if p[i] != t[i] {
            assert(text@.take(prefix@.len() as int)[i as int] == t@[i as int]);
            return None;
        }
        i += 1;
    }
    assert(prefix@ =~= text@.take(prefix@.len() as int));
    assert(text@.skip(prefix@.len() as int) =~= t@.subrange(p@.len() as int, t@.len() as int));
    Some(string_of(&t, p.len(), t.len()))
}

/// The parts of a text between separators, from offset `p` on; the part that
/// is being read started at `from`.
pub open spec fn parts_from(s: Seq<char>, sep: char, from: int, p: int) -> Seq<Seq<char>>
    decreases s.len() - p,
{
    if p < 0 || p >= s.len() {
        seq![s.subrange(from, s.len() as int)]
    } else if s[p] == sep {
        seq![s.subrange(from, p)] + parts_from(s, sep, p + 1, p + 1)
    } else {
        parts_from(s, sep, from, p + 1)
    }
}

/// The parts of a text between separators. There is always at least one.
pub open spec fn parts(s: Seq<char>, sep: char) -> Seq<Seq<char>> {
    parts_from(s, sep, 0, 0)
}

/// Texts as mathematical values.
pub open spec fn views(v: Seq<String>) -> Seq<Seq<char>> {
    Seq::new(v.len(), |i: int| v[i]@)
}

/// The parts of a text between separators.
pub fn split(text: &str, sep: char) -> (r: Vec<String>)
    ensures
        views(r@) == parts(text@, sep),
{
    let chars = chars_of(text);
    let ghost s = text@;
    let mut out: Vec<String> = Vec::new();
    let mut from: usize = 0;
    let mut p: usize = 0;
    assert(views(out@) + parts_from(s, sep, 0, 0) =~= parts(s, sep));
    while p < chars.len()
        invariant
            from <= p <= chars@.len(),
            chars@ == s,
            views(out@) + parts_from(s, sep, from as int, p as int) == parts(s, sep),
        decreases chars@.len() - p,
    {
        if chars[p] == sep {
            let ghost before = views(out@);
            out.push(string_of(&chars, from, p));
            assert(views(out@) =~= before.push(s.subrange(from as int, p as int)));
            assert(views(out@) + parts_from(s, sep, p + 1, p + 1) =~= before + parts_from(
                s,
                sep,
                from as int,
                p as int,
            ));
            from = p + 1;
        }
        p += 1;
    }
    let ghost before = views(out@);
    out.push(string_of(&chars, from, chars.len()));
    assert(views(out@) =~= before + parts_from(s, sep, from as int, p as int));
    out
}

/// Texts joined by another.
pub open spec fn joined(v: Seq<Seq<char>>, between: Seq<char>) -> Seq<char>
    decreases v.len(),
{
    if v.len() == 0 {
        seq![]
    } else if v.len() == 1 {
        v[0]
    } else {
        joined(v.drop_last(), between) + between + v.last()
    }
}

/// Joins texts.
pub fn join(v: &Vec<String>, between: &str) -> (r: String)
    ensures
        r@ == joined(views(v@), between@),
{
    let ghost all = views(v@);
    let mut out = String::new();
    let mut i: usize = 0;
    assert(all.take(0) =~= seq![]);
    assert(out@ =~= seq![]);
    while i < v.len()
        invariant
            i <= v@.len(),
            all == views(v@),
            out@ == joined(all.take(i as int), between@),
        decreases v@.len() - i,
    {
        assert(all.take(i + 1).drop_last() =~= all.take(i as int));
        if i > 0 {
            out.append(between);
        }
        out.append(v[i].as_str());
        assert(out@ =~= joined(all.take(i + 1), between@));
        i += 1;
    }
    assert(all.take(i as int) =~= all);
    out
}

/// Whether a text comes before another, character by character from `i` on.
pub open spec fn text_less_from(a: Seq<char>, b: Seq<char>, i: int) -> bool
    decreases a.len() - i,
{
    if i < 0 || i >= b.len() {
        false
    } else if i >= a.len() {
        true
    } else if a[i] != b[i] {
        a[i] < b[i]
    } else {
        text_less_from(a, b, i + 1)
    }
}

/// Whether a text comes before another.
pub open spec fn text_less(a: Seq<char>, b: Seq<char>) -> bool {
    text_less_from(a, b, 0)
}

fn is_less(a: &str, b: &str) -> (r: bool)
    ensures
        r == text_less(a@, b@),
{
    let x = chars_of(a);
    let y = chars_of(b);
    let mut i: usize = 0;
    while i < x.len() && i < y.len() && x[i] == y[i]
        invariant
            i <= x@.len(),
            i <= y@.len(),
            x@ == a@,
            y@ == b@,
            text_less(a@, b@) == text_less_from(a@, b@, i as int),
        decreases x@.len() - i,
    {
        i += 1;
    }
    if i >= y.len() {
        false
    } else if i >= x.len() {
        true
    } else {
        x[i] < y[i]
    }
}

proof fn text_less_transitive(a: Seq<char>, b: Seq<char>, c: Seq<char>, i: int)
    requires
        0 <= i,
        text_less_from(a, b, i),
        text_less_from(b, c, i),
    ensures
        text_less_from(a, c, i),
    decreases a.len() - i,
{
    if i < a.len() && i < b.len() && i < c.len() && a[i] == b[i] && b[i] == c[i] {
        text_less_transitive(a, b, c, i + 1);
    }
}

proof fn text_less_total(a: Seq<char>, b: Seq<char>, i: int)
    requires
        0 <= i <= a.len(),
        i <= b.len(),
        forall|k: int| 0 <= k < i ==> a[k] == b[k],
    ensures
        text_less_from(a, b, i) || text_less_from(b, a, i) || a == b,
    decreases a.len() - i,
{
    if i < a.len() && i < b.len() && a[i] == b[i] {
        text_less_total(a, b, i + 1);
    } else if i >= a.len() && i >= b.len() {
        assert(a =~= b);
    }
}

/// Names in order, each once.
pub open spec fn rising(v: Seq<String>) -> bool {
    forall|i: int, j: int|
        0 <= i < j < v.len() ==> text_less((#[trigger] v[i])@, (#[trigger] v[j])@)
}

/// Adds a name to names in order, where it is not among them.
pub fn insert_sorted(names: &mut Vec<String>, name: &str)
    requires
        rising(old(names)@),
    ensures
        rising(final(names)@),
        forall|k: Seq<char>| #[trigger]
            holds(final(names)@, k) == (k == name@ || holds(old(names)@, k)),
        final(names)@.len() > 0,
{
    let ghost all = names@;
    let mut i: usize = 0;
    while i < names.len() && is_less(names[i].as_str(), name)
        invariant
            i <= names@.len(),
            names@ == all,
            forall|j: int| 0 <= j < i ==> text_less((#[trigger] all[j])@, name@),
        decreases names@.len() - i,
    {
        i += 1;
    }
    if i < names.len() && same(names[i].as_str(), name) {
        assert(all[i as int]@ == name@);
        return;
    }
    let s = name.to_owned();
    names.insert(i, s);
    proof {
        let now = names@;
        assert(now =~= all.insert(i as int, s));
        if i < all.len() {
            text_less_total(all[i as int]@, name@, 0);
        }
        assert forall|a: int, b: int| 0 <= a < b < now.len() implies text_less(
            (#[trigger] now[a])@,
            (#[trigger] now[b])@,
        ) by {
            let x = if a < i {
                a
            } else {
                a - 1
            };
            let y = if b < i {
                b
            } else {
                b - 1
            };
            if a != i && b != i {
                assert(now[a] == all[x] && now[b] == all[y]);
            } else if b == i {
                assert(now[a] == all[a]);
            } else {
                assert(now[b] == all[y]);
                if y > i {
                    assert(text_less(all[i as int]@, all[y]@));
                    text_less_transitive(name@, all[i as int]@, all[y]@, 0);
                }
            }
        }
        assert forall|k: Seq<char>| #[trigger] holds(now, k) == (k == name@ || holds(all, k)) by {
            if holds(all, k) {
                let j = choose|j: int| 0 <= j < all.len() && (#[trigger] all[j])@ == k;
                if j < i {
                    assert(now[j]@ == k);
                } else {
                    assert(now[j + 1]@ == k);
                }
            }
            if k == name@ {
                assert(now[i as int]@ == k);
            }
            if holds(now, k) {
                let j = choose|j: int| 0 <= j < now.len() && (#[trigger] now[j])@ == k;
                if j < i {
                    assert(all[j]@ == k);
                } else if j > i {
                    assert(all[j - 1]@ == k);
                }
            }
        }
    }
}

} // verus!
