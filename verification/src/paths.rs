//! Paths of files, by the names that they are made of.
//!
//! Two texts are the same path where they have the same names: separators that
//! follow one another count once, and a `.` behind the first name counts for
//! nothing.

use crate::table::{join, joined, parts, parts_from, split, views};
use crate::text::same;
use vstd::prelude::*;

verus! {

/// Whether a path starts at the root.
pub open spec fn absolute(path: Seq<char>) -> bool {
    path.len() > 0 && path[0] == '/'
}

/// Whether a part between separators is a name of the path.
pub open spec fn is_name(ps: Seq<Seq<char>>, i: int) -> bool {
    ps[i].len() > 0 && (i == 0 || ps[i] != "."@)
}

/// The names among the parts from `i` on.
pub open spec fn names_from(ps: Seq<Seq<char>>, i: int) -> Seq<Seq<char>>
    decreases ps.len() - i,
{
    if i < 0 || i >= ps.len() {
        seq![]
    } else if is_name(ps, i) {
        seq![ps[i]] + names_from(ps, i + 1)
    } else {
        names_from(ps, i + 1)
    }
}

/// The names that a path is made of.
pub open spec fn names(path: Seq<char>) -> Seq<Seq<char>> {
    names_from(parts(path, '/'), 0)
}

/// Whether two texts are the same path.
pub open spec fn same_path(a: Seq<char>, b: Seq<char>) -> bool {
    absolute(a) == absolute(b) && names(a) == names(b)
}

/// Whether a path lies in a directory, both from the root.
pub open spec fn lies_in(path: Seq<char>, directory: Seq<char>) -> bool {
    absolute(path) && absolute(directory) && names(directory).is_prefix_of(names(path))
}

/// Where the name with `n` names before it stands, looked for from `i` on.
pub open spec fn place_of(ps: Seq<Seq<char>>, n: int, i: int) -> int
    decreases ps.len() - i,
{
    if i < 0 || i >= ps.len() {
        ps.len() as int
    } else if !is_name(ps, i) {
        place_of(ps, n, i + 1)
    } else if n <= 0 {
        i
    } else {
        place_of(ps, n - 1, i + 1)
    }
}

/// Where the last name before `e` ends.
pub open spec fn end_of(ps: Seq<Seq<char>>, e: int) -> int
    decreases e,
{
    if e <= 0 {
        0
    } else if is_name(ps, e - 1) {
        e
    } else {
        end_of(ps, e - 1)
    }
}

/// A path behind its first `n` names, as it is written.
pub open spec fn behind(path: Seq<char>, n: int) -> Seq<char> {
    let ps = parts(path, '/');
    let a = place_of(ps, n, 0);
    let e = end_of(ps, ps.len() as int);
    if a < e {
        joined(ps.subrange(a, e), "/"@)
    } else {
        seq![]
    }
}

/// A path as it is shown: one in the working directory starts there, every
/// other one stays as it is.
pub open spec fn shown_path(directory: Option<Seq<char>>, path: Seq<char>) -> Seq<char> {
    match directory {
        Some(d) => if lies_in(path, d) {
            behind(path, names(d).len() as int)
        } else {
            path
        },
        None => path,
    }
}

fn is_absolute(path: &str) -> (r: bool)
    ensures
        r == absolute(path@),
{
    let chars = crate::text::chars_of(path);
    chars.len() > 0 && chars[0] == '/'
}

fn name_at(ps: &Vec<String>, i: usize) -> (r: bool)
    requires
        i < ps@.len(),
    ensures
        r == is_name(views(ps@), i as int),
{
    if same(ps[i].as_str(), "") {
        proof {
            reveal_strlit("");
        }
        return false;
    }
    proof {
        reveal_strlit("");
        if ps@[i as int]@.len() == 0 {
            assert(ps@[i as int]@ =~= ""@);
        }
    }
    i == 0 || !same(ps[i].as_str(), ".")
}

fn path_names(path: &str) -> (r: Vec<String>)
    ensures
        views(r@) == names(path@),
{
    let ps = split(path, '/');
    let mut out: Vec<String> = Vec::new();
    let mut i: usize = 0;
    assert(views(out@) + names_from(views(ps@), 0) =~= names(path@));
    while i < ps.len()
        invariant
            i <= ps@.len(),
            views(ps@) == parts(path@, '/'),
            views(out@) + names_from(views(ps@), i as int) == names(path@),
        decreases ps@.len() - i,
    {
        let ghost before = views(out@);
        if name_at(&ps, i) {
            out.push(ps[i].clone());
            assert(views(out@) =~= before.push(views(ps@)[i as int]));
            assert(views(out@) + names_from(views(ps@), i + 1) =~= before + names_from(
                views(ps@),
                i as int,
            ));
        }
        i += 1;
    }
    assert(views(out@) + names_from(views(ps@), i as int) =~= views(out@));
    out
}

/// Whether some texts are the first of others.
fn starts(all: &Vec<String>, first: &Vec<String>) -> (r: bool)
    ensures
        r == views(first@).is_prefix_of(views(all@)),
{
    if first.len() > all.len() {
        return false;
    }
    let ghost a = views(all@);
    let ghost f = views(first@);
    let mut i: usize = 0;
    while i < first.len()
        invariant
            i <= first@.len() <= all@.len(),
            a == views(all@),
            f == views(first@),
            forall|j: int| 0 <= j < i ==> #[trigger] a[j] == f[j],
        decreases first@.len() - i,
    {
        if !same(all[i].as_str(), first[i].as_str()) {
            assert(a[i as int] != f[i as int]);
            assert(a.subrange(0, f.len() as int)[i as int] == a[i as int]);
            return false;
        }
        i += 1;
    }
    assert(a.subrange(0, f.len() as int) =~= f);
    true
}

/// Whether two texts are the same path.
pub fn are_same_path(a: &str, b: &str) -> (r: bool)
    ensures
        r == same_path(a@, b@),
{
    if is_absolute(a) != is_absolute(b) {
        return false;
    }
    let left = path_names(a);
    let right = path_names(b);
    if left.len() != right.len() {
        assert(views(left@).len() != views(right@).len());
        return false;
    }
    let r = starts(&left, &right);
    proof {
        let l = views(left@);
        assert(l.subrange(0, l.len() as int) =~= l);
    }
    r
}

fn path_behind(path: &str, n: usize) -> (r: String)
    ensures
        r@ == behind(path@, n as int),
{
    let ps = split(path, '/');
    let ghost all = views(ps@);
    let mut left: usize = n;
    let mut a: usize = 0;
    while a < ps.len()
        invariant_except_break
            place_of(all, n as int, 0) == place_of(all, left as int, a as int),
        invariant
            a <= ps@.len(),
            all == views(ps@),
        ensures
            place_of(all, n as int, 0) == a,
        decreases ps@.len() - a,
    {
        if name_at(&ps, a) {
            if left == 0 {
                break;
            }
            left -= 1;
        }
        a += 1;
    }
    let mut e: usize = ps.len();
    while e > 0
        invariant_except_break
            end_of(all, all.len() as int) == end_of(all, e as int),
        invariant
            e <= ps@.len(),
            all == views(ps@),
        ensures
            end_of(all, all.len() as int) == e,
        decreases e,
    {
        if name_at(&ps, e - 1) {
            break;
        }
        e -= 1;
    }
    if a >= e {
        let none = String::new();
        assert(none@ =~= seq![]);
        return none;
    }
    let mut rest: Vec<String> = Vec::new();
    let mut i: usize = a;
    while i < e
        invariant
            a <= i <= e <= ps@.len(),
            all == views(ps@),
            views(rest@) == all.subrange(a as int, i as int),
        decreases e - i,
    {
        let ghost before = views(rest@);
        rest.push(ps[i].clone());
        i += 1;
        assert(views(rest@) =~= before.push(all[i - 1]));
        assert(views(rest@) =~= all.subrange(a as int, i as int));
    }
    join(&rest, "/")
}

/// An optional text by its characters.
pub open spec fn text_view(t: Option<String>) -> Option<Seq<char>> {
    match t {
        Some(s) => Some(s@),
        None => None,
    }
}

/// A path as it is shown and registered, where `directory` is the working
/// directory.
pub fn normalized_path(directory: &Option<String>, path: &str) -> (r: String)
    ensures
        r@ == shown_path(text_view(*directory), path@),
{
    match directory {
        Some(d) => {
            if is_absolute(path) && is_absolute(d.as_str()) {
                let top = path_names(d.as_str());
                if starts(&path_names(path), &top) {
                    assert(views(top@).len() == top@.len());
                    return path_behind(path, top.len());
                }
            }
        },
        None => {},
    }
    path.to_owned()
}

proof fn parts_hold_no_separator(s: Seq<char>, sep: char, from: int, p: int)
    requires
        0 <= from <= p <= s.len(),
        forall|i: int| from <= i < p ==> s[i] != sep,
    ensures
        forall|k: int|
            0 <= k < parts_from(s, sep, from, p).len() ==> !(#[trigger] parts_from(
                s,
                sep,
                from,
                p,
            )[k]).contains(sep),
    decreases s.len() - p,
{
    let all = parts_from(s, sep, from, p);
    if p < s.len() && s[p] != sep {
        parts_hold_no_separator(s, sep, from, p + 1);
        let rest = parts_from(s, sep, from, p + 1);
        assert(all == rest);
        assert forall|k: int| 0 <= k < all.len() implies !(#[trigger] all[k]).contains(sep) by {
            assert(!rest[k].contains(sep));
        }
    } else {
        if p < s.len() {
            parts_hold_no_separator(s, sep, p + 1, p + 1);
        }
        assert forall|k: int| 0 <= k < all.len() implies !(#[trigger] all[k]).contains(sep) by {
            if k == 0 {
                assert(all[0] == s.subrange(from, p));
            } else {
                assert(all[k] == parts_from(s, sep, p + 1, p + 1)[k - 1]);
            }
        }
    }
}

proof fn parts_behind(s: Seq<char>, x: Seq<char>, sep: char, from: int, p: int)
    requires
        0 <= from <= p <= s.len(),
        !x.contains(sep),
    ensures
        parts_from(s + seq![sep] + x, sep, from, p) == parts_from(s, sep, from, p).push(x),
    decreases s.len() - p,
{
    let t = s + seq![sep] + x;
    if p == s.len() {
        assert(t[p] == sep);
        assert(t.subrange(from, p) =~= s.subrange(from, p));
        last_part(t, sep, p + 1, p + 1);
        assert(t.subrange(p + 1, t.len() as int) =~= x);
        assert(parts_from(t, sep, from, p) =~= parts_from(s, sep, from, p).push(x));
    } else {
        assert(t[p] == s[p]);
        if s[p] == sep {
            parts_behind(s, x, sep, p + 1, p + 1);
            assert(t.subrange(from, p) =~= s.subrange(from, p));
            assert(parts_from(t, sep, from, p) =~= parts_from(s, sep, from, p).push(x));
        } else {
            parts_behind(s, x, sep, from, p + 1);
        }
    }
}

proof fn last_part(t: Seq<char>, sep: char, from: int, p: int)
    requires
        0 <= from <= p <= t.len(),
        forall|i: int| p <= i < t.len() ==> t[i] != sep,
    ensures
        parts_from(t, sep, from, p) == seq![t.subrange(from, t.len() as int)],
    decreases t.len() - p,
{
    if p < t.len() {
        last_part(t, sep, from, p + 1);
    }
}

/// Texts without a separator are the parts of their joined text.
pub proof fn joined_parts(v: Seq<Seq<char>>)
    requires
        v.len() > 0,
        forall|k: int| 0 <= k < v.len() ==> !(#[trigger] v[k]).contains('/'),
    ensures
        parts(joined(v, "/"@), '/') == v,
    decreases v.len(),
{
    reveal_strlit("/");
    if v.len() == 1 {
        let t = v[0];
        assert forall|i: int| 0 <= i < t.len() implies t[i] != '/' by {
            assert(t.contains(t[i]));
        }
        last_part(t, '/', 0, 0);
        assert(t.subrange(0, t.len() as int) =~= t);
        assert(parts(joined(v, "/"@), '/') =~= v);
    } else {
        let front = v.drop_last();
        assert forall|k: int| 0 <= k < front.len() implies !(#[trigger] front[k]).contains('/') by {
            assert(front[k] == v[k]);
        }
        joined_parts(front);
        let s = joined(front, "/"@);
        let x = v.last();
        assert(x == v[v.len() - 1]);
        parts_behind(s, x, '/', 0, 0);
        assert("/"@ =~= seq!['/']);
        assert(joined(v, "/"@) =~= s + seq!['/'] + x);
        assert(parts(s, '/').push(x) =~= v);
    }
}

proof fn place_is_a_name(ps: Seq<Seq<char>>, n: int, i: int)
    requires
        0 <= i <= ps.len(),
        n >= 0,
    ensures
        i <= place_of(ps, n, i) <= ps.len(),
        place_of(ps, n, i) < ps.len() ==> is_name(ps, place_of(ps, n, i)),
        names_from(ps, place_of(ps, n, i)) == (if n <= names_from(ps, i).len() {
            names_from(ps, i).skip(n)
        } else {
            seq![]
        }),
    decreases ps.len() - i,
{
    if i < ps.len() {
        if !is_name(ps, i) {
            place_is_a_name(ps, n, i + 1);
        } else if n <= 0 {
            assert(names_from(ps, i).skip(0) =~= names_from(ps, i));
        } else {
            place_is_a_name(ps, n - 1, i + 1);
            let rest = names_from(ps, i + 1);
            if n <= rest.len() + 1 {
                assert((seq![ps[i]] + rest).skip(n) =~= rest.skip(n - 1));
            }
        }
    } else {
        assert(names_from(ps, i).len() == 0);
        assert(n == 0 ==> names_from(ps, i).skip(n) =~= seq![]);
    }
}

proof fn end_is_behind_names(ps: Seq<Seq<char>>, e: int)
    requires
        0 <= e <= ps.len(),
        forall|j: int| e <= j < ps.len() ==> !is_name(ps, j),
    ensures
        0 <= end_of(ps, e) <= e,
        forall|j: int| end_of(ps, e) <= j < ps.len() ==> !is_name(ps, j),
    decreases e,
{
    if e > 0 && !is_name(ps, e - 1) {
        end_is_behind_names(ps, e - 1);
    }
}

proof fn no_more_names(ps: Seq<Seq<char>>, i: int)
    requires
        0 <= i <= ps.len(),
        forall|j: int| i <= j < ps.len() ==> !is_name(ps, j),
    ensures
        names_from(ps, i) == Seq::<Seq<char>>::empty(),
    decreases ps.len() - i,
{
    if i < ps.len() {
        no_more_names(ps, i + 1);
    }
}

proof fn names_of_some(ps: Seq<Seq<char>>, a: int, e: int, j: int)
    requires
        0 < a < e <= ps.len(),
        is_name(ps, a),
        forall|k: int| e <= k < ps.len() ==> !is_name(ps, k),
        0 <= j <= e - a,
    ensures
        names_from(ps.subrange(a, e), j) == names_from(ps, a + j),
    decreases e - a - j,
{
    let sub = ps.subrange(a, e);
    if j < e - a {
        names_of_some(ps, a, e, j + 1);
        assert(sub[j] == ps[a + j]);
        assert(is_name(sub, j) == is_name(ps, a + j));
    } else {
        no_more_names(ps, e);
    }
}

proof fn root_is_no_name(path: Seq<char>)
    requires
        absolute(path),
    ensures
        parts(path, '/').len() > 1,
        !is_name(parts(path, '/'), 0),
{
    let ps = parts(path, '/');
    assert(ps == seq![path.subrange(0, 0)] + parts_from(path, '/', 1, 1));
    some_part(path, 1, 1);
}

proof fn some_part(s: Seq<char>, from: int, p: int)
    ensures
        parts_from(s, '/', from, p).len() > 0,
    decreases s.len() - p,
{
    if 0 <= p < s.len() {
        some_part(s, p + 1, p + 1);
        some_part(s, from, p + 1);
    }
}

/// A path behind its first names has the names that remain, and does not start
/// at the root.
pub proof fn path_behind_has_the_rest(path: Seq<char>, n: int)
    requires
        absolute(path),
        0 <= n <= names(path).len(),
    ensures
        names(behind(path, n)) == names(path).skip(n),
        !absolute(behind(path, n)),
{
    let ps = parts(path, '/');
    let a = place_of(ps, n, 0);
    let e = end_of(ps, ps.len() as int);
    root_is_no_name(path);
    place_is_a_name(ps, n, 0);
    end_is_behind_names(ps, ps.len() as int);
    if a < e {
        assert(a > 0);
        let sub = ps.subrange(a, e);
        parts_hold_no_separator(path, '/', 0, 0);
        assert forall|k: int| 0 <= k < sub.len() implies !(#[trigger] sub[k]).contains('/') by {
            assert(sub[k] == ps[a + k]);
        }
        joined_parts(sub);
        names_of_some(ps, a, e, 0);
        joined_starts(sub);
        assert(sub[0] == ps[a]);
        assert(sub[0].contains(sub[0][0]));
    } else {
        if a < ps.len() {
            assert(is_name(ps, a));
        }
        assert(names_from(ps, a) =~= seq![]);
        let none = Seq::<char>::empty();
        assert(parts(none, '/') =~= seq![none.subrange(0, 0)]);
        reveal_with_fuel(names_from, 2);
        assert(names(none) =~= seq![]);
    }
}

proof fn joined_starts(v: Seq<Seq<char>>)
    requires
        v.len() > 0,
        v[0].len() > 0,
    ensures
        joined(v, "/"@).len() > 0,
        joined(v, "/"@)[0] == v[0][0],
    decreases v.len(),
{
    if v.len() > 1 {
        joined_starts(v.drop_last());
    }
}

/// A path that is shown is shown as it is.
pub proof fn shown_path_stays(directory: Option<Seq<char>>, path: Seq<char>)
    ensures
        shown_path(directory, shown_path(directory, path)) == shown_path(directory, path),
{
    match directory {
        Some(d) => {
            if lies_in(path, d) {
                path_behind_has_the_rest(path, names(d).len() as int);
            }
        },
        None => {},
    }
}

/// Texts of the same path are shown as the same path.
pub proof fn same_paths_are_shown_alike(directory: Option<Seq<char>>, a: Seq<char>, b: Seq<char>)
    requires
        same_path(a, b),
    ensures
        same_path(shown_path(directory, a), shown_path(directory, b)),
{
    match directory {
        Some(d) => {
            if lies_in(a, d) {
                path_behind_has_the_rest(a, names(d).len() as int);
                path_behind_has_the_rest(b, names(d).len() as int);
            }
        },
        None => {},
    }
}

} // verus!
