//! How tables and texts are ordered.

use crate::table::{entry_at, text_less, text_less_from, Entry};
use vstd::prelude::*;

verus! {

/// A name leads to the value that stands first under it, and to none where none
/// does.
pub proof fn first_entry_counts<T>(s: Seq<Entry<T>>, key: Seq<char>, i: int)
    requires
        0 <= i <= s.len(),
        forall|j: int| 0 <= j < i ==> (#[trigger] s[j]).key@ != key,
    ensures
        i < s.len() && s[i].key@ == key ==> entry_at(s, key) == Some(s[i].value),
        i == s.len() ==> entry_at(s, key) is None,
    decreases i,
{
    if i > 0 {
        assert(s[0].key@ != key);
        let rest = s.drop_first();
        assert forall|j: int| 0 <= j < i - 1 implies (#[trigger] rest[j]).key@ != key by {
            assert(rest[j] == s[j + 1]);
        }
        first_entry_counts(rest, key, i - 1);
    }
}

proof fn passes_common(a: Seq<char>, b: Seq<char>, i: int, k: int)
    requires
        0 <= i <= k <= a.len(),
        k <= b.len(),
        forall|j: int| i <= j < k ==> #[trigger] a[j] == b[j],
    ensures
        text_less_from(a, b, i) == text_less_from(a, b, k),
    decreases k - i,
{
    if i < k {
        assert(a[i] == b[i]);
        passes_common(a, b, i + 1, k);
    }
}

/// Of two texts that first differ at a character, the one with the smaller
/// character there comes first.
pub proof fn first_difference_decides(front: Seq<char>, c: char, d: char, x: Seq<char>, y: Seq<char>)
    requires
        c < d,
    ensures
        text_less(front.push(c) + x, front.push(d) + y),
        !text_less(front.push(d) + y, front.push(c) + x),
{
    let a = front.push(c) + x;
    let b = front.push(d) + y;
    let n = front.len() as int;
    passes_common(a, b, 0, n);
    passes_common(b, a, 0, n);
    assert(a[n] == c && b[n] == d);
}

/// A text comes before every longer text that starts with it, and not before
/// itself.
pub proof fn shorter_text_comes_first(a: Seq<char>, rest: Seq<char>)
    ensures
        rest.len() > 0 ==> text_less(a, a + rest),
        !text_less(a + rest, a),
{
    let b = a + rest;
    let n = a.len() as int;
    passes_common(a, b, 0, n);
    passes_common(b, a, 0, n);
}

} // verus!
