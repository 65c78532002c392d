//! Sorting by keys.

use crate::diagnostic::order::{arranged, key_less, keys_of, less, placed};
use vstd::prelude::*;

verus! {

/// Where `placed` puts a place.
pub open spec fn spot(keys: Seq<Seq<u64>>, s: Seq<int>, n: int) -> int
    decreases s.len(),
{
    if s.len() > 0 && less(keys[n], keys[s.last()]) {
        spot(keys, s.drop_last(), n)
    } else {
        s.len() as int
    }
}

proof fn placed_is_insertion(keys: Seq<Seq<u64>>, s: Seq<int>, n: int)
    ensures
        0 <= spot(keys, s, n) <= s.len(),
        placed(keys, s, n) == s.insert(spot(keys, s, n), n),
    decreases s.len(),
{
    if s.len() > 0 && less(keys[n], keys[s.last()]) {
        placed_is_insertion(keys, s.drop_last(), n);
        assert(placed(keys, s, n) =~= s.insert(spot(keys, s, n), n));
    } else {
        assert(placed(keys, s, n) =~= s.insert(spot(keys, s, n), n));
    }
}

/// An order of the first `n` places names these places only.
pub proof fn arranged_in_range(keys: Seq<Seq<u64>>, n: int)
    requires
        0 <= n,
    ensures
        arranged(keys, n).len() == n,
        forall|i: int| 0 <= i < n ==> 0 <= (#[trigger] arranged(keys, n)[i]) < n,
    decreases n,
{
    if n > 0 {
        arranged_in_range(keys, n - 1);
        placed_is_insertion(keys, arranged(keys, n - 1), n - 1);
    }
}

/// Items in the order of their keys; those with equal keys keep their order.
pub open spec fn sorted_by<T>(items: Seq<T>, keys: Seq<Seq<u64>>) -> Seq<T> {
    Seq::new(items.len(), |i: int| items[arranged(keys, items.len() as int)[i]])
}

/// Sorts items by their keys.
pub fn sort_by_keys<T>(items: Vec<T>, keys: Vec<Vec<u64>>) -> (r: Vec<T>)
    requires
        items@.len() == keys@.len(),
    ensures
        r@ == sorted_by(items@, keys_of(keys@)),
        r@.len() == items@.len(),
{
    let ghost all = items@;
    let ghost ks = keys_of(keys@);
    let ghost count = items@.len() as int;
    let mut rest = items;
    let mut out: Vec<T> = Vec::new();
    let mut places: Vec<usize> = Vec::new();
    let mut n: usize = 0;
    let total: usize = keys.len();
    assert(all.skip(0) =~= all);
    while rest.len() > 0
        invariant
            n + rest@.len() == count,
            count == total,
            count == all.len() == keys@.len(),
            ks == keys_of(keys@),
            rest@ == all.skip(n as int),
            out@.len() == n,
            places@.len() == n,
            arranged(ks, n as int).len() == n,
            forall|i: int|
                0 <= i < n ==> (#[trigger] places@[i]) == arranged(ks, n as int)[i] && places@[i]
                    < n && out@[i] == all[places@[i] as int],
        decreases rest@.len(),
    {
        let ghost s = arranged(ks, n as int);
        let item = rest.remove(0);
        assert(item == all[n as int]);
        assert(rest@ =~= all.skip(n + 1));
        let mut p: usize = places.len();
        assert(s.take(p as int) =~= s);
        while p > 0 && key_less(&keys[n], &keys[places[p - 1]])
            invariant
                p <= places@.len(),
                n < keys@.len(),
                ks == keys_of(keys@),
                places@.len() == s.len(),
                forall|i: int|
                    0 <= i < places@.len() ==> (#[trigger] places@[i]) == s[i] && places@[i]
                        < keys@.len(),
                spot(ks, s, n as int) == spot(ks, s.take(p as int), n as int),
            decreases p,
        {
            assert(s.take(p as int).last() == places@[p - 1]);
            assert(s.take(p as int).drop_last() =~= s.take(p - 1));
            p -= 1;
        }
        proof {
            if p > 0 {
                assert(s.take(p as int).last() == places@[p - 1]);
            }
            assert(spot(ks, s, n as int) == p);
            placed_is_insertion(ks, s, n as int);
            assert(arranged(ks, n + 1) == s.insert(p as int, n as int));
        }
        let ghost before = places@;
        let ghost had = out@;
        places.insert(p, n);
        out.insert(p, item);
        proof {
            assert forall|i: int| 0 <= i < n + 1 implies (#[trigger] places@[i]) == arranged(
                ks,
                n + 1,
            )[i] && places@[i] < n + 1 && out@[i] == all[places@[i] as int] by {
                if i < p {
                    assert(places@[i] == before[i] && out@[i] == had[i]);
                } else if i > p {
                    assert(places@[i] == before[i - 1] && out@[i] == had[i - 1]);
                }
            }
        }
        n += 1;
    }
    assert forall|i: int| 0 <= i < out@.len() implies #[trigger] out@[i] == sorted_by(
        all,
        ks,
    )[i] by {
        assert(places@[i] == arranged(ks, count)[i]);
    }
    assert(out@ =~= sorted_by(all, ks));
    out
}

proof fn chosen_items<T>(items: Seq<T>, keys: Seq<Seq<u64>>, n: int)
    requires
        0 <= n <= items.len(),
    ensures
        Seq::new(n as nat, |i: int| items[arranged(keys, n)[i]]).to_multiset() == items.take(
            n,
        ).to_multiset(),
    decreases n,
{
    let now = Seq::new(n as nat, |i: int| items[arranged(keys, n)[i]]);
    if n > 0 {
        let s = arranged(keys, n - 1);
        let before = Seq::new((n - 1) as nat, |i: int| items[s[i]]);
        chosen_items(items, keys, n - 1);
        arranged_in_range(keys, n - 1);
        placed_is_insertion(keys, s, n - 1);
        let p = spot(keys, s, n - 1);
        assert(now =~= before.insert(p, items[n - 1]));
        vstd::seq_lib::to_multiset_insert(before, p, items[n - 1]);
        assert(items.take(n) =~= items.take(n - 1).push(items[n - 1]));
        vstd::seq_lib::to_multiset_build(items.take(n - 1), items[n - 1]);
    } else {
        assert(now =~= items.take(0));
    }
}

/// Sorting loses and invents nothing.
pub proof fn sorting_keeps_the_items<T>(items: Seq<T>, keys: Seq<Seq<u64>>)
    ensures
        sorted_by(items, keys).to_multiset() == items.to_multiset(),
{
    let n = items.len() as int;
    chosen_items(items, keys, n);
    assert(items.take(n) =~= items);
    assert(sorted_by(items, keys) =~= Seq::new(
        n as nat,
        |i: int| items[arranged(keys, n)[i]],
    ));
}

} // verus!
