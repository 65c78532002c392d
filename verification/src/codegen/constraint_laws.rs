//! Which constraints are checked, and on what.

use crate::ast::Param;
use crate::codegen::generator::{names_of, Bindings};
use crate::codegen::scopes::scoped;
use crate::codegen::steps::Step;
use crate::codegen::where_clause::{
    field_order, field_placed, index_of, method_parts, renamed, speaking_of, stray, FieldIndex,
};
use crate::source::{scan, scan_is_first};
use vstd::prelude::*;

verus! {

/// A method's name is its class, a dot and its name in the class. A name without
/// a dot is no method's.
pub proof fn method_names_split_at_the_dot(class: Seq<char>, method: Seq<char>)
    requires
        !class.contains('.'),
    ensures
        method_parts(class + seq!['.'] + method) == Some((class, method)),
        method_parts(class) is None,
{
    let name = class + seq!['.'] + method;
    let skip = |c: char| c != '.';
    scan_is_first(name, 0, skip);
    scan_is_first(class, 0, skip);
    let p = scan(name, 0, skip);
    assert(name[class.len() as int] == '.');
    assert(!skip(name[class.len() as int]));
    if p < class.len() {
        assert(name[p] == class[p]);
        assert(class.contains(class[p]));
    }
    assert(p == class.len());
    assert(name.take(p) =~= class);
    assert(name.skip(p + 1) =~= method);
    let q = scan(class, 0, skip);
    if q < class.len() {
        assert(class.contains(class[q]));
    }
}

/// After an assignment to a field exactly the invariants that speak of it are
/// checked again, in their order.
pub proof fn assigned_field_is_checked_again(
    referenced: Seq<Vec<String>>,
    field: Seq<char>,
    n: int,
)
    requires
        0 <= n <= referenced.len() <= usize::MAX,
    ensures
        ({
            let r = speaking_of(referenced, field, n);
            &&& forall|k: int|
                0 <= k < r.len() ==> (#[trigger] r[k]) < n && names_of(
                    referenced[r[k] as int]@,
                ).contains(field)
            &&& forall|j: int, k: int|
                0 <= j < k < r.len() ==> (#[trigger] r[j]) < (#[trigger] r[k])
            &&& forall|i: int|
                0 <= i < n && names_of((#[trigger] referenced[i])@).contains(field) ==> r.contains(
                    i as usize,
                )
        }),
    decreases n,
{
    if n > 0 {
        assigned_field_is_checked_again(referenced, field, n - 1);
        let before = speaking_of(referenced, field, n - 1);
        let r = speaking_of(referenced, field, n);
        assert forall|i: int|
            0 <= i < n && names_of((#[trigger] referenced[i])@).contains(field) implies r.contains(
            i as usize,
        ) by {
            if i < n - 1 {
                assert(before.contains(i as usize));
                let k = choose|k: int| 0 <= k < before.len() && before[k] == i as usize;
                assert(r[k] == i as usize);
            } else {
                assert(r[r.len() - 1] == i as usize);
            }
        }
    }
}

/// A field has the place under which its name stands first, and none where its
/// name does not stand.
pub proof fn field_has_its_first_place(indices: Seq<FieldIndex>, name: Seq<char>, i: int)
    requires
        0 <= i <= indices.len(),
        forall|j: int| 0 <= j < i ==> (#[trigger] indices[j]).name@ != name,
    ensures
        i < indices.len() && indices[i].name@ == name ==> index_of(indices, name) == Some(
            indices[i].index,
        ),
        i == indices.len() ==> index_of(indices, name) is None,
    decreases i,
{
    if i > 0 {
        assert(indices[0].name@ != name);
        let rest = indices.drop_first();
        assert forall|j: int| 0 <= j < i - 1 implies (#[trigger] rest[j]).name@ != name by {
            assert(rest[j] == indices[j + 1]);
        }
        field_has_its_first_place(rest, name, i - 1);
    }
}

/// A pair is in a sequence after placing another where it was in it, and the
/// other is.
proof fn placed_holds_both(s: Seq<(int, usize)>, x: (int, usize), y: (int, usize))
    ensures
        field_placed(s, x).contains(y) <==> s.contains(y) || y == x,
        field_placed(s, x).len() == s.len() + 1,
    decreases s.len(),
{
    if s.len() > 0 && x.1 < s.last().1 {
        let front = s.drop_last();
        placed_holds_both(front, x, y);
        let f = field_placed(front, x);
        let r = f.push(s.last());
        if f.contains(y) {
            let k = choose|k: int| 0 <= k < f.len() && f[k] == y;
            assert(r[k] == y);
        }
        if y == s.last() {
            assert(r[r.len() - 1] == y);
            assert(s[s.len() - 1] == y);
        }
        if s.contains(y) && y != s.last() {
            let k = choose|k: int| 0 <= k < s.len() && s[k] == y;
            assert(front[k] == y);
        }
        if front.contains(y) {
            let k = choose|k: int| 0 <= k < front.len() && front[k] == y;
            assert(s[k] == y);
        }
        if r.contains(y) && y != s.last() {
            let k = choose|k: int| 0 <= k < r.len() && r[k] == y;
            assert(f[k] == y);
        }
    } else {
        let r = s.push(x);
        if s.contains(y) {
            let k = choose|k: int| 0 <= k < s.len() && s[k] == y;
            assert(r[k] == y);
        }
        assert(r[r.len() - 1] == x);
        if r.contains(y) && y != x {
            let k = choose|k: int| 0 <= k < r.len() && r[k] == y;
            assert(s[k] == y);
        }
    }
}

/// Every field that has a place in the object is read from there, and no other
/// is.
pub proof fn fields_are_read_from_their_place(
    fields: Seq<Seq<char>>,
    indices: Seq<FieldIndex>,
    n: int,
    i: int,
    index: usize,
)
    requires
        0 <= n <= fields.len(),
    ensures
        field_order(fields, indices, n).contains((i, index)) <==> 0 <= i < n && index_of(
            indices,
            fields[i],
        ) == Some(index),
    decreases n,
{
    if n > 0 {
        fields_are_read_from_their_place(fields, indices, n - 1, i, index);
        if let Some(k) = index_of(indices, fields[n - 1]) {
            placed_holds_both(field_order(fields, indices, n - 1), (n - 1, k), (i, index));
        }
    }
}

/// An object is refused where a field's place lies behind its end, and only
/// there.
pub proof fn stray_fields_are_refused(order: Seq<(int, usize)>, count: nat, i: int)
    requires
        0 <= i <= order.len(),
    ensures
        stray(order, count, i) is None <==> forall|k: int|
            i <= k < order.len() ==> (#[trigger] order[k]).1 < count,
    decreases order.len() - i,
{
    if i < order.len() {
        stray_fields_are_refused(order, count, i + 1);
        if order[i].1 < count {
            if stray(order, count, i) is None {
                assert forall|k: int| i <= k < order.len() implies (#[trigger] order[k]).1
                    < count by {
                    if k > i {
                    }
                }
            }
        }
    }
}

/// For an interface's predicates a method's parameter is bound under the
/// interface's name where the two names differ and the parameter has a
/// variable; parameters go place by place.
pub proof fn parameters_are_renamed_by_place(
    scopes: Seq<Bindings>,
    interface_names: Seq<Seq<char>>,
    params: Seq<Param>,
    n: int,
    i: int,
)
    requires
        0 <= i < n <= interface_names.len(),
        n <= params.len() <= usize::MAX,
    ensures
        renamed(scopes, interface_names, params, n).contains(Step::BindParameter(i as usize))
            <==> interface_names[i] != params[i].name@ && scoped(scopes, params[i].name@) is Some,
    decreases n,
{
    let before = renamed(scopes, interface_names, params, n - 1);
    let r = renamed(scopes, interface_names, params, n);
    let step = Step::BindParameter(i as usize);
    if i < n - 1 {
        parameters_are_renamed_by_place(scopes, interface_names, params, n - 1, i);
        if r.len() > before.len() {
            assert(r[r.len() - 1] == Step::BindParameter((n - 1) as usize));
            if before.contains(step) {
                let k = choose|k: int| 0 <= k < before.len() && before[k] == step;
                assert(r[k] == step);
            }
            if r.contains(step) {
                let k = choose|k: int| 0 <= k < r.len() && r[k] == step;
                assert(before[k] == step);
            }
        }
    } else {
        earlier_places(scopes, interface_names, params, n - 1);
        if r.len() > before.len() {
            assert(r[r.len() - 1] == step);
        } else if r.contains(step) {
            let k = choose|k: int| 0 <= k < r.len() && r[k] == step;
            assert(before[k] == step);
        }
    }
}

proof fn earlier_places(
    scopes: Seq<Bindings>,
    interface_names: Seq<Seq<char>>,
    params: Seq<Param>,
    n: int,
)
    requires
        n <= params.len() <= usize::MAX,
    ensures
        forall|k: int|
            0 <= k < renamed(scopes, interface_names, params, n).len() ==> ((#[trigger] renamed(
                scopes,
                interface_names,
                params,
                n,
            )[k]) matches Step::BindParameter(j) && j < n),
    decreases n,
{
    if 0 < n && n <= interface_names.len() {
        earlier_places(scopes, interface_names, params, n - 1);
    }
}

} // verus!
