//! No two types share a name.

use crate::ast::PrimitiveType;
use crate::codegen::naming::{enum_name, joined, listed, marked, name_of, primitive_word, sized};
use crate::semantics::types::TypeTerm;
use crate::text::{decimal, decimal_is_injective, decimal_reads_back, is_digit_spec};
use vstd::prelude::*;

verus! {

/// A number for each kind of type.
pub open spec fn kind_number(t: TypeTerm) -> int {
    match t {
        TypeTerm::Primitive(PrimitiveType::Int) => 1,
        TypeTerm::Primitive(PrimitiveType::Float) => 2,
        TypeTerm::Primitive(PrimitiveType::Bool) => 3,
        TypeTerm::Primitive(PrimitiveType::Str) => 4,
        TypeTerm::Primitive(PrimitiveType::Char) => 5,
        TypeTerm::Primitive(PrimitiveType::Void) => 6,
        TypeTerm::Primitive(PrimitiveType::Auto) => 7,
        TypeTerm::Void => 8,
        TypeTerm::List(_) => 9,
        TypeTerm::SetOf(_) => 10,
        TypeTerm::MapOf(_, _) => 11,
        TypeTerm::Tuple(_, _) => 12,
        TypeTerm::Optional(_) => 13,
        TypeTerm::ResultOf(_, _) => 14,
        TypeTerm::Reference(_) => 15,
        TypeTerm::EmptyList => 16,
        TypeTerm::EmptyMap => 17,
        TypeTerm::EmptySet => 18,
        TypeTerm::Named(_, _) => 19,
        TypeTerm::Instantiated(_, _) => 20,
        TypeTerm::Function { .. } => 21,
        TypeTerm::Generic(_) => 22,
        TypeTerm::Variable(_) => 23,
        TypeTerm::Never => 24,
        TypeTerm::Module(_) => 25,
    }
}

/// The kind of type that a name begins with, by its first characters.
pub open spec fn read_kind(s: Seq<char>) -> int {
    let (a, b, c) = (s[0], s[1], s[2]);
    if a == 'i' && c == 't' {
        1
    } else if a == 'f' && b == 'l' {
        2
    } else if a == 'b' {
        3
    } else if a == 's' && b == 't' {
        4
    } else if a == 'c' && b == 'h' {
        5
    } else if a == 'p' {
        6
    } else if a == 'a' {
        7
    } else if a == 'v' && b == 'o' {
        8
    } else if a == 'l' {
        9
    } else if a == 's' {
        10
    } else if a == 'm' && b == 'a' {
        11
    } else if a == 't' {
        12
    } else if a == 'o' {
        13
    } else if a == 'r' && c == 's' {
        14
    } else if a == 'r' {
        15
    } else if a == 'e' && s[6] == 'l' {
        16
    } else if a == 'e' && s[6] == 'm' {
        17
    } else if a == 'e' {
        18
    } else if a == 'c' {
        19
    } else if a == 'i' {
        20
    } else if a == 'f' {
        21
    } else if a == 'g' {
        22
    } else if a == 'v' {
        23
    } else if a == 'n' {
        24
    } else {
        25
    }
}

/// The word that a type's name begins with.
pub open spec fn tag(t: TypeTerm) -> Seq<char> {
    match t {
        TypeTerm::Primitive(p) => primitive_word(p),
        TypeTerm::Void => "void"@,
        TypeTerm::List(_) => "list_"@,
        TypeTerm::SetOf(_) => "set_"@,
        TypeTerm::MapOf(_, _) => "map_"@,
        TypeTerm::Tuple(_, _) => "tuple_"@,
        TypeTerm::Optional(_) => "optional_"@,
        TypeTerm::ResultOf(_, _) => "result_"@,
        TypeTerm::Reference(_) => "ref_"@,
        TypeTerm::EmptyList => "empty_list"@,
        TypeTerm::EmptyMap => "empty_map"@,
        TypeTerm::EmptySet => "empty_set"@,
        TypeTerm::Named(_, _) => "class_"@,
        TypeTerm::Instantiated(_, _) => "instance_"@,
        TypeTerm::Function { .. } => "fn_"@,
        TypeTerm::Generic(_) => "generic_"@,
        TypeTerm::Variable(_) => "variable_"@,
        TypeTerm::Never => "never"@,
        TypeTerm::Module(_) => "module_"@,
    }
}

/// What follows that word.
pub open spec fn body(t: TypeTerm) -> Seq<char> {
    match t {
        TypeTerm::List(a) => name_of(*a),
        TypeTerm::SetOf(a) => name_of(*a),
        TypeTerm::Optional(a) => name_of(*a),
        TypeTerm::Reference(a) => name_of(*a),
        TypeTerm::MapOf(k, v) => name_of(*k) + ("_"@ + name_of(*v)),
        TypeTerm::Tuple(k, v) => name_of(*k) + ("_"@ + name_of(*v)),
        TypeTerm::ResultOf(k, v) => name_of(*k) + ("_"@ + name_of(*v)),
        TypeTerm::Named(name, args) => sized(name) + (marked(args.len()) + rest(args, 0)),
        TypeTerm::Instantiated(name, args) => sized(name) + (marked(args.len()) + rest(args, 0)),
        TypeTerm::Function { params, ret, default_count } => marked(params.len()) + (rest(params, 0)
            + (marked(default_count as nat) + name_of(*ret))),
        TypeTerm::Generic(name) => sized(name),
        TypeTerm::Variable(name) => sized(name),
        TypeTerm::Module(name) => sized(name),
        _ => seq![],
    }
}

/// The names of the types from `i` on, each with an underscore behind it.
pub open spec fn rest(ts: Seq<TypeTerm>, i: int) -> Seq<char>
    decreases ts.len() - i,
{
    if i < 0 || i >= ts.len() {
        seq![]
    } else {
        name_of(ts[i]) + ("_"@ + rest(ts, i + 1))
    }
}

proof fn listed_is_rest(ts: Seq<TypeTerm>, i: int)
    requires
        0 <= i <= ts.len(),
    ensures
        listed(ts, ts.len() as int) == listed(ts, i) + rest(ts, i),
    decreases ts.len() - i,
{
    if i < ts.len() {
        listed_is_rest(ts, i + 1);
        assert(listed(ts, i + 1) == listed(ts, i) + name_of(ts[i]) + "_"@);
        assert(listed(ts, i + 1) + rest(ts, i + 1) =~= listed(ts, i) + rest(ts, i));
    } else {
        assert(listed(ts, i) + rest(ts, i) =~= listed(ts, i));
    }
}

proof fn list_reads(ts: Seq<TypeTerm>)
    ensures
        listed(ts, ts.len() as int) == rest(ts, 0),
{
    listed_is_rest(ts, 0);
    assert(listed(ts, 0) + rest(ts, 0) =~= rest(ts, 0));
}

proof fn name_splits(t: TypeTerm)
    ensures
        name_of(t) == tag(t) + body(t),
{
    match t {
        TypeTerm::Named(name, args) => {
            list_reads(args);
        },
        TypeTerm::Instantiated(name, args) => {
            list_reads(args);
        },
        TypeTerm::Function { params, ret, default_count } => {
            list_reads(params);
        },
        _ => {},
    }
    assert(name_of(t) =~= tag(t) + body(t));
}

#[verifier::spinoff_prover]
proof fn tag_reads(t: TypeTerm, q: Seq<char>)
    ensures
        read_kind(tag(t) + q) == kind_number(t),
{
    reveal_strlit("int");
    reveal_strlit("float");
    reveal_strlit("bool");
    reveal_strlit("string");
    reveal_strlit("char");
    reveal_strlit("primitive_void");
    reveal_strlit("auto");
    reveal_strlit("void");
    reveal_strlit("list_");
    reveal_strlit("set_");
    reveal_strlit("map_");
    reveal_strlit("tuple_");
    reveal_strlit("optional_");
    reveal_strlit("result_");
    reveal_strlit("ref_");
    reveal_strlit("empty_list");
    reveal_strlit("empty_map");
    reveal_strlit("empty_set");
    reveal_strlit("class_");
    reveal_strlit("instance_");
    reveal_strlit("fn_");
    reveal_strlit("generic_");
    reveal_strlit("variable_");
    reveal_strlit("never");
    reveal_strlit("module_");
    let s = tag(t) + q;
    assert(s[0] == tag(t)[0] && s[1] == tag(t)[1] && s[2] == tag(t)[2]);
    if t is EmptyList || t is EmptyMap || t is EmptySet {
        assert(s[6] == tag(t)[6]);
    }
}

proof fn cancel(x: Seq<char>, u: Seq<char>, v: Seq<char>)
    requires
        x + u == x + v,
    ensures
        u == v,
{
    assert((x + u).skip(x.len() as int) =~= u);
    assert((x + v).skip(x.len() as int) =~= v);
}

proof fn same_number(a: nat, u: Seq<char>, b: nat, v: Seq<char>)
    requires
        marked(a) + u == marked(b) + v,
    ensures
        a == b,
        u == v,
{
    reveal_strlit("_");
    decimal_reads_back(a);
    decimal_reads_back(b);
    let x = decimal(a);
    let y = decimal(b);
    let s = marked(a) + u;
    let r = marked(b) + v;
    assert(s[x.len() as int] == '_');
    assert(r[y.len() as int] == '_');
    if x.len() < y.len() {
        assert(r[x.len() as int] == y[x.len() as int]);
        assert(is_digit_spec(y[x.len() as int]));
    } else if y.len() < x.len() {
        assert(s[y.len() as int] == x[y.len() as int]);
        assert(is_digit_spec(x[y.len() as int]));
    } else {
        assert(s.take(x.len() as int) =~= x);
        assert(r.take(x.len() as int) =~= y);
        decimal_is_injective(a, b);
        cancel(marked(a), u, v);
    }
}

proof fn same_sized(s: Seq<char>, u: Seq<char>, t: Seq<char>, v: Seq<char>)
    requires
        sized(s) + u == sized(t) + v,
    ensures
        s == t,
        u == v,
{
    assert(sized(s) + u =~= marked(s.len()) + (s + u));
    assert(sized(t) + v =~= marked(t.len()) + (t + v));
    same_number(s.len(), s + u, t.len(), t + v);
    assert((s + u).take(s.len() as int) =~= s);
    assert((t + v).take(s.len() as int) =~= t);
    cancel(s, u, v);
}

proof fn same_list(xs: Seq<TypeTerm>, ys: Seq<TypeTerm>, i: int, u: Seq<char>, v: Seq<char>)
    requires
        0 <= i <= xs.len(),
        xs.len() == ys.len(),
        rest(xs, i) + u == rest(ys, i) + v,
    ensures
        forall|k: int| i <= k < xs.len() ==> xs[k] == ys[k],
        u == v,
    decreases xs, 0int, xs.len() - i,
{
    if i < xs.len() {
        let p = "_"@ + (rest(xs, i + 1) + u);
        let q = "_"@ + (rest(ys, i + 1) + v);
        assert(rest(xs, i) + u =~= name_of(xs[i]) + p);
        assert(rest(ys, i) + v =~= name_of(ys[i]) + q);
        same_name(xs[i], p, ys[i], q);
        cancel("_"@, rest(xs, i + 1) + u, rest(ys, i + 1) + v);
        same_list(xs, ys, i + 1, u, v);
    } else {
        assert(rest(xs, i) + u =~= u);
        assert(rest(ys, i) + v =~= v);
    }
}

proof fn pair_opens(k: TypeTerm, v: TypeTerm, p: Seq<char>)
    ensures
        name_of(k) + ("_"@ + name_of(v)) + p == name_of(k) + ("_"@ + (name_of(v) + p)),
{
    assert(name_of(k) + ("_"@ + name_of(v)) + p =~= name_of(k) + ("_"@ + (name_of(v) + p)));
}

proof fn same_application(
    m: Seq<char>,
    xs: Seq<TypeTerm>,
    p: Seq<char>,
    n: Seq<char>,
    ys: Seq<TypeTerm>,
    q: Seq<char>,
)
    requires
        sized(m) + (marked(xs.len()) + rest(xs, 0)) + p == sized(n) + (marked(ys.len()) + rest(
            ys,
            0,
        )) + q,
    ensures
        m == n,
        xs == ys,
        p == q,
    decreases xs, 1int,
{
    let x = marked(xs.len()) + (rest(xs, 0) + p);
    let y = marked(ys.len()) + (rest(ys, 0) + q);
    assert(sized(m) + (marked(xs.len()) + rest(xs, 0)) + p =~= sized(m) + x);
    assert(sized(n) + (marked(ys.len()) + rest(ys, 0)) + q =~= sized(n) + y);
    same_sized(m, x, n, y);
    same_number(xs.len(), rest(xs, 0) + p, ys.len(), rest(ys, 0) + q);
    same_list(xs, ys, 0, p, q);
    assert(xs =~= ys);
}

proof fn function_opens(xs: Seq<TypeTerm>, c: nat, r: TypeTerm, p: Seq<char>)
    ensures
        marked(xs.len()) + (rest(xs, 0) + (marked(c) + name_of(r))) + p == marked(xs.len()) + (rest(
            xs,
            0,
        ) + (marked(c) + (name_of(r) + p))),
{
    assert(marked(xs.len()) + (rest(xs, 0) + (marked(c) + name_of(r))) + p =~= marked(xs.len()) + (
    rest(xs, 0) + (marked(c) + (name_of(r) + p))));
}

/// Where a name ends is known from the name: two names with something behind
/// them are the same text only if the types are the same.
proof fn same_name(a: TypeTerm, p: Seq<char>, b: TypeTerm, q: Seq<char>)
    requires
        name_of(a) + p == name_of(b) + q,
    ensures
        a == b,
        p == q,
    decreases a, 1int,
{
    name_splits(a);
    name_splits(b);
    assert(name_of(a) + p =~= tag(a) + (body(a) + p));
    assert(name_of(b) + q =~= tag(b) + (body(b) + q));
    tag_reads(a, body(a) + p);
    tag_reads(b, body(b) + q);
    assert(tag(a) == tag(b));
    cancel(tag(a), body(a) + p, body(b) + q);
    match (a, b) {
        (TypeTerm::List(x), TypeTerm::List(y)) => same_name(*x, p, *y, q),
        (TypeTerm::SetOf(x), TypeTerm::SetOf(y)) => same_name(*x, p, *y, q),
        (TypeTerm::Optional(x), TypeTerm::Optional(y)) => same_name(*x, p, *y, q),
        (TypeTerm::Reference(x), TypeTerm::Reference(y)) => same_name(*x, p, *y, q),
        (TypeTerm::MapOf(k, v), TypeTerm::MapOf(l, w)) => {
            let x = "_"@ + (name_of(*v) + p);
            let y = "_"@ + (name_of(*w) + q);
            pair_opens(*k, *v, p);
            pair_opens(*l, *w, q);
            same_name(*k, x, *l, y);
            cancel("_"@, name_of(*v) + p, name_of(*w) + q);
            same_name(*v, p, *w, q);
        },
        (TypeTerm::Tuple(k, v), TypeTerm::Tuple(l, w)) => {
            let x = "_"@ + (name_of(*v) + p);
            let y = "_"@ + (name_of(*w) + q);
            pair_opens(*k, *v, p);
            pair_opens(*l, *w, q);
            same_name(*k, x, *l, y);
            cancel("_"@, name_of(*v) + p, name_of(*w) + q);
            same_name(*v, p, *w, q);
        },
        (TypeTerm::ResultOf(k, v), TypeTerm::ResultOf(l, w)) => {
            let x = "_"@ + (name_of(*v) + p);
            let y = "_"@ + (name_of(*w) + q);
            pair_opens(*k, *v, p);
            pair_opens(*l, *w, q);
            same_name(*k, x, *l, y);
            cancel("_"@, name_of(*v) + p, name_of(*w) + q);
            same_name(*v, p, *w, q);
        },
        (TypeTerm::Named(m, xs), TypeTerm::Named(n, ys)) => same_application(m, xs, p, n, ys, q),
        (TypeTerm::Instantiated(m, xs), TypeTerm::Instantiated(n, ys)) => same_application(
            m,
            xs,
            p,
            n,
            ys,
            q,
        ),
        (
            TypeTerm::Function { params, ret, default_count },
            TypeTerm::Function { params: params2, ret: ret2, default_count: count2 },
        ) => {
            let c = default_count as nat;
            let d = count2 as nat;
            let x = marked(c) + (name_of(*ret) + p);
            let y = marked(d) + (name_of(*ret2) + q);
            function_opens(params, c, *ret, p);
            function_opens(params2, d, *ret2, q);
            same_number(params.len(), rest(params, 0) + x, params2.len(), rest(params2, 0) + y);
            same_list(params, params2, 0, x, y);
            assert(params =~= params2);
            same_number(c, name_of(*ret) + p, d, name_of(*ret2) + q);
            same_name(*ret, p, *ret2, q);
        },
        (TypeTerm::Generic(m), TypeTerm::Generic(n)) => same_sized(m, p, n, q),
        (TypeTerm::Variable(m), TypeTerm::Variable(n)) => same_sized(m, p, n, q),
        (TypeTerm::Module(m), TypeTerm::Module(n)) => same_sized(m, p, n, q),
        _ => {
            assert(body(a) + p =~= p);
            assert(body(b) + q =~= q);
        },
    }
}

/// Different types have different names.
pub proof fn names_tell_types_apart(a: TypeTerm, b: TypeTerm)
    requires
        name_of(a) == name_of(b),
    ensures
        a == b,
{
    assert(name_of(a) + Seq::<char>::empty() =~= name_of(b) + Seq::<char>::empty());
    same_name(a, seq![], b, seq![]);
}

/// What follows a type in front of the `i`-th one.
pub open spec fn linked_on(ts: Seq<TypeTerm>, i: int) -> Seq<char>
    decreases ts.len() - i,
{
    if i < 0 || i >= ts.len() {
        seq![]
    } else {
        "_"@ + (name_of(ts[i]) + linked_on(ts, i + 1))
    }
}

proof fn joined_is_linked(ts: Seq<TypeTerm>, i: int)
    requires
        0 < i <= ts.len(),
    ensures
        joined(ts, ts.len() as int) == joined(ts, i) + linked_on(ts, i),
    decreases ts.len() - i,
{
    if i < ts.len() {
        joined_is_linked(ts, i + 1);
        assert(joined(ts, i + 1) == joined(ts, i) + "_"@ + name_of(ts[i]));
        assert(joined(ts, i + 1) + linked_on(ts, i + 1) =~= joined(ts, i) + linked_on(ts, i));
    } else {
        assert(joined(ts, i) + linked_on(ts, i) =~= joined(ts, i));
    }
}

proof fn same_links(xs: Seq<TypeTerm>, ys: Seq<TypeTerm>, i: int)
    requires
        0 <= i <= xs.len(),
        i <= ys.len(),
        linked_on(xs, i) == linked_on(ys, i),
    ensures
        xs.len() == ys.len(),
        forall|k: int| i <= k < xs.len() ==> xs[k] == ys[k],
    decreases xs.len() - i,
{
    reveal_strlit("_");
    if i < xs.len() && i < ys.len() {
        let p = linked_on(xs, i + 1);
        let q = linked_on(ys, i + 1);
        cancel("_"@, name_of(xs[i]) + p, name_of(ys[i]) + q);
        same_name(xs[i], p, ys[i], q);
        same_links(xs, ys, i + 1);
    } else if i < xs.len() {
        assert(linked_on(xs, i).len() > 0);
    } else if i < ys.len() {
        assert(linked_on(ys, i).len() > 0);
    }
}

/// Different enums, and different instances of one, have different names. The
/// enums' own names are identifiers, which hold no `$`.
pub proof fn enum_names_tell_instances_apart(
    m: Seq<char>,
    xs: Seq<TypeTerm>,
    n: Seq<char>,
    ys: Seq<TypeTerm>,
)
    requires
        !m.contains('$'),
        !n.contains('$'),
        enum_name(m, xs) == enum_name(n, ys),
    ensures
        m == n,
        xs == ys,
{
    reveal_strlit("$");
    let s = enum_name(m, xs);
    if xs.len() > 0 {
        assert(s[m.len() as int] == '$');
    }
    if ys.len() > 0 {
        assert(s[n.len() as int] == '$');
    }
    if xs.len() > 0 && ys.len() > 0 {
        if m.len() < n.len() {
            assert(s[m.len() as int] == n[m.len() as int]);
        } else if n.len() < m.len() {
            assert(s[n.len() as int] == m[n.len() as int]);
        }
        assert(m =~= s.take(m.len() as int));
        assert(n =~= s.take(m.len() as int));
        cancel(m + "$"@, joined(xs, xs.len() as int), joined(ys, ys.len() as int));
        joined_is_linked(xs, 1);
        joined_is_linked(ys, 1);
        same_name(xs[0], linked_on(xs, 1), ys[0], linked_on(ys, 1));
        same_links(xs, ys, 1);
        assert(xs =~= ys);
    } else if xs.len() > 0 {
        assert(n[m.len() as int] == '$');
    } else if ys.len() > 0 {
        assert(m[n.len() as int] == '$');
    } else {
        assert(xs =~= ys);
    }
}

} // verus!
