//! The instances of generic enums that types call for.

use crate::ast::nodes::TypeNode;
use crate::ast::tree::{tree_shapes, TypeShape, TypeTree};
use crate::codegen::generator::{class_names, has_name, names_of, CodeGenerator};
use crate::codegen::layout::{declared_slot, SlotModel};
use crate::codegen::naming::enum_name;
use crate::codegen::steps::Step;
use crate::codegen::type_nodes::{denoted, denoted_all};
use crate::semantics::types::{term_shapes, terms, type_variant, TypeTerm};
use crate::semantics::Type;
use vstd::prelude::*;

verus! {

broadcast use {term_shapes, tree_shapes};

/// The instances that a type calls for: one for each declared enum with type
/// arguments in it, the inner ones first.
pub open spec fn instances(enums: Seq<Seq<char>>, t: TypeTerm) -> Seq<Seq<char>>
    decreases t, 0int,
{
    match t {
        TypeTerm::List(a) => instances(enums, *a),
        TypeTerm::SetOf(a) => instances(enums, *a),
        TypeTerm::Optional(a) => instances(enums, *a),
        TypeTerm::Reference(a) => instances(enums, *a),
        TypeTerm::MapOf(k, v) => instances(enums, *k) + instances(enums, *v),
        TypeTerm::Tuple(k, v) => instances(enums, *k) + instances(enums, *v),
        TypeTerm::ResultOf(k, v) => instances(enums, *k) + instances(enums, *v),
        TypeTerm::Function { params, ret, default_count } => instances_in(
            enums,
            params,
            params.len() as int,
        ) + instances(enums, *ret),
        TypeTerm::Instantiated(name, args) => instances_in(enums, args, args.len() as int),
        TypeTerm::Named(name, args) => instances_in(enums, args, args.len() as int) + (if args.len()
            > 0 && enums.contains(name) {
            seq![enum_name(name, args)]
        } else {
            seq![]
        }),
        _ => seq![],
    }
}

/// The instances that the first `n` types call for.
pub open spec fn instances_in(enums: Seq<Seq<char>>, ts: Seq<TypeTerm>, n: int) -> Seq<Seq<char>>
    decreases ts, n,
{
    if n <= 0 || n > ts.len() {
        seq![]
    } else {
        instances_in(enums, ts, n - 1) + instances(enums, ts[n - 1])
    }
}

/// Names with more of them, each once.
pub open spec fn with_names(names: Seq<Seq<char>>, more: Seq<Seq<char>>) -> Seq<Seq<char>>
    decreases more.len(),
{
    if more.len() == 0 {
        names
    } else {
        let before = with_names(names, more.drop_last());
        if before.contains(more.last()) {
            before
        } else {
            before.push(more.last())
        }
    }
}

/// The step that makes instances, where there are any to make.
pub open spec fn instance_steps(names: Seq<Seq<char>>) -> Seq<Step> {
    if names.len() > 0 {
        seq![Step::Instantiate]
    } else {
        seq![]
    }
}

impl CodeGenerator {
    /// The instances that a written type calls for.
    pub open spec fn node_instances(&self, t: TypeTree) -> Seq<Seq<char>> {
        instances(names_of(self.enum_variants@), denoted(self.params(), t))
    }

    /// The structs that there are once a written type's instances are made.
    pub open spec fn structs_with(&self, t: TypeTree) -> Seq<Seq<char>> {
        with_names(names_of(self.type_map@), self.node_instances(t))
    }

    fn collect_instances(&self, out: &mut Vec<String>, t: &Type)
        ensures
            names_of(final(out)@) == names_of(old(out)@) + instances(
                names_of(self.enum_variants@),
                t.term(),
            ),
        decreases t, 1int,
    {
        let ghost enums = names_of(self.enum_variants@);
        let ghost front = names_of(out@);
        proof {
            type_variant(*t);
        }
        match t {
            Type::List(a) => {
                assert(*t == Type::List(*a));
                self.collect_instances(out, a);
            },
            Type::SetOf(a) => {
                assert(*t == Type::SetOf(*a));
                self.collect_instances(out, a);
            },
            Type::Optional(a) => {
                assert(*t == Type::Optional(*a));
                self.collect_instances(out, a);
            },
            Type::Reference(a) => {
                assert(*t == Type::Reference(*a));
                self.collect_instances(out, a);
            },
            Type::MapOf(k, v) => {
                assert(*t == Type::MapOf(*k, *v));
                self.collect_instances(out, k);
                self.collect_instances(out, v);
            },
            Type::Tuple(k, v) => {
                assert(*t == Type::Tuple(*k, *v));
                self.collect_instances(out, k);
                self.collect_instances(out, v);
            },
            Type::ResultOf(k, v) => {
                assert(*t == Type::ResultOf(*k, *v));
                self.collect_instances(out, k);
                self.collect_instances(out, v);
            },
            Type::Function { params, ret, default_count } => {
                assert(*t == (Type::Function {
                    params: *params,
                    ret: *ret,
                    default_count: *default_count,
                }));
                self.collect_all(out, params);
                self.collect_instances(out, ret);
            },
            Type::Instantiated(name, args) => {
                assert(*t == Type::Instantiated(*name, *args));
                self.collect_all(out, args);
            },
            Type::Named(name, args) => {
                assert(*t == Type::Named(*name, *args));
                self.collect_all(out, args);
                if args.len() > 0 && has_name(&self.enum_variants, name.as_str()) {
                    let ghost before = names_of(out@);
                    let instance = self.mangled_enum_name(name.as_str(), args);
                    out.push(instance);
                    assert(names_of(out@) =~= before.push(instance@));
                }
            },
            _ => {},
        }
        assert(names_of(out@) =~= front + instances(enums, t.term()));
    }

    fn collect_all(&self, out: &mut Vec<String>, types: &Vec<Type>)
        ensures
            names_of(final(out)@) == names_of(old(out)@) + instances_in(
                names_of(self.enum_variants@),
                terms(types@),
                types@.len() as int,
            ),
        decreases types, 0int,
    {
        let ghost enums = names_of(self.enum_variants@);
        let ghost front = names_of(out@);
        let ghost ts = terms(types@);
        let mut i: usize = 0;
        assert(names_of(out@) =~= front + instances_in(enums, ts, 0));
        while i < types.len()
            invariant
                i <= types@.len(),
                ts == terms(types@),
                ts.len() == types@.len(),
                enums == names_of(self.enum_variants@),
                names_of(out@) == front + instances_in(enums, ts, i as int),
            decreases types@.len() - i,
        {
            assert(ts[i as int] == types@[i as int].term());
            self.collect_instances(out, &types[i]);
            assert(names_of(out@) =~= front + instances_in(enums, ts, i + 1));
            i += 1;
        }
    }

    /// Makes instances: from here on they have structs.
    pub fn add_instances(&mut self, names: &Vec<String>) -> (r: Vec<Step>)
        ensures
            r@ == instance_steps(names_of(names@)),
            names_of(final(self).type_map@) == with_names(
                names_of(old(self).type_map@),
                names_of(names@),
            ),
            *final(self) == (CodeGenerator { type_map: final(self).type_map, ..*old(self) }),
    {
        let ghost all = names_of(names@);
        let ghost start = names_of(self.type_map@);
        let mut i: usize = 0;
        assert(all.take(0) =~= seq![]);
        while i < names.len()
            invariant
                i <= names@.len(),
                all == names_of(names@),
                start == names_of(old(self).type_map@),
                names_of(self.type_map@) == with_names(start, all.take(i as int)),
                *self == (CodeGenerator { type_map: self.type_map, ..*old(self) }),
            decreases names@.len() - i,
        {
            let ghost before = names_of(self.type_map@);
            assert(all.take(i + 1).drop_last() =~= all.take(i as int));
            assert(all.take(i + 1).last() == names@[i as int]@);
            if !has_name(&self.type_map, names[i].as_str()) {
                self.type_map.push(names[i].clone());
                assert(names_of(self.type_map@) =~= before.push(names@[i as int]@));
            }
            i += 1;
        }
        assert(all.take(i as int) =~= all);
        let mut out: Vec<Step> = Vec::new();
        if names.len() > 0 {
            out.push(Step::Instantiate);
        }
        assert(out@ =~= instance_steps(all));
        out
    }

    /// Makes the instances that a written type calls for.
    pub fn instantiate_generic_types_in_type_node(&mut self, type_node: &TypeNode) -> (r: Vec<Step>)
        ensures
            r@ == instance_steps(old(self).node_instances(type_node.tree())),
            names_of(final(self).type_map@) == old(self).structs_with(type_node.tree()),
            *final(self) == (CodeGenerator { type_map: final(self).type_map, ..*old(self) }),
    {
        let t = self.type_node_to_type(type_node);
        let mut names: Vec<String> = Vec::new();
        self.collect_instances(&mut names, &t);
        assert(names_of(names@) =~= self.node_instances(type_node.tree()));
        self.add_instances(&names)
    }

    /// Makes the instance of an enum for type arguments, where it has any.
    pub fn ensure_enum_instantiated(&mut self, base: &str, args: &Vec<Type>) -> (r: Vec<Step>)
        ensures
            r@ == instance_steps(one_instance(base@, terms(args@))),
            names_of(final(self).type_map@) == with_names(
                names_of(old(self).type_map@),
                one_instance(base@, terms(args@)),
            ),
            *final(self) == (CodeGenerator { type_map: final(self).type_map, ..*old(self) }),
    {
        let mut names: Vec<String> = Vec::new();
        if args.len() > 0 {
            names.push(self.mangled_enum_name(base, args));
        }
        assert(names_of(names@) =~= one_instance(base@, terms(args@)));
        self.add_instances(&names)
    }
}

/// The instance of an enum for type arguments.
pub open spec fn one_instance(base: Seq<char>, args: Seq<TypeTerm>) -> Seq<Seq<char>> {
    if args.len() > 0 {
        seq![enum_name(base, args)]
    } else {
        seq![]
    }
}

/// Names that are added are there, and so are those from before.
pub proof fn added_names_are_there(names: Seq<Seq<char>>, more: Seq<Seq<char>>, name: Seq<char>)
    ensures
        with_names(names, more).contains(name) <==> names.contains(name) || more.contains(name),
    decreases more.len(),
{
    if more.len() > 0 {
        let front = more.drop_last();
        added_names_are_there(names, front, name);
        let before = with_names(names, front);
        let after = with_names(names, more);
        assert(more =~= front.push(more.last()));
        if more.contains(name) && !front.contains(name) {
            let i = choose|i: int| 0 <= i < more.len() && more[i] == name;
            if i < front.len() {
                assert(front[i] == name);
            }
            assert(name == more.last());
        }
        if front.contains(name) {
            let i = choose|i: int| 0 <= i < front.len() && front[i] == name;
            assert(more[i] == name);
        }
        assert(more[more.len() - 1] == more.last());
        if !before.contains(more.last()) {
            assert(after == before.push(more.last()));
            assert(after[before.len() as int] == more.last());
            if before.contains(name) {
                let i = choose|i: int| 0 <= i < before.len() && before[i] == name;
                assert(after[i] == name);
            }
            if after.contains(name) {
                let i = choose|i: int| 0 <= i < after.len() && after[i] == name;
                if i < before.len() {
                    assert(before[i] == name);
                }
            }
        }
    }
}

/// A declaration that names a generic enum with its type arguments finds the
/// instance's struct, whether or not the instance was there before.
pub proof fn generic_declaration_has_struct(
    g: &CodeGenerator,
    t: TypeTree,
    name: Seq<char>,
    args: Seq<TypeTree>,
)
    requires
        t.kind == TypeShape::Named(name, args),
        args.len() > 0,
        crate::codegen::generator::lookup(g.params(), name) is None,
        names_of(g.enum_variants@).contains(name),
        name != "optional"@,
        name != "result"@,
    ensures
        declared_slot(
            g.params(),
            class_names(g.classes@),
            names_of(g.enum_variants@),
            g.structs_with(t),
            t.kind,
        ) == Ok::<SlotModel, Seq<char>>(
            SlotModel::Struct(
                enum_name(name, denoted_all(g.params(), args, args.len() as int)),
            ),
        ),
{
    let inner = denoted_all(g.params(), args, args.len() as int);
    denoted_count(g.params(), args, args.len() as int);
    let more = g.node_instances(t);
    assert(denoted(g.params(), t) == TypeTerm::Named(name, inner));
    assert(more[more.len() - 1] == enum_name(name, inner));
    added_names_are_there(names_of(g.type_map@), more, enum_name(name, inner));
}

proof fn denoted_count(b: crate::codegen::generator::Bindings, ns: Seq<TypeTree>, n: int)
    requires
        0 <= n <= ns.len(),
    ensures
        denoted_all(b, ns, n).len() == n,
    decreases n,
{
    if n > 0 {
        denoted_count(b, ns, n - 1);
    }
}

/// A match on a generic enum with type arguments finds the instance's struct,
/// whether or not the instance was there before.
pub proof fn matched_instance_has_struct(
    structs: Seq<Seq<char>>,
    base: Seq<char>,
    args: Seq<TypeTerm>,
)
    requires
        args.len() > 0,
    ensures
        with_names(structs, one_instance(base, args)).contains(enum_name(base, args)),
{
    let more = one_instance(base, args);
    assert(more[0] == enum_name(base, args));
    added_names_are_there(structs, more, enum_name(base, args));
}

} // verus!
