//! Checks of `where { ... }` constraints.
//!
//! Each predicate is evaluated where the constraint holds: at a function's
//! entry, when an object is built, and when a field is assigned. A false
//! predicate ends the program.

use crate::ast::nodes::{FunctionNode, Param};
use crate::codegen::generator::{has_name, names_of, Bindings, CodeGenerator};
use crate::codegen::scopes::{bound, scoped, scopes_of};
use crate::codegen::steps::{BlockLabel, CheckSite, Part, RawKind, Reg, Step};
use crate::semantics::types::{term_shapes, TypeTerm};
use crate::text::{cat, chars_of, same, string_of};
use vstd::prelude::*;

verus! {

broadcast use term_shapes;

/// The check of a predicate: a false one ends the program, a true one goes on
/// in a block of its own.
pub open spec fn check_steps(site: CheckSite, i: usize, place: usize) -> Seq<Step> {
    let fail = BlockLabel::CheckFail(site, i);
    let ok = BlockLabel::CheckOk(site, i);
    seq![
        Step::Evaluate { part: Part::Predicate(place), into: Reg::Value },
        Step::Raw { kind: RawKind::Bool, value: Reg::Value, into: Reg::Condition },
        Step::Append(fail),
        Step::Append(ok),
        Step::Branch { condition: Reg::Condition, yes: ok, no: fail },
        Step::Enter(fail),
        Step::Fatal {
            message: "where constraint violated",
            predicate: place,
            site,
            check: i,
        },
        Step::Enter(ok),
    ]
}

/// The checks of the first `n` of the predicates at some places. One that is
/// known to be true is not checked.
pub open spec fn checks_at(known: Seq<bool>, places: Seq<usize>, site: CheckSite, n: int) -> Seq<
    Step,
>
    decreases n,
{
    if n <= 0 || n > places.len() {
        seq![]
    } else if known[places[n - 1] as int] {
        checks_at(known, places, site, n - 1)
    } else {
        checks_at(known, places, site, n - 1) + check_steps(
            site,
            (n - 1) as usize,
            places[n - 1],
        )
    }
}

/// All places below a bound.
pub open spec fn places_below(n: nat) -> Seq<usize> {
    Seq::new(n, |i: int| i as usize)
}

/// The checks of predicates, where `known` says of each whether it is true
/// whatever the program does.
pub open spec fn checks(known: Seq<bool>, site: CheckSite) -> Seq<Step> {
    checks_at(known, places_below(known.len()), site, known.len() as int)
}

fn check(out: &mut Vec<Step>, site: CheckSite, i: usize, place: usize)
    ensures
        final(out)@ == old(out)@ + check_steps(site, i, place),
{
    let fail = BlockLabel::CheckFail(site, i);
    let ok = BlockLabel::CheckOk(site, i);
    out.push(Step::Evaluate { part: Part::Predicate(place), into: Reg::Value });
    out.push(Step::Raw { kind: RawKind::Bool, value: Reg::Value, into: Reg::Condition });
    out.push(Step::Append(fail));
    out.push(Step::Append(ok));
    out.push(Step::Branch { condition: Reg::Condition, yes: ok, no: fail });
    out.push(Step::Enter(fail));
    out.push(
        Step::Fatal { message: "where constraint violated", predicate: place, site, check: i },
    );
    out.push(Step::Enter(ok));
    assert(out@ =~= old(out)@ + check_steps(site, i, place));
}

fn emit_checks_at(known: &Vec<bool>, places: &Vec<usize>, site: CheckSite) -> (r: Vec<Step>)
    requires
        forall|k: int| 0 <= k < places@.len() ==> (#[trigger] places@[k]) < known@.len(),
    ensures
        r@ == checks_at(known@, places@, site, places@.len() as int),
{
    let mut out: Vec<Step> = Vec::new();
    let mut i: usize = 0;
    while i < places.len()
        invariant
            i <= places@.len(),
            forall|k: int| 0 <= k < places@.len() ==> (#[trigger] places@[k]) < known@.len(),
            out@ == checks_at(known@, places@, site, i as int),
        decreases places@.len() - i,
    {
        if !known[places[i]] {
            check(&mut out, site, i, places[i]);
        }
        i += 1;
    }
    out
}

/// Checks predicates one after the other, where `known` says of each whether
/// it is true whatever the program does.
pub fn emit_where_checks(known: &Vec<bool>, site: CheckSite) -> (r: Vec<Step>)
    ensures
        r@ == checks(known@, site),
{
    let mut places: Vec<usize> = Vec::new();
    let mut i: usize = 0;
    while i < known.len()
        invariant
            i <= known@.len(),
            places@ == places_below(i as nat),
        decreases known@.len() - i,
    {
        places.push(i);
        i += 1;
        assert(places@ =~= places_below(i as nat));
    }
    emit_checks_at(known, &places, site)
}

/// The place of the first dot.
pub open spec fn dot_place(s: Seq<char>) -> int {
    crate::source::scan(s, 0, |c: char| c != '.')
}

/// A method's class and its name in the class.
pub open spec fn method_parts(name: Seq<char>) -> Option<(Seq<char>, Seq<char>)> {
    let p = dot_place(name);
    if p < name.len() {
        Some((name.take(p), name.skip(p + 1)))
    } else {
        None
    }
}

/// A method's class and its name in the class, parted at the first dot. A
/// name without one is a function's.
pub fn split_method_name(name: &str) -> (r: Option<(String, String)>)
    ensures
        match r {
            Some(p) => method_parts(name@) == Some((p.0@, p.1@)),
            None => method_parts(name@) is None,
        },
{
    let chars = chars_of(name);
    let ghost p = |c: char| c != '.';
    let mut i: usize = 0;
    while i < chars.len() && chars[i] != '.'
        invariant
            i <= chars@.len(),
            chars@ == name@,
            p == (|c: char| c != '.'),
            crate::source::scan(name@, 0, p) == crate::source::scan(name@, i as int, p),
        decreases chars@.len() - i,
    {
        i += 1;
    }
    if i < chars.len() {
        assert(crate::source::scan(name@, i as int, p) == i);
        assert(name@.take(i as int) =~= chars@.subrange(0, i as int));
        assert(name@.skip(i + 1) =~= chars@.subrange(i + 1, chars@.len() as int));
        Some((string_of(&chars, 0, i), string_of(&chars, i + 1, chars.len())))
    } else {
        assert(crate::source::scan(name@, i as int, p) == i);
        None
    }
}

/// Which of the first `n` names of an interface's parameters are bound for its
/// predicates: those that the method calls otherwise.
pub open spec fn renamed(
    scopes: Seq<Bindings>,
    interface_names: Seq<Seq<char>>,
    params: Seq<Param>,
    n: int,
) -> Seq<Step>
    decreases n,
{
    if n <= 0 || n > interface_names.len() || n > params.len() {
        seq![]
    } else {
        let before = renamed(scopes, interface_names, params, n - 1);
        if interface_names[n - 1] != params[n - 1].name@ && scoped(scopes, params[n - 1].name@) is Some {
            before.push(Step::BindParameter((n - 1) as usize))
        } else {
            before
        }
    }
}

pub open spec fn shorter(a: nat, b: nat) -> int {
    if a < b {
        a as int
    } else {
        b as int
    }
}

/// The preconditions that an interface wrote: its names of the method's
/// parameters, and of each predicate whether it is true whatever the program
/// does.
#[derive(Debug)]
pub struct InheritedPreconditions {
    pub interface_param_names: Vec<String>,
    pub known: Vec<bool>,
}

/// Steps in a scope of their own.
pub open spec fn in_scope(binds: Seq<Step>, steps: Seq<Step>) -> Seq<Step> {
    seq![Step::OpenScope] + binds + steps + seq![Step::CloseScope]
}

impl CodeGenerator {
    /// The checks of an interface's preconditions at a method's entry.
    pub open spec fn interface_checks(
        &self,
        params: Seq<Param>,
        set: InheritedPreconditions,
        k: usize,
    ) -> Seq<Step> {
        in_scope(
            renamed(
                scopes_of(self.variables@),
                names_of(set.interface_param_names@),
                params,
                shorter(set.interface_param_names@.len(), params.len()),
            ),
            checks(set.known@, CheckSite::Interface(k)),
        )
    }

    /// The checks of the first `n` interfaces' preconditions.
    pub open spec fn inherited_checks(
        &self,
        params: Seq<Param>,
        inherited: Seq<InheritedPreconditions>,
        n: int,
    ) -> Seq<Step>
        decreases n,
    {
        if n <= 0 || n > inherited.len() {
            seq![]
        } else {
            self.inherited_checks(params, inherited, n - 1) + self.interface_checks(
                params,
                inherited[n - 1],
                (n - 1) as usize,
            )
        }
    }

    /// The checks at a function's entry: its own, and a method's inherited
    /// ones.
    pub open spec fn entry_checks(
        &self,
        func: FunctionNode,
        own: Seq<bool>,
        inherited: Seq<InheritedPreconditions>,
    ) -> Seq<Step> {
        (if func.where_clause is Some {
            checks(own, CheckSite::Entry)
        } else {
            seq![]
        }) + (if method_parts(func.name@) is Some {
            self.inherited_checks(func.params@, inherited, inherited.len() as int)
        } else {
            seq![]
        })
    }

    /// Checks the preconditions that the interface at place `set_index` wrote.
    /// Its predicates are evaluated in a scope in which its names stand for the
    /// method's parameters, place by place.
    pub fn emit_inherited_preconditions(
        &self,
        params: &Vec<Param>,
        set: &InheritedPreconditions,
        set_index: usize,
    ) -> (r: Vec<Step>)
        ensures
            r@ == self.interface_checks(params@, *set, set_index),
    {
        let names = &set.interface_param_names;
        let mut out: Vec<Step> = Vec::new();
        out.push(Step::OpenScope);
        let mut i: usize = 0;
        let ghost scopes = scopes_of(self.variables@);
        assert(out@ =~= seq![Step::OpenScope] + renamed(scopes, names_of(names@), params@, 0));
        while i < names.len() && i < params.len()
            invariant
                i <= names@.len(),
                i <= params@.len(),
                scopes == scopes_of(self.variables@),
                out@ == seq![Step::OpenScope] + renamed(
                    scopes,
                    names_of(names@),
                    params@,
                    i as int,
                ),
            decreases params@.len() - i,
        {
            let ghost before = renamed(scopes, names_of(names@), params@, i as int);
            if self.get_local(params[i].name.as_str()).is_some() {
                if !same(names[i].as_str(), params[i].name.as_str()) {
                    out.push(Step::BindParameter(i));
                    assert(out@ =~= seq![Step::OpenScope] + before.push(Step::BindParameter(i)));
                }
            }
            i += 1;
        }
        assert(i == shorter(names@.len(), params@.len()));
        let ghost binds = renamed(scopes, names_of(names@), params@, i as int);
        let mut steps = emit_where_checks(&set.known, CheckSite::Interface(set_index));
        let ghost rest = steps@;
        out.append(&mut steps);
        out.push(Step::CloseScope);
        assert(out@ =~= in_scope(binds, rest));
        out
    }

    /// Checks what a function asks for at its entry: its own preconditions,
    /// where `own` says of each predicate whether it is true whatever the
    /// program does, and those that a method inherits from its class's
    /// interfaces.
    pub fn emit_function_preconditions(
        &self,
        func: &FunctionNode,
        own: &Vec<bool>,
        inherited: &Vec<InheritedPreconditions>,
    ) -> (r: Vec<Step>)
        ensures
            r@ == self.entry_checks(*func, own@, inherited@),
    {
        let mut out: Vec<Step> = Vec::new();
        if func.where_clause.is_some() {
            out = emit_where_checks(own, CheckSite::Entry);
        }
        let ghost front = out@;
        if split_method_name(func.name.as_str()).is_none() {
            assert(out@ =~= front + seq![]);
            return out;
        }
        let mut i: usize = 0;
        assert(out@ =~= front + self.inherited_checks(func.params@, inherited@, 0));
        while i < inherited.len()
            invariant
                i <= inherited@.len(),
                out@ == front + self.inherited_checks(func.params@, inherited@, i as int),
            decreases inherited@.len() - i,
        {
            let ghost before = self.inherited_checks(func.params@, inherited@, i as int);
            let mut steps = self.emit_inherited_preconditions(&func.params, &inherited[i], i);
            let ghost rest = steps@;
            out.append(&mut steps);
            assert(out@ =~= front + (before + rest));
            i += 1;
        }
        out
    }
}

/// The invariants among the first `n` that speak of a field.
pub open spec fn speaking_of(referenced: Seq<Vec<String>>, field: Seq<char>, n: int) -> Seq<usize>
    decreases n,
{
    if n <= 0 || n > referenced.len() {
        seq![]
    } else if names_of(referenced[n - 1]@).contains(field) {
        speaking_of(referenced, field, n - 1).push((n - 1) as usize)
    } else {
        speaking_of(referenced, field, n - 1)
    }
}

/// The invariants to check again after an assignment to a field: those that
/// speak of it. `referenced` holds the fields that each invariant speaks of.
pub fn invariants_for_field(referenced: &Vec<Vec<String>>, assigned_field: &str) -> (r: Vec<usize>)
    ensures
        r@ == speaking_of(referenced@, assigned_field@, referenced@.len() as int),
{
    let mut out: Vec<usize> = Vec::new();
    let mut i: usize = 0;
    while i < referenced.len()
        invariant
            i <= referenced@.len(),
            out@ == speaking_of(referenced@, assigned_field@, i as int),
        decreases referenced@.len() - i,
    {
        if has_name(&referenced[i], assigned_field) {
            out.push(i);
        }
        i += 1;
    }
    out
}

proof fn speaking_in_range(referenced: Seq<Vec<String>>, field: Seq<char>, n: int)
    requires
        0 <= n <= referenced.len(),
    ensures
        forall|k: int|
            0 <= k < speaking_of(referenced, field, n).len() ==> 0 <= (#[trigger] speaking_of(
                referenced,
                field,
                n,
            )[k]) < n,
    decreases n,
{
    if n > 0 {
        speaking_in_range(referenced, field, n - 1);
        let before = speaking_of(referenced, field, n - 1);
        let all = speaking_of(referenced, field, n);
        assert forall|k: int| 0 <= k < all.len() implies 0 <= #[trigger] all[k] < n by {
            if k < before.len() {
                assert(all[k] == before[k]);
            }
        }
    }
}

/// A field of a class and its place in the object.
#[derive(Debug)]
pub struct FieldIndex {
    pub name: String,
    pub index: usize,
}

/// The place of a field in the object.
pub open spec fn index_of(indices: Seq<FieldIndex>, name: Seq<char>) -> Option<usize>
    decreases indices.len(),
{
    if indices.len() == 0 {
        None
    } else if indices[0].name@ == name {
        Some(indices[0].index)
    } else {
        index_of(indices.drop_first(), name)
    }
}

fn find_index(indices: &Vec<FieldIndex>, name: &str) -> (r: Option<usize>)
    ensures
        r == index_of(indices@, name@),
{
    let mut i: usize = 0;
    let ghost all = indices@;
    assert(all.skip(0) =~= all);
    while i < indices.len()
        invariant
            i <= all.len(),
            all == indices@,
            index_of(all, name@) == index_of(all.skip(i as int), name@),
        decreases all.len() - i,
    {
        assert(all.skip(i as int)[0] == all[i as int]);
        assert(all.skip(i as int).drop_first() =~= all.skip(i + 1));
        if same(indices[i].name.as_str(), name) {
            return Some(indices[i].index);
        }
        i += 1;
    }
    None
}

/// The places of fields with the field's place in the object, ordered by the
/// latter, with one more put behind those that it does not precede.
pub open spec fn field_placed(s: Seq<(int, usize)>, x: (int, usize)) -> Seq<(int, usize)>
    decreases s.len(),
{
    if s.len() > 0 && x.1 < s.last().1 {
        field_placed(s.drop_last(), x).push(s.last())
    } else {
        s.push(x)
    }
}

/// The first `n` fields that have a place in the object, in its order.
pub open spec fn field_order(fields: Seq<Seq<char>>, indices: Seq<FieldIndex>, n: int) -> Seq<
    (int, usize),
>
    decreases n,
{
    if n <= 0 || n > fields.len() {
        seq![]
    } else {
        let before = field_order(fields, indices, n - 1);
        match index_of(indices, fields[n - 1]) {
            Some(index) => field_placed(before, (n - 1, index)),
            None => before,
        }
    }
}

pub open spec fn pairs_of(s: Seq<(usize, usize)>) -> Seq<(int, usize)> {
    Seq::new(s.len(), |i: int| (s[i].0 as int, s[i].1))
}

fn place_field(s: &mut Vec<(usize, usize)>, x: (usize, usize))
    ensures
        pairs_of(final(s)@) == field_placed(pairs_of(old(s)@), (x.0 as int, x.1)),
    decreases old(s)@.len(),
{
    let n: usize = s.len();
    let ghost before = pairs_of(s@);
    if n > 0 && x.1 < s[n - 1].1 {
        match s.pop() {
            Some(last) => {
                assert(pairs_of(s@) =~= before.drop_last());
                place_field(s, x);
                let ghost inner = pairs_of(s@);
                s.push(last);
                assert(pairs_of(s@) =~= inner.push((last.0 as int, last.1)));
            },
            None => {},
        }
    } else {
        s.push(x);
        assert(pairs_of(s@) =~= before.push((x.0 as int, x.1)));
    }
}

/// The first field of some whose place in the object is not below `count`.
pub open spec fn stray(order: Seq<(int, usize)>, count: nat, i: int) -> Option<int>
    decreases order.len() - i,
{
    if i < 0 || i >= order.len() {
        None
    } else if order[i].1 >= count {
        Some(order[i].0)
    } else {
        stray(order, count, i + 1)
    }
}

/// The fields of a class in the order of the object, each by its place among
/// `fields` and its place in the object, so that predicates can read fields
/// like locals. Fields without a place are left out. `count` is how many
/// fields the object has.
pub fn bind_class_fields(fields: &Vec<String>, indices: &Vec<FieldIndex>, count: usize) -> (r: Result<
    Vec<(usize, usize)>,
    String,
>)
    ensures
        ({
            let order = field_order(names_of(fields@), indices@, fields@.len() as int);
            match stray(order, count as nat, 0) {
                None => r matches Ok(v) && pairs_of(v@) == order,
                Some(f) => r matches Err(e) && e@ == "Field "@ + names_of(fields@)[f]
                    + " index out of range"@,
            }
        }),
{
    let mut out: Vec<(usize, usize)> = Vec::new();
    let mut i: usize = 0;
    assert(pairs_of(out@) =~= seq![]);
    while i < fields.len()
        invariant
            i <= fields@.len(),
            pairs_of(out@) == field_order(names_of(fields@), indices@, i as int),
        decreases fields@.len() - i,
    {
        match find_index(indices, fields[i].as_str()) {
            Some(index) => {
                place_field(&mut out, (i, index));
            },
            None => {},
        }
        i += 1;
    }
    let ghost order = pairs_of(out@);
    proof {
        order_in_range(names_of(fields@), indices@, fields@.len() as int);
    }
    let mut j: usize = 0;
    while j < out.len()
        invariant
            j <= out@.len(),
            order == pairs_of(out@),
            order == field_order(names_of(fields@), indices@, fields@.len() as int),
            forall|k: int|
                0 <= k < order.len() ==> 0 <= (#[trigger] order[k]).0 < names_of(fields@).len(),
            stray(order, count as nat, 0) == stray(order, count as nat, j as int),
        decreases out@.len() - j,
    {
        assert(order[j as int] == (out@[j as int].0 as int, out@[j as int].1));
        if out[j].1 >= count {
            let mut message = cat("Field ", fields[out[j].0].as_str());
            message.append(" index out of range");
            return Err(message);
        }
        j += 1;
    }
    Ok(out)
}

proof fn placed_in_range(s: Seq<(int, usize)>, x: (int, usize), n: int)
    requires
        forall|k: int| 0 <= k < s.len() ==> 0 <= (#[trigger] s[k]).0 < n,
        0 <= x.0 < n,
    ensures
        forall|k: int|
            0 <= k < field_placed(s, x).len() ==> 0 <= (#[trigger] field_placed(s, x)[k]).0 < n,
        field_placed(s, x).len() == s.len() + 1,
    decreases s.len(),
{
    if s.len() > 0 && x.1 < s.last().1 {
        placed_in_range(s.drop_last(), x, n);
    }
}

proof fn order_in_range(fields: Seq<Seq<char>>, indices: Seq<FieldIndex>, n: int)
    requires
        0 <= n <= fields.len(),
    ensures
        forall|k: int|
            0 <= k < field_order(fields, indices, n).len() ==> 0 <= (#[trigger] field_order(
                fields,
                indices,
                n,
            )[k]).0 < n,
    decreases n,
{
    if n > 0 {
        order_in_range(fields, indices, n - 1);
        match index_of(indices, fields[n - 1]) {
            Some(index) => {
                placed_in_range(field_order(fields, indices, n - 1), (n - 1, index), n);
            },
            None => {},
        }
    }
}

/// Binds fields to their places in the object.
pub open spec fn field_binds(order: Seq<(int, usize)>) -> Seq<Step> {
    Seq::new(
        order.len(),
        |i: int| Step::BindField { field: order[i].0 as usize, index: order[i].1 },
    )
}

/// The fields of an object, as predicates read them.
#[derive(Debug)]
pub struct ObjectFields {
    /// The names of the class's fields.
    pub fields: Vec<String>,
    /// Their places in the object.
    pub indices: Vec<FieldIndex>,
    /// How many fields the object has.
    pub count: usize,
}

impl ObjectFields {
    /// The fields in the order of the object.
    pub open spec fn order(&self) -> Seq<(int, usize)> {
        field_order(names_of(self.fields@), self.indices@, self.fields@.len() as int)
    }

    /// The first field that has no place in the object.
    pub open spec fn stray(&self) -> Option<int> {
        stray(self.order(), self.count as nat, 0)
    }
}

impl CodeGenerator {
    /// Why a class has no object to read fields of: the first table that lacks
    /// it.
    pub open spec fn missing_table(
        &self,
        class: Seq<char>,
        declared: Seq<char>,
        indices: Option<Vec<FieldIndex>>,
        count: Option<usize>,
        fields: Option<Vec<String>>,
    ) -> Option<Seq<char>> {
        if !names_of(self.type_map@).contains(class) {
            Some("Class "@ + class + " not found in type map"@)
        } else if indices is None {
            Some("Class "@ + class + " not found in field map"@)
        } else if count is None {
            Some("Class "@ + class + " not found in field types map"@)
        } else if fields is None {
            Some("Class "@ + declared + " not found in symbol table"@)
        } else {
            None
        }
    }

    /// The object of a class. `indices` are the places of the fields under the
    /// class's name and `count` is how many there are; `fields` are the fields
    /// of the class as it was declared.
    pub fn class_object(
        &self,
        class_name: &str,
        declared_name: &str,
        indices: Option<Vec<FieldIndex>>,
        count: Option<usize>,
        fields: Option<Vec<String>>,
    ) -> (r: Result<ObjectFields, String>)
        ensures
            match self.missing_table(class_name@, declared_name@, indices, count, fields) {
                Some(e) => r matches Err(m) && m@ == e,
                None => r matches Ok(o) && Some(o.indices) == indices && Some(o.count) == count
                    && Some(o.fields) == fields,
            },
    {
        if !has_name(&self.type_map, class_name) {
            return Err(not_found(class_name, " not found in type map"));
        }
        match indices {
            None => Err(not_found(class_name, " not found in field map")),
            Some(indices) => match count {
                None => Err(not_found(class_name, " not found in field types map")),
                Some(count) => match fields {
                    None => Err(not_found(declared_name, " not found in symbol table")),
                    Some(fields) => Ok(ObjectFields { fields, indices, count }),
                },
            },
        }
    }
}

fn not_found(class_name: &str, place: &str) -> (r: String)
    ensures
        r@ == "Class "@ + class_name@ + place@,
{
    let mut out = cat("Class ", class_name);
    out.append(place);
    out
}

/// Checks of an object's invariants, with its fields bound, or why they
/// cannot be bound. An object without invariants binds nothing.
pub open spec fn object_checks(
    object: Result<ObjectFields, String>,
    none: bool,
    steps: Seq<Step>,
) -> Result<Seq<Step>, Seq<char>> {
    if none {
        Ok(seq![])
    } else {
        match object {
            Err(e) => Err(e@),
            Ok(o) => match o.stray() {
                Some(f) => Err("Field "@ + names_of(o.fields@)[f] + " index out of range"@),
                None => Ok(in_scope(field_binds(o.order()), steps)),
            },
        }
    }
}

/// What a check of an object gives.
pub open spec fn gives(r: Result<Vec<Step>, String>, m: Result<Seq<Step>, Seq<char>>) -> bool {
    match m {
        Ok(steps) => r matches Ok(v) && v@ == steps,
        Err(e) => r matches Err(t) && t@ == e,
    }
}

fn with_fields(object: &Result<ObjectFields, String>, checks: Vec<Step>) -> (r: Result<
    Vec<Step>,
    String,
>)
    ensures
        gives(r, object_checks(*object, false, checks@)),
{
    let object = match object {
        Ok(o) => o,
        Err(e) => {
            return Err(e.clone());
        },
    };
    let mut checks = checks;
    let ghost steps = checks@;
    let binds = match bind_class_fields(&object.fields, &object.indices, object.count) {
        Ok(b) => b,
        Err(e) => {
            return Err(e);
        },
    };
    let ghost order = object.order();
    assert(pairs_of(binds@) == order);
    let mut out: Vec<Step> = Vec::new();
    out.push(Step::OpenScope);
    let mut i: usize = 0;
    while i < binds.len()
        invariant
            i <= binds@.len(),
            pairs_of(binds@) == order,
            out@ == seq![Step::OpenScope] + field_binds(order).take(i as int),
        decreases binds@.len() - i,
    {
        assert(order[i as int] == (binds@[i as int].0 as int, binds@[i as int].1));
        out.push(Step::BindField { field: binds[i].0, index: binds[i].1 });
        i += 1;
        assert(out@ =~= seq![Step::OpenScope] + field_binds(order).take(i as int));
    }
    assert(pairs_of(binds@).len() == binds@.len());
    assert(field_binds(order).take(i as int) =~= field_binds(order));
    out.append(&mut checks);
    out.push(Step::CloseScope);
    assert(out@ =~= in_scope(field_binds(order), steps));
    Ok(out)
}

/// Checks a new object: every invariant of its class, with the fields bound
/// like locals.
pub fn emit_construction_invariants(
    object: &Result<ObjectFields, String>,
    known: &Vec<bool>,
) -> (r: Result<Vec<Step>, String>)
    ensures
        gives(
            r,
            object_checks(*object, known@.len() == 0, checks(known@, CheckSite::Construction)),
        ),
{
    if known.len() == 0 {
        let none: Vec<Step> = Vec::new();
        assert(none@ =~= seq![]);
        return Ok(none);
    }
    with_fields(object, emit_where_checks(known, CheckSite::Construction))
}

/// Checks an object after an assignment to a field: the invariants that speak
/// of it, in their order. `referenced` holds the fields that each invariant
/// speaks of.
pub fn emit_field_assignment_invariants(
    object: &Result<ObjectFields, String>,
    referenced: &Vec<Vec<String>>,
    known: &Vec<bool>,
    assigned_field: &str,
    block_prefix: &'static str,
) -> (r: Result<Vec<Step>, String>)
    requires
        known@.len() == referenced@.len(),
    ensures
        ({
            let places = speaking_of(referenced@, assigned_field@, referenced@.len() as int);
            gives(
                r,
                object_checks(
                    *object,
                    places.len() == 0,
                    checks_at(
                        known@,
                        places,
                        CheckSite::Named(block_prefix),
                        places.len() as int,
                    ),
                ),
            )
        }),
{
    let chosen = invariants_for_field(referenced, assigned_field);
    proof {
        speaking_in_range(referenced@, assigned_field@, referenced@.len() as int);
    }
    if chosen.len() == 0 {
        let none: Vec<Step> = Vec::new();
        assert(none@ =~= seq![]);
        return Ok(none);
    }
    with_fields(object, emit_checks_at(known, &chosen, CheckSite::Named(block_prefix)))
}

/// The scopes once steps are carried out, where `binding` says what a step
/// binds.
pub open spec fn scopes_behind(
    steps: Seq<Step>,
    scopes: Seq<Bindings>,
    binding: spec_fn(Step) -> (Seq<char>, TypeTerm),
) -> Seq<Bindings>
    decreases steps.len(),
{
    if steps.len() == 0 {
        scopes
    } else {
        let before = scopes_behind(steps.drop_last(), scopes, binding);
        let b = binding(steps.last());
        match steps.last() {
            Step::OpenScope => before.push(seq![]),
            Step::CloseScope => before.drop_last(),
            Step::BindParameter(_) => bound(before, b.0, b.1),
            Step::BindField { .. } => bound(before, b.0, b.1),
            _ => before,
        }
    }
}

proof fn behind_both(
    a: Seq<Step>,
    b: Seq<Step>,
    scopes: Seq<Bindings>,
    binding: spec_fn(Step) -> (Seq<char>, TypeTerm),
)
    ensures
        scopes_behind(a + b, scopes, binding) == scopes_behind(
            b,
            scopes_behind(a, scopes, binding),
            binding,
        ),
    decreases b.len(),
{
    if b.len() == 0 {
        assert(a + b =~= a);
    } else {
        assert((a + b).drop_last() =~= a + b.drop_last());
        behind_both(a, b.drop_last(), scopes, binding);
    }
}

proof fn behind_checks(
    known: Seq<bool>,
    places: Seq<usize>,
    site: CheckSite,
    n: int,
    scopes: Seq<Bindings>,
    binding: spec_fn(Step) -> (Seq<char>, TypeTerm),
)
    ensures
        scopes_behind(checks_at(known, places, site, n), scopes, binding) == scopes,
    decreases n,
{
    if 0 < n <= places.len() {
        behind_checks(known, places, site, n - 1, scopes, binding);
        if !known[places[n - 1] as int] {
            let one = check_steps(site, (n - 1) as usize, places[n - 1]);
            behind_both(checks_at(known, places, site, n - 1), one, scopes, binding);
            behind_plain(one, scopes, binding);
        }
    }
}

proof fn behind_plain(
    steps: Seq<Step>,
    scopes: Seq<Bindings>,
    binding: spec_fn(Step) -> (Seq<char>, TypeTerm),
)
    requires
        forall|i: int|
            0 <= i < steps.len() ==> !((#[trigger] steps[i]) is OpenScope || steps[i] is CloseScope
                || steps[i] is BindParameter || steps[i] is BindField),
    ensures
        scopes_behind(steps, scopes, binding) == scopes,
    decreases steps.len(),
{
    if steps.len() > 0 {
        assert(steps.last() == steps[steps.len() - 1]);
        assert forall|i: int| 0 <= i < steps.drop_last().len() implies !((
        #[trigger] steps.drop_last()[i]) is OpenScope || steps.drop_last()[i] is CloseScope
            || steps.drop_last()[i] is BindParameter || steps.drop_last()[i] is BindField) by {
            assert(steps.drop_last()[i] == steps[i]);
        }
        behind_plain(steps.drop_last(), scopes, binding);
    }
}

pub open spec fn only_binds(steps: Seq<Step>) -> bool {
    forall|i: int|
        0 <= i < steps.len() ==> (#[trigger] steps[i]) is BindParameter || steps[i] is BindField
}

proof fn behind_binds(
    steps: Seq<Step>,
    scopes: Seq<Bindings>,
    binding: spec_fn(Step) -> (Seq<char>, TypeTerm),
)
    requires
        only_binds(steps),
        scopes.len() > 0,
    ensures
        scopes_behind(steps, scopes, binding).len() == scopes.len(),
        scopes_behind(steps, scopes, binding).drop_last() == scopes.drop_last(),
    decreases steps.len(),
{
    if steps.len() > 0 {
        assert forall|i: int| 0 <= i < steps.drop_last().len() implies (
        #[trigger] steps.drop_last()[i]) is BindParameter || steps.drop_last()[i] is BindField by {
            assert(steps.drop_last()[i] == steps[i]);
        }
        behind_binds(steps.drop_last(), scopes, binding);
        assert(steps.last() == steps[steps.len() - 1]);
        let before = scopes_behind(steps.drop_last(), scopes, binding);
        assert(scopes_behind(steps, scopes, binding).drop_last() =~= before.drop_last());
    }
}

proof fn behind_scope(
    binds: Seq<Step>,
    known: Seq<bool>,
    places: Seq<usize>,
    site: CheckSite,
    n: int,
    scopes: Seq<Bindings>,
    binding: spec_fn(Step) -> (Seq<char>, TypeTerm),
)
    requires
        only_binds(binds),
    ensures
        scopes_behind(in_scope(binds, checks_at(known, places, site, n)), scopes, binding)
            == scopes,
{
    let steps = checks_at(known, places, site, n);
    let open = seq![Step::OpenScope];
    let opened = scopes.push(seq![]);
    assert(open.drop_last() =~= seq![]);
    assert(scopes_behind(open, scopes, binding) == opened) by {
        reveal_with_fuel(scopes_behind, 2);
    }
    behind_both(open, binds, scopes, binding);
    behind_binds(binds, opened, binding);
    let inner = scopes_behind(binds, opened, binding);
    behind_both(open + binds, steps, scopes, binding);
    behind_checks(known, places, site, n, inner, binding);
    let all = in_scope(binds, steps);
    assert(all.drop_last() =~= open + binds + steps);
    assert(opened.drop_last() =~= scopes);
}

proof fn renamed_binds(
    scopes: Seq<Bindings>,
    interface_names: Seq<Seq<char>>,
    params: Seq<Param>,
    n: int,
)
    ensures
        only_binds(renamed(scopes, interface_names, params, n)),
    decreases n,
{
    if 0 < n <= interface_names.len() && n <= params.len() {
        renamed_binds(scopes, interface_names, params, n - 1);
        let before = renamed(scopes, interface_names, params, n - 1);
        let all = renamed(scopes, interface_names, params, n);
        assert forall|i: int| 0 <= i < all.len() implies (#[trigger] all[i]) is BindParameter
            || all[i] is BindField by {
            if i < before.len() {
                assert(all[i] == before[i]);
            }
        }
    }
}

proof fn inherited_leave(
    g: CodeGenerator,
    params: Seq<Param>,
    inherited: Seq<InheritedPreconditions>,
    n: int,
    scopes: Seq<Bindings>,
    binding: spec_fn(Step) -> (Seq<char>, TypeTerm),
)
    ensures
        scopes_behind(g.inherited_checks(params, inherited, n), scopes, binding) == scopes,
    decreases n,
{
    if 0 < n <= inherited.len() {
        inherited_leave(g, params, inherited, n - 1, scopes, binding);
        let set = inherited[n - 1];
        let names = names_of(set.interface_param_names@);
        let m = shorter(set.interface_param_names@.len(), params.len());
        renamed_binds(scopes_of(g.variables@), names, params, m);
        behind_scope(
            renamed(scopes_of(g.variables@), names, params, m),
            set.known@,
            places_below(set.known@.len()),
            CheckSite::Interface((n - 1) as usize),
            set.known@.len() as int,
            scopes,
            binding,
        );
        behind_both(
            g.inherited_checks(params, inherited, n - 1),
            g.interface_checks(params, set, (n - 1) as usize),
            scopes,
            binding,
        );
    }
}

/// The checks at a function's entry leave its variables as they were: the
/// names that an interface's predicates read are bound in a scope of their
/// own.
pub proof fn entry_checks_leave_the_variables(
    g: CodeGenerator,
    func: FunctionNode,
    own: Seq<bool>,
    inherited: Seq<InheritedPreconditions>,
    scopes: Seq<Bindings>,
    binding: spec_fn(Step) -> (Seq<char>, TypeTerm),
)
    ensures
        scopes_behind(g.entry_checks(func, own, inherited), scopes, binding) == scopes,
{
    let front = if func.where_clause is Some {
        checks(own, CheckSite::Entry)
    } else {
        seq![]
    };
    let rest = if method_parts(func.name@) is Some {
        g.inherited_checks(func.params@, inherited, inherited.len() as int)
    } else {
        seq![]
    };
    behind_both(front, rest, scopes, binding);
    behind_checks(
        own,
        places_below(own.len()),
        CheckSite::Entry,
        own.len() as int,
        scopes,
        binding,
    );
    inherited_leave(g, func.params@, inherited, inherited.len() as int, scopes, binding);
}

/// The checks of an object leave the variables as they were: its fields are
/// bound in a scope of their own.
pub proof fn object_checks_leave_the_variables(
    object: Result<ObjectFields, String>,
    known: Seq<bool>,
    places: Seq<usize>,
    site: CheckSite,
    scopes: Seq<Bindings>,
    binding: spec_fn(Step) -> (Seq<char>, TypeTerm),
)
    ensures
        match object_checks(
            object,
            places.len() == 0,
            checks_at(known, places, site, places.len() as int),
        ) {
            Ok(steps) => scopes_behind(steps, scopes, binding) == scopes,
            Err(_) => true,
        },
{
    match object {
        Ok(o) => {
            let binds = field_binds(o.order());
            assert(only_binds(binds));
            behind_scope(binds, known, places, site, places.len() as int, scopes, binding);
        },
        Err(_) => {},
    }
}

/// Fields are bound in the order of the object, whatever order they are
/// listed in.
pub proof fn fields_follow_the_object(fields: Seq<Seq<char>>, indices: Seq<FieldIndex>, n: int)
    requires
        0 <= n <= fields.len(),
    ensures
        forall|i: int, j: int|
            0 <= i <= j < field_order(fields, indices, n).len() ==> (#[trigger] field_order(
                fields,
                indices,
                n,
            )[i]).1 <= (#[trigger] field_order(fields, indices, n)[j]).1,
    decreases n,
{
    if n > 0 {
        fields_follow_the_object(fields, indices, n - 1);
        match index_of(indices, fields[n - 1]) {
            Some(index) => {
                placed_is_ordered(field_order(fields, indices, n - 1), (n - 1, index));
            },
            None => {},
        }
    }
}

proof fn placed_is_ordered(s: Seq<(int, usize)>, x: (int, usize))
    requires
        forall|i: int, j: int|
            0 <= i <= j < s.len() ==> (#[trigger] s[i]).1 <= (#[trigger] s[j]).1,
    ensures
        forall|i: int, j: int|
            0 <= i <= j < field_placed(s, x).len() ==> (#[trigger] field_placed(s, x)[i]).1 <= (
            #[trigger] field_placed(s, x)[j]).1,
        field_placed(s, x).len() == s.len() + 1,
        forall|i: int|
            0 <= i < field_placed(s, x).len() ==> (#[trigger] field_placed(s, x)[i]).1 <= (if s.len()
                > 0 && x.1 < s.last().1 {
                s.last().1
            } else {
                x.1
            }),
    decreases s.len(),
{
    if s.len() > 0 && x.1 < s.last().1 {
        placed_is_ordered(s.drop_last(), x);
        let inner = field_placed(s.drop_last(), x);
        let bound = s.last().1;
        if s.drop_last().len() > 0 {
            assert(s[s.len() - 2].1 <= s[s.len() - 1].1);
        }
    }
}

} // verus!
