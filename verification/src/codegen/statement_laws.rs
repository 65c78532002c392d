//! What statements, loops and payloads are taken for.

use crate::ast::nodes::{ExpressionKind, ExpressionNode, Param, StatementKind, StatementNode};
use crate::ast::tree::{TypeShape, TypeTree};
use crate::codegen::enum_matching::{builtin_payload, payload_tag};
use crate::codegen::generator::{lookup, names_of, Bindings, CodeGenerator};
use crate::codegen::layout::{scalar, SlotModel};
use crate::codegen::loops::{ends_with_return, is_range, storage_of, LoopKind};
use crate::codegen::nested::nested_steps;
use crate::codegen::statements::{action_of, plan_of, Action};
use crate::codegen::steps::{Step, Storage};
use crate::codegen::type_nodes::{denoted, denoted_all};
use crate::semantics::types::TypeTerm;
use vstd::prelude::*;

verus! {

/// The value inside an option has the option's type; that of a success has the
/// first type of the result, and that of a failure the second. Each is read
/// under the tag of its variant.
pub proof fn payloads_have_their_type(x: TypeTerm, y: TypeTerm)
    ensures
        builtin_payload("optional"@, "some"@, TypeTerm::Optional(Box::new(x))) == Result::<
            TypeTerm,
            Seq<char>,
        >::Ok(x),
        builtin_payload("result"@, "ok"@, TypeTerm::ResultOf(Box::new(x), Box::new(y))) == Result::<
            TypeTerm,
            Seq<char>,
        >::Ok(x),
        builtin_payload("result"@, "err"@, TypeTerm::ResultOf(Box::new(x), Box::new(y)))
            == Result::<TypeTerm, Seq<char>>::Ok(y),
        payload_tag("optional"@, "some"@)@ == "some"@,
        payload_tag("result"@, "ok"@)@ == "ok"@,
        payload_tag("result"@, "err"@)@ == "err"@,
{
    reveal_strlit("optional");
    reveal_strlit("result");
    reveal_strlit("ok");
    reveal_strlit("err");
    assert("optional"@.len() == 8 && "result"@.len() == 6);
    assert("ok"@.len() == 2 && "err"@.len() == 3);
}

/// A loop counts where it goes over a call of `range` with two bounds. Another
/// call, or `range` with another number of arguments, gives a list.
pub proof fn ranges_are_calls_of_range(e: ExpressionNode)
    ensures
        is_range(e) ==> e.kind is Call,
        e.kind matches ExpressionKind::Call { func, args } ==> (func.kind
            matches ExpressionKind::Identifier(name) ==> (is_range(e) <==> name@ == "range"@
            && args@.len() == 2)),
        e.kind matches ExpressionKind::Call { func, args } ==> !(func.kind is Identifier)
            ==> !is_range(e),
{
}

/// Every statement is generated as what it is. Conditions, loops and matches get
/// a scope of their own, and every statement but a return releases what its
/// expressions left over.
pub proof fn statements_are_generated_as_they_are(kind: StatementKind)
    ensures
        ({
            let plan = plan_of(kind);
            &&& plan.action is If <==> kind is If
            &&& plan.action is While <==> kind is While
            &&& plan.action is For <==> kind is For
            &&& plan.action is Match <==> kind is Match
            &&& plan.action is AutoDecl <==> kind is AutoDecl
            &&& plan.action is TypedDecl <==> kind is TypedDecl
            &&& plan.action is UninitDecl <==> kind is UninitDecl
            &&& plan.action is ConstDecl <==> kind is ConstDecl
            &&& plan.action is Expression <==> kind is Expression
            &&& plan.action is NestedFunction <==> kind is Function
            &&& plan.action is ReturnValue || plan.action is ReturnNothing <==> kind is Return
            &&& (kind matches StatementKind::Return(v) ==> (plan.action is ReturnValue
                <==> v is Some))
            &&& plan.scoped <==> kind is If || kind is While || kind is For || kind is Match
            &&& plan.releases <==> !(kind is Return)
        }),
        kind matches StatementKind::For { var, var_type, iter, body } ==> (action_of(kind)
            == Action::For(LoopKind::Range) <==> is_range(iter)),
{
}

/// A binding is stored as what it is, unless a closure captures it or its
/// address is taken: then, as for every other value, a pointer to it is stored.
pub proof fn captured_bindings_are_boxed(g: CodeGenerator, name: Seq<char>, t: TypeTerm)
    ensures
        names_of(g.captured_names@).contains(name) || names_of(g.address_taken@).contains(name)
            ==> g.binding_storage(name, t) == Storage::Pointer,
        !names_of(g.captured_names@).contains(name) && !names_of(g.address_taken@).contains(name)
            ==> (g.binding_storage(name, t) == Storage::Pointer <==> scalar(t) is None),
        storage_of(Some(SlotModel::Int64)) == Storage::Int64,
        storage_of(Some(SlotModel::Double)) == Storage::Double,
        storage_of(Some(SlotModel::Bit)) == Storage::Bit,
{
}

/// The parameters of a function are declared in their order, each with the
/// machine type of its own written type.
pub proof fn parameters_are_declared_in_order(
    g: CodeGenerator,
    ps: Seq<Param>,
    i: int,
    done: Seq<SlotModel>,
    k: int,
)
    requires
        0 <= i <= k < ps.len(),
        g.param_slots(ps, i, done) is Ok,
    ensures
        ({
            let all = g.param_slots(ps, i, done)->Ok_0;
            &&& all.len() == done.len() + ps.len() - i
            &&& all.take(done.len() as int) == done
            &&& g.param_slot(ps[k]) == Result::<SlotModel, Seq<char>>::Ok(all[done.len() + k - i])
        }),
    decreases ps.len() - i,
{
    let s = g.param_slot(ps[i])->Ok_0;
    let next = done.push(s);
    let all = g.param_slots(ps, i, done)->Ok_0;
    assert(g.param_slots(ps, i + 1, next) == g.param_slots(ps, i, done));
    if i + 1 < ps.len() {
        parameters_are_declared_in_order(
            g,
            ps,
            i + 1,
            next,
            if k > i {
                k
            } else {
                i + 1
            },
        );
        assert(all.take(next.len() as int).take(done.len() as int) =~= all.take(done.len() as int));
        assert(next.take(done.len() as int) =~= done);
        assert(all.take(next.len() as int)[done.len() as int] == all[done.len() as int]);
    } else {
        assert(all == next);
        assert(next.take(done.len() as int) =~= done);
    }
}

/// A block ends with a return where its last statement is one; an empty block
/// does not.
pub proof fn last_statement_decides_about_returning(block: Seq<StatementNode>, s: StatementNode)
    ensures
        ends_with_return(block.push(s)) <==> s.kind is Return,
        !ends_with_return(seq![]),
{
}

/// A nested function is declared before it is generated, and only once; then
/// generation goes back to the function around it.
pub proof fn nested_function_comes_in_between(declared: bool, in_function: bool)
    ensures
        ({
            let s = nested_steps(declared, in_function);
            &&& s.contains(Step::DeclareFunction) <==> !declared
            &&& !declared ==> s[0] == Step::DeclareFunction && s[1] == Step::GenerateFunction && s[2]
                == Step::RestoreFunction
            &&& declared ==> s[0] == Step::GenerateFunction && s[1] == Step::RestoreFunction
            &&& in_function ==> s.last() == Step::ResumeFunction
            &&& !in_function ==> s.last() == Step::RestoreFunction
        }),
{
    let s = nested_steps(declared, in_function);
    if !declared {
        assert(s[0] == Step::DeclareFunction);
    }
}

/// The types that some syntax denotes, one by one.
pub open spec fn each_denoted(b: Bindings, ns: Seq<TypeTree>) -> Seq<TypeTerm> {
    Seq::new(ns.len(), |i: int| denoted(b, ns[i]))
}

proof fn denoted_one_by_one(b: Bindings, ns: Seq<TypeTree>, n: int)
    requires
        0 <= n <= ns.len(),
    ensures
        denoted_all(b, ns, n) == each_denoted(b, ns).take(n),
    decreases n,
{
    if n > 0 {
        denoted_one_by_one(b, ns, n - 1);
        assert(each_denoted(b, ns).take(n - 1).push(denoted(b, ns[n - 1])) =~= each_denoted(
            b,
            ns,
        ).take(n));
    } else {
        assert(each_denoted(b, ns).take(0) =~= seq![]);
    }
}

/// Written types denote what they say: lists lists, maps maps from the first type
/// to the second, and so on. A parameter that is bound denotes its binding,
/// `optional` with one argument an option and `result` with two a result.
pub proof fn written_types_denote_what_they_say(
    b: Bindings,
    n: TypeTree,
    x: TypeTree,
    y: TypeTree,
    name: Seq<char>,
    args: Seq<TypeTree>,
)
    ensures
        n.kind == TypeShape::List(Box::new(x)) ==> denoted(b, n) == TypeTerm::List(
            Box::new(denoted(b, x)),
        ),
        n.kind == TypeShape::SetOf(Box::new(x)) ==> denoted(b, n) == TypeTerm::SetOf(
            Box::new(denoted(b, x)),
        ),
        n.kind == TypeShape::Reference(Box::new(x)) ==> denoted(b, n) == TypeTerm::Reference(
            Box::new(denoted(b, x)),
        ),
        n.kind == TypeShape::MapOf(Box::new(x), Box::new(y)) ==> denoted(b, n) == TypeTerm::MapOf(
            Box::new(denoted(b, x)),
            Box::new(denoted(b, y)),
        ),
        n.kind == TypeShape::Tuple(Box::new(x), Box::new(y)) ==> denoted(b, n) == TypeTerm::Tuple(
            Box::new(denoted(b, x)),
            Box::new(denoted(b, y)),
        ),
        n.kind == TypeShape::Named("optional"@, seq![x]) ==> denoted(b, n) == TypeTerm::Optional(
            Box::new(denoted(b, x)),
        ),
        n.kind == TypeShape::Named("result"@, seq![x, y]) ==> denoted(b, n) == TypeTerm::ResultOf(
            Box::new(denoted(b, x)),
            Box::new(denoted(b, y)),
        ),
        n.kind == TypeShape::Named(name, seq![]) ==> denoted(b, n) == (match lookup(b, name) {
            Some(t) => t,
            None => TypeTerm::Named(name, seq![]),
        }),
        n.kind == TypeShape::Named(name, args) && args.len() > 2 ==> denoted(b, n)
            == TypeTerm::Named(name, each_denoted(b, args)),
        n.kind == (TypeShape::Function { params: args, ret: Box::new(x) }) ==> denoted(b, n) == (
        TypeTerm::Function {
            params: each_denoted(b, args),
            ret: Box::new(denoted(b, x)),
            default_count: 0,
        }),
{
    reveal_strlit("optional");
    reveal_strlit("result");
    assert("optional"@.len() == 8 && "result"@.len() == 6);
    denoted_one_by_one(b, args, args.len() as int);
    assert(each_denoted(b, args).take(args.len() as int) =~= each_denoted(b, args));
    reveal_with_fuel(denoted, 2);
    assert(seq![x][0] == x);
    assert(seq![x, y][0] == x && seq![x, y][1] == y);
}

} // verus!
