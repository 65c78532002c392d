//! Functions that stand inside another one.

use crate::ast::nodes::{FunctionNode, Param};
use crate::codegen::generator::{class_names, bindings_of, has_name, names_of, Binding, CodeGenerator};
use crate::codegen::layout::{declared_slot, kind_settles, Slot, SlotModel};
use crate::codegen::scopes::scopes_of;
use crate::codegen::steps::Step;
use crate::semantics::types::{term_shapes, type_variant, TypeTerm};
use crate::semantics::Type;
use crate::table::{put, put_entry};
use crate::text::cat;
use vstd::prelude::*;

verus! {

broadcast use term_shapes;

/// The name of a function inside another one.
pub open spec fn nested_name(parent: Seq<char>, name: Seq<char>) -> Seq<char> {
    parent + "!"@ + name
}

/// What generating a function changes, as it was before.
#[derive(Debug)]
pub struct SavedFunction {
    pub name: Option<String>,
    pub return_type: Option<Type>,
    pub variables: Vec<Vec<Binding>>,
}

/// An optional text by its characters.
pub open spec fn text_of(t: Option<String>) -> Option<Seq<char>> {
    match t {
        Some(s) => Some(s@),
        None => None,
    }
}

/// An optional type as a mathematical value.
pub open spec fn term_of(t: Option<Type>) -> Option<TypeTerm> {
    match t {
        Some(t) => Some(t.term()),
        None => None,
    }
}

/// The machine types of a function: of its result, where it has one, and of its
/// parameters.
#[derive(Debug)]
pub struct Signature {
    pub ret: Option<Slot>,
    pub params: Vec<Slot>,
}

pub open spec fn slots_of(v: Seq<Slot>) -> Seq<SlotModel> {
    Seq::new(v.len(), |i: int| v[i]@)
}

impl Signature {
    pub open spec fn model(&self) -> (Option<SlotModel>, Seq<SlotModel>) {
        (
            match self.ret {
                Some(s) => Some(s@),
                None => None,
            },
            slots_of(self.params@),
        )
    }
}

/// How a nested function is generated.
#[derive(Debug)]
pub struct NestedFunction {
    pub name: String,
    /// The machine types to declare it with, unless it is declared.
    pub signature: Option<Signature>,
    pub steps: Vec<Step>,
    pub saved: SavedFunction,
}

/// The steps of a nested function: it is declared once, then generated, and
/// then generation goes on where it was.
pub open spec fn nested_steps(declared: bool, in_function: bool) -> Seq<Step> {
    (if declared {
        seq![]
    } else {
        seq![Step::DeclareFunction]
    }) + seq![Step::GenerateFunction, Step::RestoreFunction] + (if in_function {
        seq![Step::ResumeFunction]
    } else {
        seq![]
    })
}

impl CodeGenerator {
    /// The slot of a parameter's written type.
    pub open spec fn param_slot(&self, p: Param) -> Result<SlotModel, Seq<char>> {
        declared_slot(
            self.params(),
            class_names(self.classes@),
            names_of(self.enum_variants@),
            names_of(self.type_map@),
            p.type_.tree().kind,
        )
    }

    /// The slots of the parameters from `i` on, or why there are none.
    pub open spec fn param_slots(&self, ps: Seq<Param>, i: int, done: Seq<SlotModel>) -> Result<
        Seq<SlotModel>,
        Seq<char>,
    >
        decreases ps.len() - i,
    {
        if i < 0 || i >= ps.len() {
            Ok(done)
        } else {
            match self.param_slot(ps[i]) {
                Err(e) => Err(e),
                Ok(s) => self.param_slots(ps, i + 1, done.push(s)),
            }
        }
    }

    /// The machine types of a function, where `ret` is its return type.
    pub open spec fn signature_of(&self, f: FunctionNode, ret: TypeTerm) -> Result<
        (Option<SlotModel>, Seq<SlotModel>),
        Seq<char>,
    > {
        let first: Result<Option<SlotModel>, Seq<char>> = if ret is Void {
            Ok(None)
        } else {
            match declared_slot(
                self.params(),
                class_names(self.classes@),
                names_of(self.enum_variants@),
                names_of(self.type_map@),
                f.return_type.tree().kind,
            ) {
                Ok(s) => Ok(Some(s)),
                Err(e) => Err(e),
            }
        };
        match first {
            Err(e) => Err(e),
            Ok(r) => match self.param_slots(f.params@, 0, seq![]) {
                Err(e) => Err(e),
                Ok(ps) => Ok((r, ps)),
            },
        }
    }

    /// Whether following the parameters that a function's types name comes to
    /// an end.
    pub open spec fn function_settles(&self, f: FunctionNode) -> bool {
        &&& kind_settles(self.params(), f.return_type.tree().kind)
        &&& forall|i: int|
            0 <= i < f.params@.len() ==> kind_settles(
                self.params(),
                (#[trigger] f.params@[i]).type_.tree().kind,
            )
    }

    /// What is saved of a function.
    pub open spec fn saves(&self, saved: SavedFunction) -> bool {
        &&& text_of(saved.name) == text_of(self.current_function_name)
        &&& term_of(saved.return_type) == term_of(self.current_function_return_type)
        &&& scopes_of(saved.variables@) == scopes_of(self.variables@)
    }

    /// Whether following the parameters that a function's types name comes to
    /// an end.
    pub fn function_types_settle(&self, func: &FunctionNode) -> (r: bool)
        ensures
            r == self.function_settles(*func),
    {
        if !self.type_node_settles(&func.return_type) {
            return false;
        }
        let mut i: usize = 0;
        while i < func.params.len()
            invariant
                i <= func.params@.len(),
                forall|j: int|
                    0 <= j < i ==> kind_settles(
                        self.params(),
                        (#[trigger] func.params@[j]).type_.tree().kind,
                    ),
            decreases func.params@.len() - i,
        {
            if !self.type_node_settles(&func.params[i].type_) {
                return false;
            }
            i += 1;
        }
        true
    }

    fn build_signature(&self, func: &FunctionNode, ret: &Type) -> (r: Result<Signature, String>)
        requires
            self.function_settles(*func),
        ensures
            match r {
                Ok(s) => self.signature_of(*func, ret.term()) == Ok::<
                    (Option<SlotModel>, Seq<SlotModel>),
                    Seq<char>,
                >(s.model()),
                Err(e) => self.signature_of(*func, ret.term()) == Err::<
                    (Option<SlotModel>, Seq<SlotModel>),
                    Seq<char>,
                >(e@),
            },
    {
        proof {
            type_variant(*ret);
        }
        let first = if matches!(ret, Type::Void) {
            None
        } else {
            match self.llvm_type_from_mux_type(&func.return_type) {
                Ok(s) => Some(s),
                Err(e) => {
                    return Err(e);
                },
            }
        };
        let ghost all = self.param_slots(func.params@, 0, seq![]);
        let mut slots: Vec<Slot> = Vec::new();
        let mut i: usize = 0;
        assert(slots_of(slots@) =~= seq![]);
        while i < func.params.len()
            invariant
                i <= func.params@.len(),
                self.function_settles(*func),
                all == self.param_slots(func.params@, 0, seq![]),
                all == self.param_slots(func.params@, i as int, slots_of(slots@)),
                first is None == (ret.term() is Void),
                first matches Some(s) ==> declared_slot(
                    self.params(),
                    class_names(self.classes@),
                    names_of(self.enum_variants@),
                    names_of(self.type_map@),
                    func.return_type.tree().kind,
                ) == Ok::<SlotModel, Seq<char>>(s@),
            decreases func.params@.len() - i,
        {
            let ghost before = slots_of(slots@);
            match self.llvm_type_from_mux_type(&func.params[i].type_) {
                Ok(s) => {
                    slots.push(s);
                    assert(slots_of(slots@) =~= before.push(s@));
                },
                Err(e) => {
                    return Err(e);
                },
            }
            i += 1;
        }
        Ok(Signature { ret: first, params: slots })
    }

    fn copy_scope(scope: &Vec<Binding>) -> (r: Vec<Binding>)
        ensures
            bindings_of(r@) == bindings_of(scope@),
    {
        let mut out: Vec<Binding> = Vec::new();
        let mut i: usize = 0;
        while i < scope.len()
            invariant
                i == out@.len() <= scope@.len(),
                forall|j: int|
                    0 <= j < i ==> (#[trigger] out@[j]).name@ == scope@[j].name@
                        && out@[j].type_.term() == scope@[j].type_.term(),
            decreases scope@.len() - i,
        {
            out.push(Binding { name: scope[i].name.clone(), type_: scope[i].type_.copy() });
            i += 1;
        }
        proof {
            reveal(bindings_of);
            assert(bindings_of(out@) =~= bindings_of(scope@));
        }
        out
    }

    fn copy_variables(&self) -> (r: Vec<Vec<Binding>>)
        ensures
            scopes_of(r@) == scopes_of(self.variables@),
    {
        let mut out: Vec<Vec<Binding>> = Vec::new();
        let mut i: usize = 0;
        while i < self.variables.len()
            invariant
                i == out@.len() <= self.variables@.len(),
                forall|j: int|
                    0 <= j < i ==> bindings_of((#[trigger] out@[j])@) == bindings_of(
                        self.variables@[j]@,
                    ),
            decreases self.variables@.len() - i,
        {
            out.push(Self::copy_scope(&self.variables[i]));
            i += 1;
        }
        assert(scopes_of(out@) =~= scopes_of(self.variables@));
        out
    }

    fn save_function(&self) -> (r: SavedFunction)
        ensures
            self.saves(r),
    {
        let name = match &self.current_function_name {
            Some(n) => Some(n.clone()),
            None => None,
        };
        let return_type = match &self.current_function_return_type {
            Some(t) => Some(t.copy()),
            None => None,
        };
        SavedFunction { name, return_type, variables: self.copy_variables() }
    }

    /// Prepares a nested function, where `return_type` is what the analysis
    /// makes of its return type. Its node is kept under a name that starts with
    /// the enclosing function's. Under that name it is declared, and only once.
    /// What generating it changes is saved first.
    pub fn generate_nested_function_statement(
        &mut self,
        func: FunctionNode,
        return_type: Result<Type, String>,
        in_function: bool,
    ) -> (r: Result<NestedFunction, String>)
        requires
            old(self).function_settles(func),
        ensures
            match text_of(old(self).current_function_name) {
                None => {
                    &&& r matches Err(e) && e@ == "Nested function outside of parent function"@
                    &&& *final(self) == *old(self)
                },
                Some(parent) => {
                    let name = nested_name(parent, func.name@);
                    let declared = names_of(old(self).functions@).contains(name);
                    &&& put(final(self).function_nodes@, old(self).function_nodes@, name, func)
                    &&& *final(self) == (CodeGenerator {
                        functions: final(self).functions,
                        function_nodes: final(self).function_nodes,
                        ..*old(self)
                    })
                    &&& if declared {
                        &&& r matches Ok(n) && n.name@ == name && n.signature is None && n.steps@
                            == nested_steps(true, in_function) && old(self).saves(n.saved)
                        &&& final(self).functions == old(self).functions
                    } else {
                        match return_type {
                            Err(e) => {
                                &&& r == Err::<NestedFunction, String>(e)
                                &&& final(self).functions == old(self).functions
                            },
                            Ok(t) => match old(self).signature_of(func, t.term()) {
                                Err(e) => {
                                    &&& r matches Err(m) && m@ == e
                                    &&& final(self).functions == old(self).functions
                                },
                                Ok(signature) => {
                                    &&& r matches Ok(n) && n.name@ == name && n.steps@
                                        == nested_steps(false, in_function) && old(self).saves(
                                        n.saved,
                                    ) && (n.signature matches Some(s) && s.model() == signature)
                                    &&& names_of(final(self).functions@) == names_of(
                                        old(self).functions@,
                                    ).push(name)
                                },
                            },
                        }
                    }
                },
            },
    {
        let name = match &self.current_function_name {
            Some(parent) => {
                let mut out = cat(parent.as_str(), "!");
                out.append(func.name.as_str());
                out
            },
            None => {
                return Err("Nested function outside of parent function".to_owned());
            },
        };
        let declared = has_name(&self.functions, name.as_str());
        let signature = if declared {
            Ok(None)
        } else {
            match return_type {
                Ok(t) => match self.build_signature(&func, &t) {
                    Ok(s) => Ok(Some(s)),
                    Err(e) => Err(e),
                },
                Err(e) => Err(e),
            }
        };
        put_entry(&mut self.function_nodes, name.as_str(), func);
        let signature = match signature {
            Ok(s) => s,
            Err(e) => {
                return Err(e);
            },
        };
        let saved = self.save_function();
        let mut steps: Vec<Step> = Vec::new();
        if !declared {
            let ghost before = names_of(self.functions@);
            self.functions.push(name.clone());
            assert(names_of(self.functions@) =~= before.push(name@));
            steps.push(Step::DeclareFunction);
        }
        steps.push(Step::GenerateFunction);
        steps.push(Step::RestoreFunction);
        if in_function {
            steps.push(Step::ResumeFunction);
        }
        assert(steps@ =~= nested_steps(declared, in_function));
        Ok(NestedFunction { name, signature, steps, saved })
    }

    /// Takes back what generating a nested function changed: the variables, the
    /// function's name and its return type.
    pub fn restore_function(&mut self, saved: SavedFunction)
        ensures
            final(self).saves(saved),
            *final(self) == (CodeGenerator {
                current_function_name: final(self).current_function_name,
                current_function_return_type: final(self).current_function_return_type,
                variables: final(self).variables,
                ..*old(self)
            }),
    {
        self.current_function_name = saved.name;
        self.current_function_return_type = saved.return_type;
        self.variables = saved.variables;
    }
}

/// A nested function leaves no trace in the function around it: whatever
/// generating it does, the variables, the name and the return type are
/// afterwards what they were.
pub proof fn nested_function_leaves_no_trace(
    before: CodeGenerator,
    after: CodeGenerator,
    saved: SavedFunction,
)
    requires
        before.saves(saved),
        after.saves(saved),
    ensures
        scopes_of(after.variables@) == scopes_of(before.variables@),
        text_of(after.current_function_name) == text_of(before.current_function_name),
        term_of(after.current_function_return_type) == term_of(
            before.current_function_return_type,
        ),
{
}

} // verus!
