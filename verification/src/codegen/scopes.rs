//! Variables by scope.

use crate::codegen::generator::{bindings_of, find_binding, lookup, Binding, Bindings, CodeGenerator};
use crate::semantics::types::{term_shapes, TypeTerm};
use crate::semantics::Type;
use vstd::prelude::*;

verus! {

broadcast use term_shapes;

/// Scopes as mathematical values, the innermost last.
pub open spec fn scopes_of(v: Seq<Vec<Binding>>) -> Seq<Bindings> {
    Seq::new(v.len(), |i: int| bindings_of(v[i]@))
}

/// The binding of a name in the innermost scope that has one.
pub open spec fn scoped(scopes: Seq<Bindings>, name: Seq<char>) -> Option<TypeTerm>
    decreases scopes.len(),
{
    if scopes.len() == 0 {
        None
    } else {
        match lookup(scopes.last(), name) {
            Some(t) => Some(t),
            None => scoped(scopes.drop_last(), name),
        }
    }
}

/// Scopes with a name bound in the innermost one, in front of older bindings.
pub open spec fn bound(scopes: Seq<Bindings>, name: Seq<char>, t: TypeTerm) -> Seq<Bindings> {
    scopes.update(scopes.len() - 1, seq![(name, t)] + scopes.last())
}

impl CodeGenerator {
    /// The variable that a name stands for: a local one, or else a global one.
    pub open spec fn variable(&self, name: Seq<char>) -> Option<TypeTerm> {
        match scoped(scopes_of(self.variables@), name) {
            Some(t) => Some(t),
            None => lookup(bindings_of(self.global_variables@), name),
        }
    }

    /// The local variable that a name stands for.
    pub fn get_local(&self, name: &str) -> (r: Option<&Type>)
        ensures
            match r {
                Some(t) => scoped(scopes_of(self.variables@), name@) == Some(t.term()),
                None => scoped(scopes_of(self.variables@), name@) is None,
            },
    {
        let ghost all = scopes_of(self.variables@);
        let mut n: usize = self.variables.len();
        assert(all.take(n as int) =~= all);
        while n > 0
            invariant
                n <= self.variables@.len(),
                all == scopes_of(self.variables@),
                scoped(all, name@) == scoped(all.take(n as int), name@),
            decreases n,
        {
            assert(all.take(n as int).drop_last() =~= all.take(n - 1));
            assert(all.take(n as int).last() == bindings_of(self.variables@[n - 1]@));
            match find_binding(&self.variables[n - 1], name) {
                Some(t) => {
                    return Some(t);
                },
                None => {},
            }
            n -= 1;
        }
        None
    }

    /// The variable that a name stands for.
    pub fn get_variable(&self, name: &str) -> (r: Option<&Type>)
        ensures
            match r {
                Some(t) => self.variable(name@) == Some(t.term()),
                None => self.variable(name@) is None,
            },
    {
        match self.get_local(name) {
            Some(t) => Some(t),
            None => find_binding(&self.global_variables, name),
        }
    }

    /// The type of a name that the innermost scope itself binds.
    pub fn get_in_current_scope(&self, name: &str) -> (r: Option<&Type>)
        ensures
            match r {
                Some(t) => self.variables@.len() > 0 && lookup(
                    scopes_of(self.variables@).last(),
                    name@,
                ) == Some(t.term()),
                None => self.variables@.len() > 0 ==> lookup(
                    scopes_of(self.variables@).last(),
                    name@,
                ) is None,
            },
    {
        let n: usize = self.variables.len();
        if n == 0 {
            return None;
        }
        find_binding(&self.variables[n - 1], name)
    }

    /// Opens a scope.
    pub fn push_scope(&mut self)
        ensures
            scopes_of(final(self).variables@) == scopes_of(old(self).variables@).push(seq![]),
            *final(self) == (CodeGenerator { variables: final(self).variables, ..*old(self) }),
    {
        let empty: Vec<Binding> = Vec::new();
        proof {
            reveal(bindings_of);
            assert(bindings_of(empty@) =~= seq![]);
        }
        self.variables.push(empty);
        assert(scopes_of(self.variables@) =~= scopes_of(old(self).variables@).push(seq![]));
    }

    /// Closes the innermost scope.
    pub fn pop_scope(&mut self)
        ensures
            old(self).variables@.len() > 0 ==> scopes_of(final(self).variables@) == scopes_of(
                old(self).variables@,
            ).drop_last(),
            old(self).variables@.len() == 0 ==> final(self).variables@ == old(self).variables@,
            *final(self) == (CodeGenerator { variables: final(self).variables, ..*old(self) }),
    {
        let gone = self.variables.pop();
        proof {
            if gone is Some {
                assert(scopes_of(self.variables@) =~= scopes_of(old(self).variables@).drop_last());
            }
        }
    }

    /// Binds a name in the innermost scope, in front of older bindings of it.
    pub fn bind(&mut self, name: &str, type_: Type)
        requires
            old(self).variables@.len() > 0,
        ensures
            scopes_of(final(self).variables@) == bound(
                scopes_of(old(self).variables@),
                name@,
                type_.term(),
            ),
            *final(self) == (CodeGenerator { variables: final(self).variables, ..*old(self) }),
    {
        let ghost before = scopes_of(self.variables@);
        match self.variables.pop() {
            Some(scope) => {
                let mut scope = scope;
                let ghost inner = bindings_of(scope@);
                let binding = Binding { name: name.to_owned(), type_ };
                let ghost entry = (name@, binding.type_.term());
                scope.insert(0, binding);
                proof {
                    reveal(bindings_of);
                    assert(bindings_of(scope@) =~= seq![entry] + inner);
                }
                self.variables.push(scope);
                assert(scopes_of(self.variables@) =~= before.update(
                    before.len() - 1,
                    seq![entry] + before.last(),
                ));
            },
            None => {},
        }
    }

    /// Runs `body` on this generator in a scope of its own. What it binds is not
    /// visible afterwards, and it disturbs no outer binding of the same name;
    /// everything else that it does stays.
    pub fn in_block_scope<R, F: FnOnce(&mut CodeGenerator) -> Result<R, String>>(
        &mut self,
        body: F,
    ) -> (r: Result<R, String>)
        requires
            forall|g: &mut CodeGenerator| #[trigger] body.requires((g,)),
        ensures
            exists|g: &mut CodeGenerator|
                {
                    &&& scopes_of((*g).variables@) == scopes_of(old(self).variables@).push(seq![])
                    &&& *g == (CodeGenerator { variables: (*g).variables, ..*old(self) })
                    &&& #[trigger] body.ensures((g,), r)
                    &&& final(g).variables@.len() > 0 ==> scopes_of(final(self).variables@)
                        == scopes_of(final(g).variables@).drop_last()
                    &&& final(g).variables@.len() == 0 ==> final(self).variables@
                        == final(g).variables@
                    &&& *final(self) == (CodeGenerator {
                        variables: final(self).variables,
                        ..*final(g)
                    })
                },
    {
        self.push_scope();
        let result = body(self);
        self.pop_scope();
        result
    }
}

/// A block hides what it binds when it ends, and nothing else.
pub proof fn block_restores_outer_scope(scopes: Seq<Bindings>, name: Seq<char>, inner: Bindings)
    ensures
        scopes.push(inner).drop_last() == scopes,
        lookup(inner, name) is None ==> scoped(scopes.push(inner), name) == scoped(scopes, name),
{
    assert(scopes.push(inner).drop_last() =~= scopes);
}

/// An inner binding shadows an outer one.
pub proof fn inner_binding_shadows(
    scopes: Seq<Bindings>,
    name: Seq<char>,
    t: TypeTerm,
    inner: Bindings,
)
    ensures
        scoped(scopes.push(seq![(name, t)] + inner), name) == Some(t),
{
    assert((seq![(name, t)] + inner)[0] == (name, t));
}

} // verus!
