//! Checking that a program is well formed.
//!
//! The fields of a program are open, so a program can be put together by
//! hand. Everything that resolves a program asks for a well-formed one;
//! this is how a caller finds out whether it has one.

use crate::ids::VariableId;
use crate::program::Program;
use crate::scope::Scope;
use vstd::prelude::*;

verus! {

/// Whether every id of the list is below `bound`.
fn all_below(ids: &Vec<VariableId>, bound: usize) -> (r: bool)
    ensures
        r == forall|i: int| 0 <= i < ids@.len() ==> (#[trigger] ids@[i]).0 < bound,
{
    let mut i: usize = 0;
    while i < ids.len()
        invariant
            i <= ids.len(),
            forall|k: int| 0 <= k < i ==> (#[trigger] ids@[k]).0 < bound,
        decreases ids.len() - i,
    {
        if ids[i].0 >= bound {
            return false;
        }
        i += 1;
    }
    true
}

impl Scope {
    /// Whether every variable that the scope names or holds is below `bound`.
    pub fn has_ids_below(&self, bound: usize) -> (r: bool)
        ensures
            r == self@.ids_below(bound as nat),
    {
        let mut i: usize = 0;
        while i < self.symbols.len()
            invariant
                i <= self.symbols.len(),
                forall|k: int| 0 <= k < i ==> (#[trigger] self@.symbols[k]).1.0 < bound,
            decreases self.symbols.len() - i,
        {
            if self.symbols[i].id.0 >= bound {
                assert(self@.symbols[i as int].1.0 >= bound);
                return false;
            }
            assert(self@.symbols[i as int].1 == self.symbols[i as int].id);
            i += 1;
        }
        let held = all_below(&self.intermediates, bound);
        let taken = all_below(&self.inputs, bound);
        let given = all_below(&self.outputs, bound);
        assert(self@.intermediates == self.intermediates@);
        assert(self@.inputs == self.inputs@);
        assert(self@.outputs == self.outputs@);
        held && taken && given
    }

    /// Whether no name stands twice in the symbol table.
    pub fn has_distinct_names(&self) -> (r: bool)
        ensures
            r == self@.names_distinct(),
    {
        let mut j: usize = 0;
        while j < self.symbols.len()
            invariant
                j <= self.symbols.len(),
                forall|a: int, b: int|
                    0 <= a < b < j ==> (#[trigger] self@.symbols[a]).0 != (
                    #[trigger] self@.symbols[b]).0,
            decreases self.symbols.len() - j,
        {
            let mut i: usize = 0;
            while i < j
                invariant
                    i <= j < self.symbols.len(),
                    forall|a: int| 0 <= a < i ==> (#[trigger] self@.symbols[a]).0 != self@.symbols[j as int].0,
                decreases j - i,
            {
                if self.symbols[i].name == self.symbols[j].name {
                    assert(self@.symbols[i as int].0 == self@.symbols[j as int].0);
                    return false;
                }
                assert(self@.symbols[i as int].0 == self.symbols[i as int].name@);
                assert(self@.symbols[j as int].0 == self.symbols[j as int].name@);
                i += 1;
            }
            j += 1;
        }
        true
    }
}

impl Program {
    /// Whether the program is well formed.
    pub fn is_well_formed(&self) -> (r: bool)
        ensures
            r == self@.wf(),
    {
        if self.entry_point.0 >= self.scopes.len() {
            return false;
        }
        let bound = self.variables.len();
        let mut i: usize = 0;
        while i < self.scopes.len()
            invariant
                i <= self.scopes.len(),
                bound == self.variables.len(),
                self@.has_scope(self.entry_point),
                forall|k: int|
                    0 <= k < i ==> match (#[trigger] self@.scopes[k]).parent {
                        Some(parent) => parent.0 < k,
                        None => true,
                    },
                forall|k: int| 0 <= k < i ==> (#[trigger] self@.scopes[k]).ids_below(bound as nat),
                forall|k: int| 0 <= k < i ==> (#[trigger] self@.scopes[k]).names_distinct(),
            decreases self.scopes.len() - i,
        {
            assert(self@.scopes[i as int] == self.scopes[i as int]@);
            let ordered = match self.scopes[i].parent {
                Some(parent) => parent.0 < i,
                None => true,
            };
            if !ordered || !self.scopes[i].has_ids_below(bound) || !self.scopes[i].has_distinct_names() {
                return false;
            }
            i += 1;
        }
        true
    }
}

} // verus!
