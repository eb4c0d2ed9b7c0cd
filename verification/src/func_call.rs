//! Calls in three-address form: the callee and every argument is a variable access.

use crate::ids::VariableId;
use crate::position::FilePosition;
use vstd::prelude::*;
use vstd::std_specs::iter::IteratorSpec;

verus! {

/// A variable, or an item of one: the base and the variables that hold the indexes.
#[derive(Debug, PartialEq, Eq)]
pub struct VarAccess {
    base: VariableId,
    indexes: Vec<VariableId>,
}

/// The mathematical content of a `VarAccess`.
pub struct AccessView {
    pub base: VariableId,
    pub indexes: Seq<VariableId>,
}

impl View for VarAccess {
    type V = AccessView;

    closed spec fn view(&self) -> AccessView {
        AccessView { base: self.base, indexes: self.indexes@ }
    }
}

impl Clone for VarAccess {
    fn clone(&self) -> (r: Self)
        ensures
            r@ == self@,
    {
        let mut indexes: Vec<VariableId> = Vec::new();
        let mut i: usize = 0;
        while i < self.indexes.len()
            invariant
                i <= self.indexes.len(),
                indexes@ == self.indexes@.subrange(0, i as int),
            decreases self.indexes.len() - i,
        {
            indexes.push(self.indexes[i]);
            assert(indexes@ =~= self.indexes@.subrange(0, i + 1));
            i += 1;
        }
        assert(indexes@ =~= self.indexes@);
        VarAccess { base: self.base, indexes }
    }
}

impl VarAccess {
    pub fn new(base: VariableId) -> (r: VarAccess)
        ensures
            r@ == (AccessView { base, indexes: Seq::empty() }),
    {
        VarAccess { base, indexes: Vec::new() }
    }

    pub fn add_index(&mut self, index: VariableId)
        ensures
            final(self)@ == (AccessView {
                base: old(self)@.base,
                indexes: old(self)@.indexes.push(index),
            }),
    {
        self.indexes.push(index);
    }

    pub fn borrow_indexes(&self) -> (r: &Vec<VariableId>)
        ensures
            r@ == self@.indexes,
    {
        &self.indexes
    }

    pub fn get_base(&self) -> (r: VariableId)
        ensures
            r == self@.base,
    {
        self.base
    }

    pub fn iterate_over_indexes(&self) -> (r: std::slice::Iter<'_, VariableId>)
        ensures
            r.remaining() == self@.indexes.as_ref(),
    {
        broadcast use vstd::std_specs::slice::axiom_spec_slice_iter;
        self.indexes.as_slice().iter()
    }
}

/// The contents of a list of accesses, one by one.
pub open spec fn accesses_view(list: Seq<VarAccess>) -> Seq<AccessView> {
    list.map_values(|access: VarAccess| access@)
}

/// Copies a list of accesses.
pub fn clone_accesses(list: &Vec<VarAccess>) -> (r: Vec<VarAccess>)
    ensures
        accesses_view(r@) == accesses_view(list@),
{
    let mut copies: Vec<VarAccess> = Vec::new();
    let mut i: usize = 0;
    while i < list.len()
        invariant
            i <= list.len(),
            copies@.len() == i,
            forall|j: int| 0 <= j < i ==> (#[trigger] copies@[j])@ == list@[j]@,
        decreases list.len() - i,
    {
        copies.push((&list[i]).clone());
        i += 1;
    }
    assert(accesses_view(copies@) =~= accesses_view(list@));
    copies
}

/// A call: the variable that holds the function, and the accesses that
/// give and take the arguments, in the order of the parameters.
#[derive(Debug)]
pub struct FuncCall {
    function: VariableId,
    position: FilePosition,
    inputs: Vec<VarAccess>,
    outputs: Vec<VarAccess>,
}

/// The mathematical content of a `FuncCall`.
pub struct CallView {
    pub function: VariableId,
    pub position: FilePosition,
    pub inputs: Seq<AccessView>,
    pub outputs: Seq<AccessView>,
}

impl View for FuncCall {
    type V = CallView;

    closed spec fn view(&self) -> CallView {
        CallView {
            function: self.function,
            position: self.position,
            inputs: accesses_view(self.inputs@),
            outputs: accesses_view(self.outputs@),
        }
    }
}

impl Clone for FuncCall {
    fn clone(&self) -> (r: Self)
        ensures
            r@ == self@,
    {
        FuncCall {
            function: self.function,
            position: self.position,
            inputs: clone_accesses(&self.inputs),
            outputs: clone_accesses(&self.outputs),
        }
    }
}

impl FuncCall {
    pub fn new(function: VariableId, position: FilePosition) -> (r: FuncCall)
        ensures
            r@ == (CallView { function, position, inputs: Seq::empty(), outputs: Seq::empty() }),
    {
        let r = FuncCall { function, position, inputs: Vec::new(), outputs: Vec::new() };
        assert(r@.inputs =~= Seq::empty());
        assert(r@.outputs =~= Seq::empty());
        r
    }

    pub fn set_position(&mut self, new_position: FilePosition)
        ensures
            final(self)@ == (CallView { position: new_position, ..old(self)@ }),
    {
        self.position = new_position;
    }

    pub fn get_position(&self) -> (r: &FilePosition)
        ensures
            *r == self@.position,
    {
        &self.position
    }

    pub fn set_function(&mut self, function: VariableId)
        ensures
            final(self)@ == (CallView { function, ..old(self)@ }),
    {
        self.function = function;
    }

    pub fn add_input(&mut self, input: VarAccess)
        ensures
            final(self)@ == (CallView { inputs: old(self)@.inputs.push(input@), ..old(self)@ }),
    {
        self.inputs.push(input);
        assert(accesses_view(self.inputs@) =~= accesses_view(old(self).inputs@).push(input@));
    }

    pub fn borrow_inputs(&self) -> (r: &Vec<VarAccess>)
        ensures
            accesses_view(r@) == self@.inputs,
    {
        &self.inputs
    }

    pub fn add_output(&mut self, output: VarAccess)
        ensures
            final(self)@ == (CallView { outputs: old(self)@.outputs.push(output@), ..old(self)@ }),
    {
        self.outputs.push(output);
        assert(accesses_view(self.outputs@) =~= accesses_view(old(self).outputs@).push(output@));
    }

    pub fn borrow_outputs(&self) -> (r: &Vec<VarAccess>)
        ensures
            accesses_view(r@) == self@.outputs,
    {
        &self.outputs
    }

    pub fn get_function(&self) -> (r: VariableId)
        ensures
            r == self@.function,
    {
        self.function
    }

    pub fn iterate_over_inputs(&self) -> (r: std::slice::Iter<'_, VarAccess>)
        ensures
            accesses_view(r.remaining().unref()) == self@.inputs,
    {
        broadcast use vstd::std_specs::slice::axiom_spec_slice_iter;
        self.inputs.as_slice().iter()
    }

    pub fn iterate_over_outputs(&self) -> (r: std::slice::Iter<'_, VarAccess>)
        ensures
            accesses_view(r.remaining().unref()) == self@.outputs,
    {
        broadcast use vstd::std_specs::slice::axiom_spec_slice_iter;
        self.outputs.as_slice().iter()
    }
}

} // verus!
