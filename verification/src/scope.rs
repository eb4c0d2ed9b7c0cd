//! Scopes of the program arena.

use crate::expression::{Expr, Expression, expressions_view};
use crate::func_call::{CallView, FuncCall};
use crate::ids::{ScopeId, VariableId};
use vstd::prelude::*;

verus! {

/// A name and the variable that it stands for.
#[derive(Debug)]
pub struct Symbol {
    pub name: String,
    pub id: VariableId,
}

/// A lexical scope: its parent, the variables it declares by name, the
/// unnamed variables that belong to it, its parameters in the order in
/// which arguments are bound to them, and its statements in their order.
///
/// No name stands twice in the symbol table.
#[derive(Debug)]
pub struct Scope {
    pub parent: Option<ScopeId>,
    pub symbols: Vec<Symbol>,
    pub intermediates: Vec<VariableId>,
    pub inputs: Vec<VariableId>,
    pub outputs: Vec<VariableId>,
    pub body: Vec<Expression>,
    pub calls: Vec<FuncCall>,
}

/// The mathematical content of a `Scope`.
pub struct ScopeView {
    pub parent: Option<ScopeId>,
    pub symbols: Seq<(Seq<char>, VariableId)>,
    pub intermediates: Seq<VariableId>,
    pub inputs: Seq<VariableId>,
    pub outputs: Seq<VariableId>,
    pub body: Seq<Expr>,
    pub calls: Seq<CallView>,
}

/// The contents of a symbol table, entry by entry.
pub open spec fn symbols_view(symbols: Seq<Symbol>) -> Seq<(Seq<char>, VariableId)> {
    symbols.map_values(|symbol: Symbol| (symbol.name@, symbol.id))
}

/// The contents of a list of calls, one by one.
pub open spec fn calls_view(calls: Seq<FuncCall>) -> Seq<CallView> {
    calls.map_values(|call: FuncCall| call@)
}

impl View for Scope {
    type V = ScopeView;

    open spec fn view(&self) -> ScopeView {
        ScopeView {
            parent: self.parent,
            symbols: symbols_view(self.symbols@),
            intermediates: self.intermediates@,
            inputs: self.inputs@,
            outputs: self.outputs@,
            body: expressions_view(self.body@),
            calls: calls_view(self.calls@),
        }
    }
}

/// The index of the first entry for `name`, or the length of the table where there is none.
pub open spec fn position_of(symbols: Seq<(Seq<char>, VariableId)>, name: Seq<char>) -> int
    decreases symbols.len(),
{
    if symbols.len() == 0 {
        0
    } else if symbols[0].0 == name {
        0
    } else {
        1 + position_of(symbols.subrange(1, symbols.len() as int), name)
    }
}

/// `position_of` is the one index before which the name does not stand and
/// at which it stands, if it stands anywhere.
pub proof fn lemma_position_of(symbols: Seq<(Seq<char>, VariableId)>, name: Seq<char>, i: int)
    requires
        0 <= i <= symbols.len(),
        forall|j: int| 0 <= j < i ==> (#[trigger] symbols[j]).0 != name,
        i < symbols.len() ==> symbols[i].0 == name,
    ensures
        position_of(symbols, name) == i,
    decreases symbols.len(),
{
    if symbols.len() > 0 && i > 0 {
        let rest = symbols.subrange(1, symbols.len() as int);
        assert(symbols[0].0 != name);
        assert forall|j: int| 0 <= j < i - 1 implies (#[trigger] rest[j]).0 != name by {
            assert(rest[j] == symbols[j + 1]);
        }
        lemma_position_of(rest, name, i - 1);
    }
}

/// The name does not stand before `position_of`, and stands at it unless it is the length.
pub proof fn lemma_position_of_found(symbols: Seq<(Seq<char>, VariableId)>, name: Seq<char>)
    ensures
        0 <= position_of(symbols, name) <= symbols.len(),
        forall|j: int| 0 <= j < position_of(symbols, name) ==> (#[trigger] symbols[j]).0 != name,
        position_of(symbols, name) < symbols.len() ==> symbols[position_of(symbols, name)].0
            == name,
    decreases symbols.len(),
{
    if symbols.len() > 0 && symbols[0].0 != name {
        let rest = symbols.subrange(1, symbols.len() as int);
        lemma_position_of_found(rest, name);
        assert forall|j: int| 0 <= j < position_of(symbols, name) implies (#[trigger] symbols[j]).0
            != name by {
            if j > 0 {
                assert(rest[j - 1] == symbols[j]);
            }
        }
    }
}

impl ScopeView {
    /// A scope with nothing in it.
    pub open spec fn empty(parent: Option<ScopeId>) -> ScopeView {
        ScopeView {
            parent,
            symbols: Seq::empty(),
            intermediates: Seq::empty(),
            inputs: Seq::empty(),
            outputs: Seq::empty(),
            body: Seq::empty(),
            calls: Seq::empty(),
        }
    }

    /// The variable that `name` stands for in this scope, if it is declared here.
    pub open spec fn lookup(self, name: Seq<char>) -> Option<VariableId> {
        let at = position_of(self.symbols, name);
        if at < self.symbols.len() {
            Some(self.symbols[at].1)
        } else {
            None
        }
    }

    /// No name stands twice in the symbol table.
    pub open spec fn names_distinct(self) -> bool {
        forall|i: int, j: int|
            0 <= i < j < self.symbols.len() ==> (#[trigger] self.symbols[i]).0 != (
            #[trigger] self.symbols[j]).0
    }

    /// The symbol table after `name` is made to stand for `id`: the entry
    /// for the name is replaced where there is one, and added at the end
    /// where there is none.
    pub open spec fn with_symbol(self, name: Seq<char>, id: VariableId) -> Seq<
        (Seq<char>, VariableId),
    > {
        let at = position_of(self.symbols, name);
        if at < self.symbols.len() {
            self.symbols.update(at, (name, id))
        } else {
            self.symbols.push((name, id))
        }
    }

    /// Every variable that the scope names or holds is below `bound`.
    pub open spec fn ids_below(self, bound: nat) -> bool {
        &&& forall|i: int| 0 <= i < self.symbols.len() ==> (#[trigger] self.symbols[i]).1.0 < bound
        &&& forall|i: int|
            0 <= i < self.intermediates.len() ==> (#[trigger] self.intermediates[i]).0 < bound
        &&& forall|i: int| 0 <= i < self.inputs.len() ==> (#[trigger] self.inputs[i]).0 < bound
        &&& forall|i: int| 0 <= i < self.outputs.len() ==> (#[trigger] self.outputs[i]).0 < bound
    }
}

/// After `with_symbol` the name stands for the new variable, every other
/// name stands for what it stood for, and no name stands twice.
pub proof fn lemma_with_symbol(scope: ScopeView, name: Seq<char>, id: VariableId, other: Seq<char>)
    requires
        scope.names_distinct(),
    ensures
        (ScopeView { symbols: scope.with_symbol(name, id), ..scope }).names_distinct(),
        (ScopeView { symbols: scope.with_symbol(name, id), ..scope }).lookup(name) == Some(id),
        other != name ==> (ScopeView { symbols: scope.with_symbol(name, id), ..scope }).lookup(other)
            == scope.lookup(other),
{
    let after = ScopeView { symbols: scope.with_symbol(name, id), ..scope };
    let at = position_of(scope.symbols, name);
    lemma_position_of_found(scope.symbols, name);
    lemma_position_of_found(scope.symbols, other);
    lemma_position_of(after.symbols, name, at);
    if other != name {
        let there = position_of(scope.symbols, other);
        if there < scope.symbols.len() {
            lemma_position_of(after.symbols, other, there);
        } else {
            lemma_position_of(after.symbols, other, after.symbols.len() as int);
        }
    }
    assert forall|i: int, j: int| 0 <= i < j < after.symbols.len() implies (
    #[trigger] after.symbols[i]).0 != (#[trigger] after.symbols[j]).0 by {
        if at < scope.symbols.len() {
            assert(scope.symbols[i].0 != scope.symbols[j].0);
        } else if j < scope.symbols.len() {
            assert(scope.symbols[i].0 != scope.symbols[j].0);
        }
    }
}

impl Scope {
    /// A scope without a parent.
    pub fn new() -> (r: Scope)
        ensures
            r@ == ScopeView::empty(None),
    {
        let r = Scope {
            parent: None,
            symbols: Vec::new(),
            intermediates: Vec::new(),
            inputs: Vec::new(),
            outputs: Vec::new(),
            body: Vec::new(),
            calls: Vec::new(),
        };
        assert(r@.symbols =~= Seq::empty());
        assert(r@.body =~= Seq::empty());
        assert(r@.calls =~= Seq::empty());
        r
    }

    /// A scope inside `parent`.
    pub fn from_parent(parent: ScopeId) -> (r: Scope)
        ensures
            r@ == ScopeView::empty(Some(parent)),
    {
        let r = Scope {
            parent: Some(parent),
            symbols: Vec::new(),
            intermediates: Vec::new(),
            inputs: Vec::new(),
            outputs: Vec::new(),
            body: Vec::new(),
            calls: Vec::new(),
        };
        assert(r@.symbols =~= Seq::empty());
        assert(r@.body =~= Seq::empty());
        assert(r@.calls =~= Seq::empty());
        r
    }

    pub fn get_parent(&self) -> (r: Option<ScopeId>)
        ensures
            r == self@.parent,
    {
        self.parent
    }

    /// The variable that `name` stands for in this scope itself.
    pub fn lookup(&self, name: &str) -> (r: Option<VariableId>)
        ensures
            r == self@.lookup(name@),
    {
        let key = name.to_owned();
        let mut i: usize = 0;
        while i < self.symbols.len()
            invariant
                i <= self.symbols.len(),
                key@ == name@,
                forall|j: int| 0 <= j < i ==> (#[trigger] self@.symbols[j]).0 != name@,
            decreases self.symbols.len() - i,
        {
            if self.symbols[i].name == key {
                proof {
                    lemma_position_of(self@.symbols, name@, i as int);
                }
                return Some(self.symbols[i].id);
            }
            i += 1;
        }
        proof {
            lemma_position_of(self@.symbols, name@, i as int);
        }
        None
    }

    /// Makes `name` stand for `id` in this scope.
    pub fn define_symbol(&mut self, name: &str, id: VariableId)
        ensures
            final(self)@ == (ScopeView { symbols: old(self)@.with_symbol(name@, id), ..old(self)@ }),
    {
        let key = name.to_owned();
        let mut i: usize = 0;
        while i < self.symbols.len()
            invariant
                i <= self.symbols.len(),
                key@ == name@,
                *self == *old(self),
                forall|j: int| 0 <= j < i ==> (#[trigger] self@.symbols[j]).0 != name@,
            decreases self.symbols.len() - i,
        {
            if self.symbols[i].name == key {
                proof {
                    lemma_position_of(self@.symbols, name@, i as int);
                }
                self.symbols[i].id = id;
                assert(self@.symbols =~= old(self)@.with_symbol(name@, id));
                return ;
            }
            i += 1;
        }
        proof {
            lemma_position_of(self@.symbols, name@, i as int);
        }
        self.symbols.push(Symbol { name: key, id });
        assert(self@.symbols =~= old(self)@.with_symbol(name@, id));
    }

    /// Adds an unnamed variable to this scope.
    pub fn define_intermediate(&mut self, id: VariableId)
        ensures
            final(self)@ == (ScopeView {
                intermediates: old(self)@.intermediates.push(id),
                ..old(self)@
            }),
    {
        self.intermediates.push(id);
    }

    /// Declares `id` the next input parameter.
    pub fn add_input(&mut self, id: VariableId)
        ensures
            final(self)@ == (ScopeView { inputs: old(self)@.inputs.push(id), ..old(self)@ }),
    {
        self.inputs.push(id);
    }

    /// Declares `id` the next output parameter.
    pub fn add_output(&mut self, id: VariableId)
        ensures
            final(self)@ == (ScopeView { outputs: old(self)@.outputs.push(id), ..old(self)@ }),
    {
        self.outputs.push(id);
    }

    /// Adds a statement after those that are there.
    pub fn add_expression(&mut self, expression: Expression)
        ensures
            final(self)@ == (ScopeView { body: old(self)@.body.push(expression@), ..old(self)@ }),
    {
        self.body.push(expression);
        assert(expressions_view(self.body@) =~= expressions_view(old(self).body@).push(
            expression@,
        ));
    }

    /// Adds a call in three-address form after those that are there.
    pub fn add_func_call(&mut self, call: FuncCall)
        ensures
            final(self)@ == (ScopeView { calls: old(self)@.calls.push(call@), ..old(self)@ }),
    {
        self.calls.push(call);
        assert(calls_view(self.calls@) =~= calls_view(old(self).calls@).push(call@));
    }

    pub fn borrow_symbols(&self) -> (r: &Vec<Symbol>)
        ensures
            symbols_view(r@) == self@.symbols,
    {
        &self.symbols
    }

    pub fn borrow_intermediates(&self) -> (r: &Vec<VariableId>)
        ensures
            r@ == self@.intermediates,
    {
        &self.intermediates
    }

    pub fn borrow_inputs(&self) -> (r: &Vec<VariableId>)
        ensures
            r@ == self@.inputs,
    {
        &self.inputs
    }

    pub fn borrow_outputs(&self) -> (r: &Vec<VariableId>)
        ensures
            r@ == self@.outputs,
    {
        &self.outputs
    }

    pub fn get_input(&self, index: usize) -> (r: VariableId)
        requires
            index < self@.inputs.len(),
        ensures
            r == self@.inputs[index as int],
    {
        self.inputs[index]
    }

    pub fn get_output(&self, index: usize) -> (r: VariableId)
        requires
            index < self@.outputs.len(),
        ensures
            r == self@.outputs[index as int],
    {
        self.outputs[index]
    }

    pub fn borrow_body(&self) -> (r: &Vec<Expression>)
        ensures
            expressions_view(r@) == self@.body,
    {
        &self.body
    }

    pub fn borrow_calls(&self) -> (r: &Vec<FuncCall>)
        ensures
            calls_view(r@) == self@.calls,
    {
        &self.calls
    }
}

} // verus!
