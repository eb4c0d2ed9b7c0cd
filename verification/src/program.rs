//! The program arena: every scope and every variable, addressed by id.

use crate::binary::problem_at;
use crate::data_type::DataType;
use crate::expression::Expression;
use crate::func_call::FuncCall;
use crate::ids::{ScopeId, VariableId};
use crate::known_data::{FunctionData, KnownData};
use crate::position::FilePosition;
use crate::problem::{CompileProblem, ProblemKind};
use crate::scope::{lemma_with_symbol, Scope, ScopeView};
use crate::variable::{Variable, VariableView};
use vstd::prelude::*;

verus! {

/// A whole program. Scopes and variables are only ever added, so an id
/// stays valid for as long as the program lives.
#[derive(Debug)]
pub struct Program {
    pub scopes: Vec<Scope>,
    pub entry_point: ScopeId,
    pub variables: Vec<Variable>,
    pub builtins: Option<Builtins>,
}

/// The mathematical content of a `Program`.
pub struct ProgramView {
    pub scopes: Seq<ScopeView>,
    pub entry_point: ScopeId,
    pub variables: Seq<VariableView>,
    pub builtins: Option<Builtins>,
}

/// The variables that hold the builtin functions.
#[derive(Clone, Copy, Debug, PartialEq, Eq, Structural)]
pub struct Builtins {
    pub add_func: VariableId,
    pub sub_func: VariableId,
    pub mul_func: VariableId,
    pub div_func: VariableId,
    pub int_div_func: VariableId,
    pub mod_func: VariableId,
    pub pow_func: VariableId,
    pub lte_func: VariableId,
    pub lt_func: VariableId,
    pub gte_func: VariableId,
    pub gt_func: VariableId,
    pub eq_func: VariableId,
    pub neq_func: VariableId,
    pub band_func: VariableId,
    pub bxor_func: VariableId,
    pub bor_func: VariableId,
    pub and_func: VariableId,
    pub xor_func: VariableId,
    pub or_func: VariableId,
    pub copy_func: VariableId,
}

/// The contents of a list of scopes, one by one.
pub open spec fn scopes_view(scopes: Seq<Scope>) -> Seq<ScopeView> {
    scopes.map_values(|scope: Scope| scope@)
}

/// The contents of a list of variables, one by one.
pub open spec fn variables_view(variables: Seq<Variable>) -> Seq<VariableView> {
    variables.map_values(|variable: Variable| variable@)
}

impl View for Program {
    type V = ProgramView;

    open spec fn view(&self) -> ProgramView {
        ProgramView {
            scopes: scopes_view(self.scopes@),
            entry_point: self.entry_point,
            variables: variables_view(self.variables@),
            builtins: self.builtins,
        }
    }
}

impl ProgramView {
    /// The program holds a scope with this id.
    pub open spec fn has_scope(self, id: ScopeId) -> bool {
        id.0 < self.scopes.len()
    }

    /// The program holds a variable with this id.
    pub open spec fn has_variable(self, id: VariableId) -> bool {
        id.0 < self.variables.len()
    }

    /// The scope with this id.
    pub open spec fn scope(self, id: ScopeId) -> ScopeView {
        self.scopes[id.0 as int]
    }

    /// The variable with this id.
    pub open spec fn variable(self, id: VariableId) -> VariableView {
        self.variables[id.0 as int]
    }

    /// What holds of every program: the entry point is a scope of the
    /// program, every parent was created before its children, every
    /// variable that a scope names or holds is a variable of the program,
    /// and no scope has two symbols of one name.
    pub open spec fn wf(self) -> bool {
        &&& self.has_scope(self.entry_point)
        &&& forall|i: int|
            0 <= i < self.scopes.len() ==> match (#[trigger] self.scopes[i]).parent {
                Some(parent) => parent.0 < i,
                None => true,
            }
        &&& forall|i: int|
            0 <= i < self.scopes.len() ==> (#[trigger] self.scopes[i]).ids_below(
                self.variables.len(),
            )
        &&& forall|i: int| 0 <= i < self.scopes.len() ==> (#[trigger] self.scopes[i]).names_distinct()
    }

    /// The variable that `name` stands for, seen from `scope`: the
    /// declaration in the nearest enclosing scope that has one.
    pub open spec fn lookup(self, scope: ScopeId, name: Seq<char>) -> Option<VariableId>
        decreases scope.0,
    {
        if !self.has_scope(scope) {
            None
        } else {
            match self.scope(scope).lookup(name) {
                Some(id) => Some(id),
                None => match self.scope(scope).parent {
                    Some(parent) => if parent.0 < scope.0 {
                        self.lookup(parent, name)
                    } else {
                        None
                    },
                    None => None,
                },
            }
        }
    }

    /// This program holds everything that `before` held, under the same
    /// ids: each old scope has its parent and its parameters, and each old
    /// variable its definition and whether it is permanent.
    pub open spec fn extends(self, before: ProgramView) -> bool {
        &&& before.scopes.len() <= self.scopes.len()
        &&& before.variables.len() <= self.variables.len()
        &&& self.entry_point == before.entry_point
        &&& (before.builtins is Some ==> self.builtins == before.builtins)
        &&& forall|i: int|
            0 <= i < before.scopes.len() ==> {
                &&& (#[trigger] self.scopes[i]).parent == before.scopes[i].parent
                &&& self.scopes[i].inputs == before.scopes[i].inputs
                &&& self.scopes[i].outputs == before.scopes[i].outputs
            }
        &&& forall|i: int|
            0 <= i < before.variables.len() ==> {
                &&& (#[trigger] self.variables[i]).definition == before.variables[i].definition
                &&& self.variables[i].permanent == before.variables[i].permanent
            }
    }

    /// The program in which every variable holds its initial value again.
    pub open spec fn reset(self) -> ProgramView {
        ProgramView {
            variables: Seq::new(
                self.variables.len(),
                |v: int|
                    VariableView {
                        temporary_value: self.variables[v].initial_value,
                        ..self.variables[v]
                    },
            ),
            ..self
        }
    }

    /// The program with one scope replaced.
    pub open spec fn with_scope(self, id: ScopeId, scope: ScopeView) -> ProgramView {
        ProgramView { scopes: self.scopes.update(id.0 as int, scope), ..self }
    }

    /// The program with one variable replaced.
    pub open spec fn with_variable(self, id: VariableId, variable: VariableView) -> ProgramView {
        ProgramView { variables: self.variables.update(id.0 as int, variable), ..self }
    }

    /// The program with one scope more.
    pub open spec fn plus_scope(self, scope: ScopeView) -> ProgramView {
        ProgramView { scopes: self.scopes.push(scope), ..self }
    }

    /// The program with one variable more.
    pub open spec fn plus_variable(self, variable: VariableView) -> ProgramView {
        ProgramView { variables: self.variables.push(variable), ..self }
    }

    /// The first permanent variable that holds a function whose body is `scope`.
    pub open spec fn function_of(self, scope: ScopeId, from: int) -> Option<VariableId>
        decreases self.variables.len() - from,
    {
        if from < 0 || from >= self.variables.len() || from > usize::MAX {
            None
        } else if self.variables[from].permanent && self.variables[from].initial_value
            is Function && self.variables[from].initial_value->Function_0.body == scope {
            Some(VariableId(from as usize))
        } else {
            self.function_of(scope, from + 1)
        }
    }
}

impl Program {
    /// A program with one scope, its entry point, and no variables.
    pub fn new() -> (r: Program)
        ensures
            r@.wf(),
            r@ == (ProgramView {
                scopes: seq![ScopeView::empty(None)],
                entry_point: ScopeId(0),
                variables: Seq::empty(),
                builtins: None,
            }),
    {
        let mut scopes: Vec<Scope> = Vec::new();
        scopes.push(Scope::new());
        let r = Program { scopes, entry_point: ScopeId(0), variables: Vec::new(), builtins: None };
        assert(r@.scopes =~= seq![ScopeView::empty(None)]);
        assert(r@.variables =~= Seq::empty());
        r
    }

    /// Creates a scope that has no parent.
    pub fn create_scope(&mut self) -> (id: ScopeId)
        requires
            old(self)@.wf(),
        ensures
            id.0 == old(self)@.scopes.len(),
            final(self)@ == old(self)@.plus_scope(ScopeView::empty(None)),
            final(self)@.wf(),
            final(self)@.extends(old(self)@),
    {
        let id = ScopeId(self.scopes.len());
        self.scopes.push(Scope::new());
        assert(self@.scopes =~= old(self)@.scopes.push(ScopeView::empty(None)));
        assert(self@.variables =~= old(self)@.variables);
        id
    }

    /// Creates a scope inside `parent`.
    pub fn create_child_scope(&mut self, parent: ScopeId) -> (id: ScopeId)
        requires
            old(self)@.wf(),
            old(self)@.has_scope(parent),
        ensures
            id.0 == old(self)@.scopes.len(),
            final(self)@ == old(self)@.plus_scope(ScopeView::empty(Some(parent))),
            final(self)@.wf(),
            final(self)@.extends(old(self)@),
    {
        let id = ScopeId(self.scopes.len());
        self.scopes.push(Scope::from_parent(parent));
        assert(self@.scopes =~= old(self)@.scopes.push(ScopeView::empty(Some(parent))));
        assert(self@.variables =~= old(self)@.variables);
        id
    }

    pub fn has_scope(&self, id: ScopeId) -> (r: bool)
        ensures
            r == self@.has_scope(id),
    {
        id.0 < self.scopes.len()
    }

    pub fn has_variable(&self, id: VariableId) -> (r: bool)
        ensures
            r == self@.has_variable(id),
    {
        id.0 < self.variables.len()
    }

    pub fn borrow_scope(&self, id: ScopeId) -> (r: &Scope)
        requires
            self@.has_scope(id),
        ensures
            r@ == self@.scope(id),
            *r == self.scopes@[id.0 as int],
    {
        &self.scopes[id.0]
    }

    pub fn borrow_variable(&self, id: VariableId) -> (r: &Variable)
        requires
            self@.has_variable(id),
        ensures
            r@ == self@.variable(id),
            *r == self.variables@[id.0 as int],
    {
        &self.variables[id.0]
    }

    /// Finds the variable that `symbol` stands for, seen from `scope`.
    pub fn lookup_symbol(&self, scope: ScopeId, symbol: &str) -> (r: Option<VariableId>)
        requires
            self@.wf(),
            self@.has_scope(scope),
        ensures
            r == self@.lookup(scope, symbol@),
            r.is_some() ==> self@.has_variable(r.unwrap()),
        decreases scope.0,
    {
        match self.scopes[scope.0].lookup(symbol) {
            Some(id) => {
                proof {
                    crate::scope::lemma_position_of_found(self@.scope(scope).symbols, symbol@);
                }
                Some(id)
            },
            None => match self.scopes[scope.0].get_parent() {
                Some(parent) => self.lookup_symbol(parent, symbol),
                None => None,
            },
        }
    }

    /// Finds the variable that `symbol` stands for, seen from `scope`, for
    /// a reference to it at `position`: where nothing visible from the
    /// scope has that name, the reference is the problem.
    pub fn require_symbol(&self, scope: ScopeId, symbol: &str, position: FilePosition) -> (r: Result<
        VariableId,
        CompileProblem,
    >)
        requires
            self@.wf(),
            self@.has_scope(scope),
        ensures
            match self@.lookup(scope, symbol@) {
                Some(id) => r is Ok && r.unwrap() == id && self@.has_variable(id),
                None => r is Err && r.unwrap_err()@ == problem_at(
                    ProblemKind::NoEntityWithName,
                    position,
                ),
            },
    {
        match self.lookup_symbol(scope, symbol) {
            Some(id) => Ok(id),
            None => Err(CompileProblem::new(ProblemKind::NoEntityWithName, position)),
        }
    }

    /// Replaces a variable.
    pub fn modify_variable(&mut self, variable: VariableId, modified: Variable)
        requires
            old(self)@.has_variable(variable),
        ensures
            final(self)@ == old(self)@.with_variable(variable, modified@),
    {
        self.variables[variable.0] = modified;
        assert(self@.variables =~= old(self)@.variables.update(variable.0 as int, modified@));
        assert(self@.scopes =~= old(self)@.scopes);
    }

    /// Takes a variable into the arena and returns its id.
    pub fn adopt_variable(&mut self, variable: Variable) -> (id: VariableId)
        ensures
            id.0 == old(self)@.variables.len(),
            final(self)@ == old(self)@.plus_variable(variable@),
            old(self)@.wf() ==> final(self)@.wf(),
            final(self)@.extends(old(self)@),
    {
        let id = VariableId(self.variables.len());
        self.variables.push(variable);
        assert(self@.variables =~= old(self)@.variables.push(variable@));
        assert(self@.scopes =~= old(self)@.scopes);
        id
    }

    pub fn set_data_type(&mut self, variable: VariableId, data_type: DataType)
        requires
            old(self)@.has_variable(variable),
        ensures
            final(self)@ == old(self)@.with_variable(
                variable,
                VariableView { data_type, ..old(self)@.variable(variable) },
            ),
            old(self)@.wf() ==> final(self)@.wf(),
            final(self)@.extends(old(self)@),
    {
        self.variables[variable.0].set_data_type(data_type);
        assert(self@.variables =~= old(self)@.variables.update(
            variable.0 as int,
            VariableView { data_type, ..old(self)@.variable(variable) },
        ));
        assert(self@.scopes =~= old(self)@.scopes);
    }

    pub fn set_initial_value(&mut self, variable: VariableId, value: KnownData)
        requires
            old(self)@.has_variable(variable),
        ensures
            final(self)@ == old(self)@.with_variable(
                variable,
                VariableView { initial_value: value@, ..old(self)@.variable(variable) },
            ),
            old(self)@.wf() ==> final(self)@.wf(),
            final(self)@.extends(old(self)@),
    {
        self.variables[variable.0].set_initial_value(value);
        assert(self@.variables =~= old(self)@.variables.update(
            variable.0 as int,
            VariableView { initial_value: value@, ..old(self)@.variable(variable) },
        ));
        assert(self@.scopes =~= old(self)@.scopes);
    }

    pub fn set_temporary_value(&mut self, variable: VariableId, value: KnownData)
        requires
            old(self)@.has_variable(variable),
        ensures
            final(self)@ == old(self)@.with_variable(
                variable,
                VariableView { temporary_value: value@, ..old(self)@.variable(variable) },
            ),
            old(self)@.wf() ==> final(self)@.wf(),
            final(self)@.extends(old(self)@),
    {
        self.variables[variable.0].set_temporary_value(value);
        assert(self@.variables =~= old(self)@.variables.update(
            variable.0 as int,
            VariableView { temporary_value: value@, ..old(self)@.variable(variable) },
        ));
        assert(self@.scopes =~= old(self)@.scopes);
    }

    /// Replaces the item that `indexes` select in the temporary value of a
    /// variable. Where they select nothing, nothing changes, and the result is `false`.
    pub fn set_temporary_item(&mut self, variable: VariableId, indexes: &Vec<i64>, item: KnownData) -> (done:
        bool)
        requires
            old(self)@.has_variable(variable),
        ensures
            match old(self)@.variable(variable).temporary_value.with_item(indexes@, item@) {
                Some(value) => done && final(self)@ == old(self)@.with_variable(
                    variable,
                    VariableView { temporary_value: value, ..old(self)@.variable(variable) },
                ),
                None => !done && final(self)@ == old(self)@,
            },
            old(self)@.wf() ==> final(self)@.wf(),
            final(self)@.extends(old(self)@),
    {
        let done = self.variables[variable.0].temporary_value.set_item(indexes, item);
        proof {
            assert(self@.scopes =~= old(self)@.scopes);
            if done {
                assert(self@.variables =~= old(self)@.variables.update(
                    variable.0 as int,
                    VariableView {
                        temporary_value: self@.variable(variable).temporary_value,
                        ..old(self)@.variable(variable)
                    },
                ));
            } else {
                assert(self@.variables =~= old(self)@.variables);
            }
        }
        done
    }

    pub fn borrow_temporary_value(&self, variable: VariableId) -> (r: &KnownData)
        requires
            self@.has_variable(variable),
        ensures
            r@ == self@.variable(variable).temporary_value,
    {
        self.variables[variable.0].borrow_temporary_value()
    }

    pub fn is_permanent(&self, variable: VariableId) -> (r: bool)
        requires
            self@.has_variable(variable),
        ensures
            r == self@.variable(variable).permanent,
    {
        self.variables[variable.0].is_permanent()
    }

    /// Gives every variable its initial value again, as before the first pass.
    pub fn reset_all_temporary_value(&mut self)
        ensures
            final(self)@ == old(self)@.reset(),
            old(self)@.wf() ==> final(self)@.wf(),
            final(self)@.extends(old(self)@),
            final(self)@.scopes == old(self)@.scopes,
            final(self)@.entry_point == old(self)@.entry_point,
            final(self)@.builtins == old(self)@.builtins,
            final(self)@.variables.len() == old(self)@.variables.len(),
            forall|i: int|
                0 <= i < old(self)@.variables.len() ==> (#[trigger] final(self)@.variables[i]) == (
                VariableView {
                    temporary_value: old(self)@.variables[i].initial_value,
                    ..old(self)@.variables[i]
                }),
    {
        let mut i: usize = 0;
        while i < self.variables.len()
            invariant
                i <= self.variables.len(),
                self.scopes == old(self).scopes,
                self.entry_point == old(self).entry_point,
                self.builtins == old(self).builtins,
                self.variables@.len() == old(self).variables@.len(),
                forall|j: int|
                    0 <= j < i ==> (#[trigger] self.variables@[j])@ == (VariableView {
                        temporary_value: old(self).variables@[j]@.initial_value,
                        ..old(self).variables@[j]@
                    }),
                forall|j: int|
                    i <= j < self.variables@.len() ==> (#[trigger] self.variables@[j])
                        == old(self).variables@[j],
            decreases self.variables.len() - i,
        {
            self.variables[i].reset_temporary_value();
            i += 1;
        }
        proof {
            assert(self@.variables =~= old(self)@.reset().variables);
            assert(self@.scopes =~= old(self)@.scopes);
        }
    }

    /// The variables that hold the builtin functions, once they were added.
    pub fn get_builtins(&self) -> (r: &Option<Builtins>)
        ensures
            *r == self@.builtins,
    {
        &self.builtins
    }

    pub fn get_entry_point(&self) -> (r: ScopeId)
        ensures
            r == self@.entry_point,
    {
        self.entry_point
    }

    pub fn set_entry_point(&mut self, new_entry_point: ScopeId)
        requires
            old(self)@.has_scope(new_entry_point),
        ensures
            final(self)@ == (ProgramView { entry_point: new_entry_point, ..old(self)@ }),
            old(self)@.wf() ==> final(self)@.wf(),
    {
        self.entry_point = new_entry_point;
    }

    /// Takes a variable into the arena and makes `symbol` stand for it in `scope`.
    pub fn adopt_and_define_symbol(&mut self, scope: ScopeId, symbol: &str, definition: Variable) -> (id:
        VariableId)
        requires
            old(self)@.wf(),
            old(self)@.has_scope(scope),
        ensures
            id.0 == old(self)@.variables.len(),
            final(self)@ == old(self)@.plus_variable(definition@).with_scope(
                scope,
                ScopeView {
                    symbols: old(self)@.scope(scope).with_symbol(symbol@, id),
                    ..old(self)@.scope(scope)
                },
            ),
            final(self)@.wf(),
            final(self)@.extends(old(self)@),
    {
        let id = self.adopt_variable(definition);
        self.scopes[scope.0].define_symbol(symbol, id);
        proof {
            let after = ScopeView {
                symbols: old(self)@.scope(scope).with_symbol(symbol@, id),
                ..old(self)@.scope(scope)
            };
            assert(self@.scopes =~= old(self)@.scopes.update(scope.0 as int, after));
            assert(self@.variables =~= old(self)@.variables.push(definition@));
            lemma_with_symbol(old(self)@.scope(scope), symbol@, id, symbol@);
            crate::scope::lemma_position_of_found(old(self)@.scope(scope).symbols, symbol@);
            assert(after.ids_below(self@.variables.len()));
        }
        id
    }

    /// Takes a variable into the arena and adds it to `scope` without a name.
    pub fn adopt_and_define_intermediate(&mut self, scope: ScopeId, definition: Variable) -> (id:
        VariableId)
        requires
            old(self)@.wf(),
            old(self)@.has_scope(scope),
        ensures
            id.0 == old(self)@.variables.len(),
            final(self)@ == old(self)@.plus_variable(definition@).with_scope(
                scope,
                ScopeView {
                    intermediates: old(self)@.scope(scope).intermediates.push(id),
                    ..old(self)@.scope(scope)
                },
            ),
            final(self)@.wf(),
            final(self)@.extends(old(self)@),
    {
        let id = self.adopt_variable(definition);
        self.scopes[scope.0].define_intermediate(id);
        proof {
            let after = ScopeView {
                intermediates: old(self)@.scope(scope).intermediates.push(id),
                ..old(self)@.scope(scope)
            };
            assert(self@.scopes =~= old(self)@.scopes.update(scope.0 as int, after));
            assert(self@.variables =~= old(self)@.variables.push(definition@));
            assert(after.ids_below(self@.variables.len()));
        }
        id
    }

    /// Adds to `scope` an unnamed variable whose type its first assignment will fix.
    pub fn make_intermediate_auto_var(&mut self, scope: ScopeId, position: FilePosition) -> (id:
        VariableId)
        requires
            old(self)@.wf(),
            old(self)@.has_scope(scope),
        ensures
            id.0 == old(self)@.variables.len(),
            final(self)@ == old(self)@.plus_variable(
                VariableView::fresh(position, DataType::Automatic, None, false),
            ).with_scope(
                scope,
                ScopeView {
                    intermediates: old(self)@.scope(scope).intermediates.push(id),
                    ..old(self)@.scope(scope)
                },
            ),
            final(self)@.wf(),
            final(self)@.extends(old(self)@),
    {
        self.adopt_and_define_intermediate(scope, Variable::automatic(position))
    }

    /// Adds a statement to `scope`.
    pub fn add_expression(&mut self, scope: ScopeId, expression: Expression)
        requires
            old(self)@.has_scope(scope),
        ensures
            final(self)@ == old(self)@.with_scope(
                scope,
                ScopeView {
                    body: old(self)@.scope(scope).body.push(expression@),
                    ..old(self)@.scope(scope)
                },
            ),
            old(self)@.wf() ==> final(self)@.wf(),
            final(self)@.extends(old(self)@),
    {
        self.scopes[scope.0].add_expression(expression);
        proof {
            let after = ScopeView {
                body: old(self)@.scope(scope).body.push(expression@),
                ..old(self)@.scope(scope)
            };
            assert(self@.scopes =~= old(self)@.scopes.update(scope.0 as int, after));
            assert(self@.variables =~= old(self)@.variables);
        }
    }

    /// Adds a call in three-address form to `scope`.
    pub fn add_func_call(&mut self, scope: ScopeId, call: FuncCall)
        requires
            old(self)@.has_scope(scope),
        ensures
            final(self)@ == old(self)@.with_scope(
                scope,
                ScopeView {
                    calls: old(self)@.scope(scope).calls.push(call@),
                    ..old(self)@.scope(scope)
                },
            ),
            old(self)@.wf() ==> final(self)@.wf(),
            final(self)@.extends(old(self)@),
    {
        self.scopes[scope.0].add_func_call(call);
        proof {
            let after = ScopeView {
                calls: old(self)@.scope(scope).calls.push(call@),
                ..old(self)@.scope(scope)
            };
            assert(self@.scopes =~= old(self)@.scopes.update(scope.0 as int, after));
            assert(self@.variables =~= old(self)@.variables);
        }
    }

    /// Declares the variable `id` the next input parameter of `scope`.
    pub fn add_input(&mut self, scope: ScopeId, id: VariableId)
        requires
            old(self)@.has_scope(scope),
            old(self)@.has_variable(id),
        ensures
            final(self)@ == old(self)@.with_scope(
                scope,
                ScopeView {
                    inputs: old(self)@.scope(scope).inputs.push(id),
                    ..old(self)@.scope(scope)
                },
            ),
            old(self)@.wf() ==> final(self)@.wf(),
    {
        self.scopes[scope.0].add_input(id);
        proof {
            let after = ScopeView {
                inputs: old(self)@.scope(scope).inputs.push(id),
                ..old(self)@.scope(scope)
            };
            assert(self@.scopes =~= old(self)@.scopes.update(scope.0 as int, after));
            assert(self@.variables =~= old(self)@.variables);
        }
    }

    /// Declares the variable `id` the next output parameter of `scope`.
    pub fn add_output(&mut self, scope: ScopeId, id: VariableId)
        requires
            old(self)@.has_scope(scope),
            old(self)@.has_variable(id),
        ensures
            final(self)@ == old(self)@.with_scope(
                scope,
                ScopeView {
                    outputs: old(self)@.scope(scope).outputs.push(id),
                    ..old(self)@.scope(scope)
                },
            ),
            old(self)@.wf() ==> final(self)@.wf(),
    {
        self.scopes[scope.0].add_output(id);
        proof {
            let after = ScopeView {
                outputs: old(self)@.scope(scope).outputs.push(id),
                ..old(self)@.scope(scope)
            };
            assert(self@.scopes =~= old(self)@.scopes.update(scope.0 as int, after));
            assert(self@.variables =~= old(self)@.variables);
        }
    }

    /// Finds a permanent variable that holds a function whose body is `scope`.
    pub fn find_parent_function(&self, scope: ScopeId) -> (r: Option<VariableId>)
        ensures
            r == self@.function_of(scope, 0),
    {
        let mut index: usize = 0;
        while index < self.variables.len()
            invariant
                index <= self.variables.len(),
                self@.function_of(scope, 0) == self@.function_of(scope, index as int),
            decreases self.variables.len() - index,
        {
            let variable = &self.variables[index];
            if variable.is_permanent() {
                if let KnownData::Function(data) = variable.borrow_initial_value() {
                    if data.get_body().0 == scope.0 {
                        return Some(VariableId(index));
                    }
                }
            }
            index += 1;
        }
        None
    }

    /// Finds the function whose body is `scope`, as a permanent variable holds it.
    pub fn lookup_and_clone_parent_function(&self, scope: ScopeId) -> (r: Option<FunctionData>)
        ensures
            match self@.function_of(scope, 0) {
                Some(id) => r == Some(self@.variable(id).initial_value->Function_0),
                None => r.is_none(),
            },
    {
        match self.find_parent_function(scope) {
            Some(id) => {
                proof {
                    lemma_function_of(self@, scope, 0);
                }
                match self.variables[id.0].borrow_initial_value() {
                    KnownData::Function(data) => Some(*data),
                    _ => None,
                }
            },
            None => None,
        }
    }
}

/// What `function_of` finds is a permanent variable of the program that
/// holds a function with that body.
pub proof fn lemma_function_of(program: ProgramView, scope: ScopeId, from: int)
    ensures
        match program.function_of(scope, from) {
            Some(id) => {
                &&& program.has_variable(id)
                &&& program.variable(id).permanent
                &&& program.variable(id).initial_value is Function
                &&& program.variable(id).initial_value->Function_0.body == scope
            },
            None => true,
        },
    decreases program.variables.len() - from,
{
    if 0 <= from < program.variables.len() && from <= usize::MAX {
        lemma_function_of(program, scope, from + 1);
    }
}

} // verus!
