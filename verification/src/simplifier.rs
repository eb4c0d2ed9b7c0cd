//! The state of a simplification pass, and the simplification of variables.

use crate::access::problem_within;
use crate::binary::{outcome_view, problem_at};
use crate::expression::{Expr, Expression};
use crate::ids::{ScopeId, VariableId};
use crate::position::FilePosition;
use crate::problem::{CompileProblem, problem_in_context, ProblemKind, ProblemView};
use crate::program::{Program, ProgramView};
use crate::scope::ScopeView;
use crate::simplified::{Content, ContentView, SimplifiedExpression, SimplifiedView};
use crate::table::{FrameView, ResolverTable, TableView};
use vstd::prelude::*;

verus! {

/// The state of a pass: the conversion table, and the scope that residual
/// statements and new variables go to.
#[derive(Debug)]
pub struct ScopeSimplifier {
    pub table: ResolverTable,
    pub current_scope: ScopeId,
}

impl ScopeView {
    /// Every statement of the scope can stand in the residual program.
    pub open spec fn body_resolved(self) -> bool {
        forall|i: int| 0 <= i < self.body.len() ==> (#[trigger] self.body[i]).resolved()
    }
}

impl ProgramView {
    /// Every statement of every scope from `from` on can stand in the residual program.
    pub open spec fn bodies_resolved(self, from: nat) -> bool {
        forall|s: int| from <= s < self.scopes.len() ==> (#[trigger] self.scopes[s]).body_resolved()
    }

    /// Whatever range of scopes held only statements of the residual
    /// program in `before` still holds only such statements.
    pub open spec fn keeps_bodies_resolved(self, before: ProgramView) -> bool {
        forall|from: nat| #[trigger] before.bodies_resolved(from) ==> self.bodies_resolved(from)
    }
}

/// A statement of the residual program, added to a scope, leaves the
/// bodies as resolved as they were.
pub proof fn lemma_added_statement(before: ProgramView, scope: ScopeId, statement: Expr)
    requires
        before.has_scope(scope),
        statement.resolved(),
    ensures
        before.with_scope(
            scope,
            ScopeView { body: before.scope(scope).body.push(statement), ..before.scope(scope) },
        ).keeps_bodies_resolved(before),
{
    let after = before.with_scope(
        scope,
        ScopeView { body: before.scope(scope).body.push(statement), ..before.scope(scope) },
    );
    assert forall|from: nat| #[trigger] before.bodies_resolved(from) implies after.bodies_resolved(
        from,
    ) by {
        assert forall|s: int| from <= s < after.scopes.len() implies (
        #[trigger] after.scopes[s]).body_resolved() by {
            assert(before.scopes[s].body_resolved());
            if s == scope.0 {
                assert forall|i: int| 0 <= i < after.scopes[s].body.len() implies (
                #[trigger] after.scopes[s].body[i]).resolved() by {
                    if i < before.scopes[s].body.len() {
                        assert(after.scopes[s].body[i] == before.scopes[s].body[i]);
                    }
                }
            }
        }
    }
}

/// A program with the same scopes, and more scopes without statements,
/// has its bodies as resolved as they were.
pub proof fn lemma_bodies_stay(before: ProgramView, after: ProgramView)
    requires
        before.scopes.len() <= after.scopes.len(),
        forall|s: int| 0 <= s < before.scopes.len() ==> (#[trigger] after.scopes[s]).body
            == before.scopes[s].body,
        forall|s: int|
            before.scopes.len() <= s < after.scopes.len() ==> (#[trigger] after.scopes[s]).body.len()
                == 0,
    ensures
        after.keeps_bodies_resolved(before),
{
    assert forall|from: nat| #[trigger] before.bodies_resolved(from) implies after.bodies_resolved(
        from,
    ) by {
        assert forall|s: int| from <= s < after.scopes.len() implies (
        #[trigger] after.scopes[s]).body_resolved() by {
            if s < before.scopes.len() {
                assert(before.scopes[s].body_resolved());
            }
        }
    }
}

impl FrameView {
    /// Every expression that a parameter stands for is resolved.
    pub open spec fn substitutions_resolved(self) -> bool {
        forall|key: VariableId| #[trigger]
            self.substitutions.contains_key(key) ==> self.substitutions[key].0.resolved()
    }
}

impl TableView {
    /// Every expression that a parameter stands for, in the table in force
    /// and in the saved ones, is resolved.
    pub open spec fn substitutions_resolved(self) -> bool {
        &&& self.current.substitutions_resolved()
        &&& forall|i: int|
            0 <= i < self.stack.len() ==> (#[trigger] self.stack[i]).substitutions_resolved()
    }

    /// The table fits a program with `variables` variables.
    pub open spec fn fits(self, variables: nat) -> bool {
        self.images_below(variables) && self.substitutions_resolved()
    }
}

/// A table that fits still fits after the table in force is saved.
pub proof fn lemma_pushed_fits(table: TableView, variables: nat)
    requires
        table.fits(variables),
    ensures
        table.pushed().fits(variables),
{
    let pushed = table.pushed();
    assert forall|i: int, key: VariableId|
        0 <= i < pushed.stack.len() && #[trigger] pushed.stack[i].conversions.contains_key(
            key,
        ) implies pushed.stack[i].conversions[key].0 < variables by {
        if i < table.stack.len() {
            assert(pushed.stack[i] == table.stack[i]);
        }
    }
    assert forall|i: int| 0 <= i < pushed.stack.len() implies (
    #[trigger] pushed.stack[i]).substitutions_resolved() by {
        if i < table.stack.len() {
            assert(pushed.stack[i] == table.stack[i]);
        }
    }
}

/// A table that fits still fits after the table saved last is put in force again.
pub proof fn lemma_popped_fits(table: TableView, variables: nat)
    requires
        table.fits(variables),
        table.stack.len() > 0,
    ensures
        table.popped().fits(variables),
{
    let popped = table.popped();
    let last = table.stack.len() - 1;
    assert(table.stack[last].substitutions_resolved());
    assert forall|key: VariableId| #[trigger]
        popped.current.conversions.contains_key(key) implies popped.current.conversions[key].0
        < variables by {
        assert(table.stack[last].conversions.contains_key(key));
    }
    assert forall|i: int, key: VariableId|
        0 <= i < popped.stack.len() && #[trigger] popped.stack[i].conversions.contains_key(
            key,
        ) implies popped.stack[i].conversions[key].0 < variables by {
        assert(popped.stack[i] == table.stack[i]);
    }
    assert forall|i: int| 0 <= i < popped.stack.len() implies (
    #[trigger] popped.stack[i]).substitutions_resolved() by {
        assert(popped.stack[i] == table.stack[i]);
    }
}

/// What a reference to the variable `id` simplifies to.
///
/// A parameter that stands for an expression gives that expression. Else
/// the variable is converted. A concrete temporary value is the result.
/// Without one, the result is a reference for run time, for which the
/// variable needs a type that run-time values can have.
pub open spec fn variable_outcome(
    program: ProgramView,
    frame: FrameView,
    id: VariableId,
    position: FilePosition,
) -> Result<SimplifiedView, ProblemView> {
    if frame.substitutions.contains_key(id) {
        Ok(
            SimplifiedView {
                content: ContentView::Modified(frame.substitutions[id].0),
                data_type: frame.substitutions[id].1,
            },
        )
    } else {
        let target = frame.convert(id);
        if !program.has_variable(target) {
            Err(problem_at(ProblemKind::UnknownId, position))
        } else {
            let variable = program.variable(target);
            if variable.temporary_value.concrete() {
                Ok(
                    SimplifiedView {
                        content: ContentView::Interpreted(variable.temporary_value),
                        data_type: variable.temporary_value.data_type().unwrap(),
                    },
                )
            } else if variable.data_type is Automatic {
                Err(problem_within(ProblemKind::UnresolvedAutoVar, position, variable.definition))
            } else if !variable.data_type.run_time() {
                Err(
                    problem_within(
                        ProblemKind::ValueNotRunTimeCompatible,
                        position,
                        variable.definition,
                    ),
                )
            } else {
                Ok(
                    SimplifiedView {
                        content: ContentView::Modified(Expr::Variable(target, position)),
                        data_type: variable.data_type,
                    },
                )
            }
        }
    }
}

/// Reads a variable as it is, without the table: its concrete temporary
/// value, or a reference to it for run time.
pub fn read_variable(program: &Program, target: VariableId, position: FilePosition) -> (r: Result<
    SimplifiedExpression,
    CompileProblem,
>)
    ensures
        outcome_view(r) == variable_outcome(program@, FrameView::empty(), target, position),
        r is Ok ==> r.unwrap()@.residual_resolved(),
{
    if !program.has_variable(target) {
        return Err(CompileProblem::new(ProblemKind::UnknownId, position));
    }
    let variable = program.borrow_variable(target);
    let value = variable.borrow_temporary_value();
    if value.is_complete() {
        match value.get_data_type() {
            Some(data_type) => {
                return Ok(
                    SimplifiedExpression { content: Content::Interpreted(value.clone()), data_type },
                );
            },
            None => {},
        }
    }
    if variable.borrow_data_type().is_automatic() {
        return Err(
            problem_in_context(ProblemKind::UnresolvedAutoVar, position, *variable.get_definition()),
        );
    }
    if !variable.borrow_data_type().is_run_time_compatible() {
        return Err(
            problem_in_context(
                ProblemKind::ValueNotRunTimeCompatible,
                position,
                *variable.get_definition(),
            ),
        );
    }
    Ok(
        SimplifiedExpression {
            content: Content::Modified(Expression::Variable(target, position)),
            data_type: variable.borrow_data_type().clone(),
        },
    )
}

impl ScopeSimplifier {
    /// A pass that starts with an empty table and puts what it makes into `scope`.
    pub fn new(scope: ScopeId) -> (r: ScopeSimplifier)
        ensures
            r.current_scope == scope,
            r.table@ == (TableView { current: FrameView::empty(), stack: Seq::empty() }),
            forall|variables: nat| r.table@.fits(variables),
    {
        ScopeSimplifier { table: ResolverTable::new(), current_scope: scope }
    }

    /// The state of the pass, with the program as it is.
    pub open spec fn pass(&self, program: ProgramView) -> crate::semantics::Pass {
        crate::semantics::Pass { program, table: self.table@, scope: self.current_scope }
    }

    /// The state fits the program: the program is well formed and holds
    /// the current scope, and the table fits it.
    pub open spec fn valid_for(&self, program: ProgramView) -> bool {
        &&& program.wf()
        &&& program.has_scope(self.current_scope)
        &&& self.table@.fits(program.variables.len())
    }

    /// Simplifies a reference to a variable.
    pub fn simplify_variable(&self, program: &Program, id: VariableId, position: FilePosition) -> (r:
        Result<SimplifiedExpression, CompileProblem>)
        ensures
            outcome_view(r) == variable_outcome(program@, self.table@.current, id, position),
            self.table@.current.substitutions_resolved() ==> (r is Ok ==> r.unwrap()@.residual_resolved()),
    {
        match self.table.substitution(id) {
            Some((expression, data_type)) => {
                return Ok(
                    SimplifiedExpression { content: Content::Modified(expression), data_type },
                );
            },
            None => {},
        }
        read_variable(program, self.table.convert(id), position)
    }
}

} // verus!
