//! The entry to resolution.

use crate::binary::problem_at;
use crate::calls::MAX_NESTING;
use crate::copier::{convertible, instantiate_scope};
use crate::expression::clone_expressions;
use crate::data_type::DataType;
use crate::ids::{ScopeId, VariableId};
use crate::position::FilePosition;
use crate::problem::{CompileProblem, ProblemKind, ProblemView};
use crate::program::{Program, ProgramView};
use crate::resolution::{calls_resolved, Resolving};
use crate::resolver::ScopeResolver;
use crate::semantics::{Pass, ran};
use crate::simplifier::ScopeSimplifier;
use crate::table::{FrameView, ResolverTable, TableView};
use vstd::prelude::*;

verus! {

/// What the simplification of the statements of the scope `scope` leaves:
/// the copy of the scope, and the state of the pass at its end.
///
/// Every variable starts from its initial value. The scope is copied
/// under an empty table, with the parent of the scope as its parent, and
/// the statements of the scope are simplified in their order into the copy.
pub open spec fn scope_simplified(program: ProgramView, scope: ScopeId, fuel: nat) -> Result<
    (ScopeId, Pass),
    ProblemView,
> {
    let start = program.reset();
    let ids = start.scope(scope).own_ids();
    let empty = TableView { current: FrameView::empty(), stack: Seq::empty() };
    if !convertible(FrameView::empty(), ids) {
        Err(problem_at(ProblemKind::DuplicateConversion, FilePosition::spec_placeholder()))
    } else {
        let table = empty.with_instances(ids, start.variables.len());
        let copied = start.with_copy(scope, start.scope(scope).parent, table.current);
        let copy = ScopeId(start.scopes.len() as usize);
        match ran(
            Pass { program: copied, table, scope: copy },
            copied.scope(scope).body,
            0,
            fuel,
            false,
        ) {
            Err(problem) => Err(problem),
            Ok((_, after)) => Ok((copy, after)),
        }
    }
}

/// Simplifies the statements of the scope `scope` into a copy of it, and
/// returns the copy and the table of the pass.
pub fn simplify_scope(program: &mut Program, scope: ScopeId, fuel: usize) -> (r: Result<
    (ScopeId, ResolverTable),
    CompileProblem,
>)
    requires
        old(program)@.wf(),
        old(program)@.has_scope(scope),
    ensures
        final(program)@.wf(),
        final(program)@.extends(old(program)@),
        match scope_simplified(old(program)@, scope, fuel as nat) {
            Ok((copy, after)) => {
                &&& r is Ok
                &&& r.unwrap().0 == copy
                &&& r.unwrap().1@ == after.table
                &&& final(program)@ == after.program
            },
            Err(problem) => r is Err && r.unwrap_err()@ == problem,
        },
        r is Ok ==> {
            &&& r.unwrap().0.0 == old(program)@.scopes.len()
            &&& final(program)@.has_scope(r.unwrap().0)
            &&& final(program)@.scope(r.unwrap().0).parent == old(program)@.scope(scope).parent
            &&& final(program)@.bodies_resolved(old(program)@.scopes.len())
            &&& r.unwrap().1@.images_below(final(program)@.variables.len())
        },
{
    program.reset_all_temporary_value();
    let mut simplifier = ScopeSimplifier::new(scope);
    let parent = program.borrow_scope(scope).get_parent();
    let ghost reset = program@;
    let copy = match instantiate_scope(program, &mut simplifier.table, scope, parent) {
        Ok(copy) => copy,
        Err(problem) => {
            return Err(problem);
        },
    };
    simplifier.current_scope = copy;
    let ghost copied = program@;
    assert(copied.bodies_resolved(reset.scopes.len()));
    assert(copied.scope(copy).parent == parent);
    let statements = clone_expressions(program.borrow_scope(scope).borrow_body());
    match simplifier.run_statements(program, &statements, fuel) {
        Ok(_) => {},
        Err(problem) => {
            return Err(problem);
        },
    }
    assert(program@.bodies_resolved(reset.scopes.len()));
    assert(program@.scope(copy).parent == parent);
    Ok((copy, simplifier.table))
}

impl ProgramView {
    /// The first variable from `from` on whose type is not concrete.
    pub open spec fn first_vague(self, from: int) -> Option<VariableId>
        decreases self.variables.len() - from,
    {
        if from < 0 || from >= self.variables.len() {
            None
        } else if !self.variables[from].data_type.concrete() {
            Some(VariableId(from as usize))
        } else {
            self.first_vague(from + 1)
        }
    }

    /// Every variable from `from` on has a concrete type.
    pub open spec fn concrete_from(self, from: int) -> bool {
        forall|v: int| from <= v < self.variables.len() ==> (#[trigger] self.variables[v]).data_type.concrete()
    }
}

/// Where no variable from `from` on is vague, each has a concrete type;
/// else the first vague one is a variable from `from` on whose type is not concrete.
pub proof fn lemma_first_vague(program: ProgramView, from: int)
    requires
        0 <= from,
        program.variables.len() <= usize::MAX,
    ensures
        program.first_vague(from) is None == program.concrete_from(from),
        program.first_vague(from) is Some ==> {
            &&& from <= program.first_vague(from).unwrap().0 < program.variables.len()
            &&& !program.variable(program.first_vague(from).unwrap()).data_type.concrete()
        },
    decreases program.variables.len() - from,
{
    if from < program.variables.len() {
        lemma_first_vague(program, from + 1);
        if program.variables[from].data_type.concrete() {
            if program.concrete_from(from + 1) {
                assert forall|v: int| from <= v < program.variables.len() implies (
                #[trigger] program.variables[v]).data_type.concrete() by {
                    if v > from {
                        assert(program.variables[v].data_type.concrete());
                    }
                }
            } else {
                let v = choose|v: int| from + 1 <= v < program.variables.len() && !(
                #[trigger] program.variables[v]).data_type.concrete();
                assert(!program.variables[v].data_type.concrete());
            }
        } else {
            assert(!program.variables[from].data_type.concrete());
        }
    }
}

/// Finds the first variable from `from` on whose type is not concrete.
pub fn find_vague_variable(program: &Program, from: usize) -> (r: Option<VariableId>)
    ensures
        r == program@.first_vague(from as int),
{
    let mut i: usize = from;
    while i < program.variables.len()
        invariant
            from <= i,
            program@.first_vague(from as int) == program@.first_vague(i as int),
        decreases program.variables.len() - i,
    {
        assert(program@.variables[i as int] == program.variables@[i as int]@);
        if !program.variables[i].borrow_data_type().is_concrete() {
            return Some(VariableId(i));
        }
        i += 1;
    }
    None
}

/// The problem of a variable whose type is not concrete at the end of
/// the resolution: a type that was never inferred, or a type that still
/// defers to a variable.
pub open spec fn vague_problem(program: ProgramView, id: VariableId) -> ProblemView {
    problem_at(
        if program.variable(id).data_type.scalar() is Automatic {
            ProblemKind::UnresolvedAutoVar
        } else {
            ProblemKind::UnresolvedTemplateParameter
        },
        program.variable(id).definition,
    )
}

/// What the resolution of the scope `scope` leaves: the copy of the
/// scope, and the program at the end.
///
/// The statements of the scope are simplified into the copy, as
/// `scope_simplified` says. Then the calls of the scope that are in
/// three-address form are resolved into the copy, under the table that
/// the simplification has left. At the end every variable that the
/// resolution has made must have a concrete type: the first that has none
/// is the problem.
pub open spec fn scope_resolved(program: ProgramView, scope: ScopeId, fuel: nat) -> Result<
    (ScopeId, ProgramView),
    ProblemView,
> {
    match scope_simplified(program, scope, fuel) {
        Err(problem) => Err(problem),
        Ok((copy, after)) => match calls_resolved(
            Resolving { program: after.program, table: after.table },
            after.program.scope(scope).calls,
            0,
            copy,
            fuel,
        ) {
            Err(problem) => Err(problem),
            Ok(done) => match done.program.first_vague(program.variables.len() as int) {
                Some(id) => Err(vague_problem(done.program, id)),
                None => Ok((copy, done.program)),
            },
        },
    }
}

/// Resolves the scope `scope` into a copy of it, and returns the copy.
///
/// Every statement of the copy, and of every scope that was made on the
/// way, can stand in the residual program, and every variable that was
/// made on the way has a concrete type: none is still to be inferred, and
/// none defers to a variable.
pub fn resolve_scope(program: &mut Program, scope: ScopeId) -> (r: Result<ScopeId, CompileProblem>)
    requires
        old(program)@.wf(),
        old(program)@.has_scope(scope),
    ensures
        final(program)@.wf(),
        final(program)@.extends(old(program)@),
        match scope_resolved(old(program)@, scope, MAX_NESTING as nat) {
            Ok((copy, after)) => r == Ok::<ScopeId, CompileProblem>(copy) && final(program)@
                == after,
            Err(problem) => r is Err && r.unwrap_err()@ == problem,
        },
        r is Ok ==> {
            &&& r.unwrap().0 == old(program)@.scopes.len()
            &&& r.unwrap() != scope
            &&& final(program)@.has_scope(r.unwrap())
            &&& final(program)@.scope(r.unwrap()).parent == old(program)@.scope(scope).parent
            &&& final(program)@.bodies_resolved(old(program)@.scopes.len())
            &&& final(program)@.concrete_from(old(program)@.variables.len() as int)
        },
{
    let first: usize = program.variables.len();
    let (copy, table) = match simplify_scope(program, scope, MAX_NESTING) {
        Ok(simplified) => simplified,
        Err(problem) => {
            return Err(problem);
        },
    };
    let mut resolver = ScopeResolver { table };
    let ghost simplified = program@;
    let resolved = resolver.resolve_body(program, scope, copy, MAX_NESTING);
    proof {
        crate::simplifier::lemma_bodies_stay(simplified, program@);
    }
    match resolved {
        Ok(()) => {},
        Err(problem) => {
            return Err(problem);
        },
    }
    let total: usize = program.variables.len();
    proof {
        lemma_first_vague(program@, first as int);
    }
    match find_vague_variable(program, first) {
        Some(id) => {
            let kind = if matches!(
                program.borrow_variable(id).borrow_data_type().borrow_scalar(),
                DataType::Automatic
            ) {
                ProblemKind::UnresolvedAutoVar
            } else {
                ProblemKind::UnresolvedTemplateParameter
            };
            Err(CompileProblem::new(kind, *program.borrow_variable(id).get_definition()))
        },
        None => Ok(copy),
    }
}

} // verus!
