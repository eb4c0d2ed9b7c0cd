//! Simplification of assignments.

use crate::access::{check_index, Index, rank_of, resolve_index};
use crate::data_type::{biggest_type, DataType};
use crate::expression::{Expr, Expression};
use crate::ids::VariableId;
use crate::known_data::{KnownData, Value};
use crate::position::FilePosition;
use crate::problem::{CompileProblem, problem_in_context, ProblemKind};
use crate::program::{Program, ProgramView};
use crate::simplified::{Content, inflate, SimplifiedExpression};
use crate::simplifier::ScopeSimplifier;
use crate::variable::VariableView;
use vstd::prelude::*;

verus! {

impl Expr {
    /// The variable that an assignment to this expression writes to: the
    /// variable itself, or the base of the base, and so on, of an access.
    pub open spec fn root(self) -> Option<VariableId>
        decreases self,
    {
        match self {
            Expr::Variable(id, _) => Some(id),
            Expr::Access { base, .. } => base.root(),
            _ => None,
        }
    }
}

impl Expression {
    /// The variable that an assignment to this expression writes to.
    pub fn root_variable(&self) -> (r: Option<VariableId>)
        ensures
            r == self@.root(),
        decreases *self,
    {
        match self {
            Expression::Variable(id, _) => Some(*id),
            Expression::Access { base, .. } => base.root_variable(),
            _ => None,
        }
    }
}

/// The integers that the first `count` of `indexes` are, if each is a literal integer.
pub open spec fn literal_indexes(indexes: Seq<Expr>, count: int) -> Option<Seq<i64>>
    decreases count,
{
    if count <= 0 {
        Some(Seq::empty())
    } else {
        match literal_indexes(indexes, count - 1) {
            Some(path) => match indexes[count - 1] {
                Expr::Literal(Value::Int(value), _) => Some(path.push(value)),
                _ => None,
            },
            None => None,
        }
    }
}

/// The variable and the integer indexes of an access to an item of a
/// variable, if the base is a variable and every index is a literal integer.
pub open spec fn literal_path_of(target: Expr) -> Option<(VariableId, Seq<i64>)> {
    match target {
        Expr::Access { base, indexes, .. } => match *base {
            Expr::Variable(id, _) => match literal_indexes(indexes, indexes.len() as int) {
                Some(path) => Some((id, path)),
                None => None,
            },
            _ => None,
        },
        _ => None,
    }
}

/// Once an index is no literal integer, no longer list of indexes is a list of literal integers.
proof fn lemma_literal_indexes_fail(indexes: Seq<Expr>, failed: int, count: int)
    requires
        0 < failed <= count,
        literal_indexes(indexes, failed) is None,
    ensures
        literal_indexes(indexes, count) is None,
    decreases count - failed,
{
    if failed < count {
        lemma_literal_indexes_fail(indexes, failed, count - 1);
    }
}

/// Reads the variable and the integer indexes of an access to an item of a variable.
#[verifier::loop_isolation(false)]
fn literal_path(target: &Expression) -> (r: Option<(VariableId, Vec<i64>)>)
    ensures
        match r {
            Some((id, path)) => literal_path_of(target@) == Some((id, path@)),
            None => literal_path_of(target@) is None,
        },
{
    match target {
        Expression::Access { base, indexes, position } => {
            let id = match &**base {
                Expression::Variable(id, _) => *id,
                _ => {
                    return None;
                },
            };
            assert(target@ == Expr::Access {
                base: Box::new((**base)@),
                indexes: crate::expression::expressions_view(indexes@),
                position: *position,
            });
            let ghost list = target@->Access_indexes;
            let mut path: Vec<i64> = Vec::new();
            let mut i: usize = 0;
            while i < indexes.len()
                invariant
                    i <= indexes.len(),
                    literal_indexes(list, i as int) == Some(path@),
                decreases indexes.len() - i,
            {
                assert(list[i as int] == indexes@[i as int]@);
                match &indexes[i] {
                    Expression::Literal(KnownData::Int(value), _) => {
                        path.push(*value);
                    },
                    _ => {
                        proof {
                            lemma_literal_indexes_fail(list, i + 1, list.len() as int);
                        }
                        return None;
                    },
                }
                i += 1;
            }
            Some((id, path))
        },
        _ => None,
    }
}

impl ProgramView {
    /// The program after `value` was stored in `target` at compile time:
    /// in a variable, or in the item of the known value of a variable that
    /// literal indexes select. `None` where it cannot be stored.
    pub open spec fn stored(self, target: Expr, value: Value) -> Option<ProgramView> {
        match target {
            Expr::Variable(id, _) => if self.has_variable(id) {
                Some(
                    self.with_variable(
                        id,
                        VariableView { temporary_value: value, ..self.variable(id) },
                    ),
                )
            } else {
                None
            },
            _ => match literal_path_of(target) {
                Some((id, path)) => if self.has_variable(id) {
                    match self.variable(id).temporary_value.with_item(path, value) {
                        Some(changed) => Some(
                            self.with_variable(
                                id,
                                VariableView { temporary_value: changed, ..self.variable(id) },
                            ),
                        ),
                        None => None,
                    }
                } else {
                    None
                },
                None => None,
            },
        }
    }

    /// The program after the value of the variable that `target` writes to was forgotten.
    pub open spec fn forgotten(self, target: Expr) -> ProgramView {
        match target.root() {
            Some(id) => if self.has_variable(id) {
                self.with_variable(
                    id,
                    VariableView { temporary_value: Value::Unknown, ..self.variable(id) },
                )
            } else {
                self
            },
            None => self,
        }
    }
}

/// The type that the target has after the assignment of a value of the
/// type `value_type`: a target of automatic type takes the type of the
/// value, any other target keeps its type, to which the type of the value
/// must widen.
pub open spec fn assigned_type(target_type: DataType, value_type: DataType) -> Option<DataType> {
    if target_type is Automatic {
        Some(value_type)
    } else if crate::data_type::spec_biggest_type(target_type, value_type) == Some(target_type) {
        Some(target_type)
    } else {
        None
    }
}

/// What an assignment simplifies to, and the program that it leaves,
/// given what its two sides simplified to.
///
/// A target of automatic type must be a variable, which takes the type of
/// the value for good. A known value is widened to the type of the target
/// and stored at compile time where that can be done; nothing is left
/// then. Else the assignment is left for run time, with the value as a
/// literal, which it must be fit for, or as the code that was left of it,
/// widened; the value of the variable that is written to counts as
/// unknown from then on.
pub open spec fn assignment_outcome(
    program: ProgramView,
    target: Expr,
    target_type: DataType,
    target_position: FilePosition,
    value: crate::simplified::SimplifiedView,
    value_position: FilePosition,
    position: FilePosition,
) -> (Result<crate::simplified::SimplifiedView, crate::problem::ProblemView>, ProgramView) {
    if target_type is Automatic && !(target is Variable) {
        (Err(crate::binary::problem_at(ProblemKind::UnresolvedAutoVar, target_position)), program)
    } else if target_type is Automatic && !program.has_variable(target->Variable_0) {
        (Err(crate::binary::problem_at(ProblemKind::UnknownId, position)), program)
    } else {
        match assigned_type(target_type, value.data_type) {
            None => (
                Err(
                    crate::problem::ProblemView {
                        kind: ProblemKind::MismatchedAssign,
                        descriptors: seq![
                            crate::problem::error_at(position),
                            crate::problem::hint_at(value_position),
                            crate::problem::hint_at(target_position),
                        ],
                    },
                ),
                program,
            ),
            Some(final_type) => {
                let typed = if target_type is Automatic {
                    program.with_variable(
                        target->Variable_0,
                        VariableView {
                            data_type: final_type,
                            ..program.variable(target->Variable_0)
                        },
                    )
                } else {
                    program
                };
                match value.content {
                    crate::simplified::ContentView::Interpreted(known) => {
                        let widened = known.widened(final_type);
                        match typed.stored(target, widened) {
                            Some(after) => (Ok(crate::simplified::SimplifiedView::nothing()), after),
                            None => if !widened.run_time() {
                                (
                                    Err(
                                        crate::binary::problem_at(
                                            ProblemKind::ValueNotRunTimeCompatible,
                                            value_position,
                                        ),
                                    ),
                                    typed,
                                )
                            } else {
                                (
                                    Ok(
                                        crate::simplified::SimplifiedView {
                                            content: crate::simplified::ContentView::Modified(
                                                Expr::Assign {
                                                    target: Box::new(target),
                                                    value: Box::new(
                                                        Expr::Literal(widened, value_position),
                                                    ),
                                                    position,
                                                },
                                            ),
                                            data_type: DataType::Void,
                                        },
                                    ),
                                    typed.forgotten(target),
                                )
                            },
                        }
                    },
                    crate::simplified::ContentView::Modified(expression) => (
                        Ok(
                            crate::simplified::SimplifiedView {
                                content: crate::simplified::ContentView::Modified(
                                    Expr::Assign {
                                        target: Box::new(target),
                                        value: Box::new(
                                            crate::simplified::inflated(
                                                expression,
                                                value.data_type,
                                                final_type,
                                            ),
                                        ),
                                        position,
                                    },
                                ),
                                data_type: DataType::Void,
                            },
                        ),
                        typed.forgotten(target),
                    ),
                }
            },
        }
    }
}

/// A value whose type does not widen to the type of the target is
/// refused, with the places of the statement, of the value and of the
/// target, and the program stays as it is: the target keeps its type and
/// its value.
pub proof fn lemma_mismatch_changes_nothing(
    program: ProgramView,
    target: Expr,
    target_type: DataType,
    target_position: FilePosition,
    value: crate::simplified::SimplifiedView,
    value_position: FilePosition,
    position: FilePosition,
)
    requires
        assigned_type(target_type, value.data_type) is None,
    ensures
        assignment_outcome(
            program,
            target,
            target_type,
            target_position,
            value,
            value_position,
            position,
        ) == (
            Err::<crate::simplified::SimplifiedView, crate::problem::ProblemView>(
                crate::problem::ProblemView {
                    kind: ProblemKind::MismatchedAssign,
                    descriptors: seq![
                        crate::problem::error_at(position),
                        crate::problem::hint_at(value_position),
                        crate::problem::hint_at(target_position),
                    ],
                },
            ),
            program,
        ),
{
}

/// A value that is not known is assigned at run time: where the
/// assignment of code simplifies at all, an assignment of that code,
/// widened to the type of the target, is left, and the value of the
/// variable that is written to is not known from then on.
pub proof fn lemma_unknown_value_is_assigned_at_run_time(
    program: ProgramView,
    target: Expr,
    target_type: DataType,
    target_position: FilePosition,
    value: crate::simplified::SimplifiedView,
    value_position: FilePosition,
    position: FilePosition,
)
    requires
        value.content is Modified,
        assignment_outcome(
            program,
            target,
            target_type,
            target_position,
            value,
            value_position,
            position,
        ).0 is Ok,
    ensures
        ({
            let (result, after) = assignment_outcome(
                program,
                target,
                target_type,
                target_position,
                value,
                value_position,
                position,
            );
            let final_type = assigned_type(target_type, value.data_type).unwrap();
            &&& result == Ok::<crate::simplified::SimplifiedView, crate::problem::ProblemView>(
                crate::simplified::SimplifiedView {
                    content: crate::simplified::ContentView::Modified(
                        Expr::Assign {
                            target: Box::new(target),
                            value: Box::new(
                                crate::simplified::inflated(
                                    value.content->Modified_0,
                                    value.data_type,
                                    final_type,
                                ),
                            ),
                            position,
                        },
                    ),
                    data_type: DataType::Void,
                },
            )
            &&& target.root() is Some && program.has_variable(target.root().unwrap())
                ==> after.variable(target.root().unwrap()).temporary_value == Value::Unknown
        }),
{
}

/// Forgets the value of the variable that an assignment to `target` writes to.
pub fn assign_unknown_to_expression(program: &mut Program, target: &Expression)
    ensures
        final(program)@ == old(program)@.forgotten(target@),
        old(program)@.wf() ==> final(program)@.wf(),
        final(program)@.extends(old(program)@),
        final(program)@.variables.len() == old(program)@.variables.len(),
{
    match target.root_variable() {
        Some(id) => {
            if program.has_variable(id) {
                program.set_temporary_value(id, KnownData::Unknown);
            }
        },
        None => {},
    }
}

/// Carries out at compile time the assignment of a known value, where
/// the target is a variable, or an item of a variable whose value is
/// known, selected by known indexes. The result says whether it was
/// carried out; where it was not, the program is as it was.
pub fn assign_value_to_expression(program: &mut Program, target: &Expression, value: &KnownData) -> (done:
    bool)
    ensures
        match old(program)@.stored(target@, value@) {
            Some(after) => done && final(program)@ == after,
            None => !done && final(program)@ == old(program)@,
        },
        old(program)@.wf() ==> final(program)@.wf(),
        final(program)@.extends(old(program)@),
        final(program)@.variables.len() == old(program)@.variables.len(),
{
    match target {
        Expression::Variable(id, _) => {
            if program.has_variable(*id) {
                program.set_temporary_value(*id, value.clone());
                true
            } else {
                false
            }
        },
        _ => {
            match literal_path(target) {
                Some((id, path)) => {
                    if program.has_variable(id) {
                        program.set_temporary_item(id, &path, value.clone())
                    } else {
                        false
                    }
                },
                None => false,
            }
        },
    }
}

/// Simplifies an assignment whose two sides are simplified already.
pub fn simplify_assignment(
    program: &mut Program,
    target_expression: Expression,
    target_type: DataType,
    target_position: FilePosition,
    simplified_value: SimplifiedExpression,
    value_position: FilePosition,
    position: FilePosition,
) -> (r: Result<SimplifiedExpression, CompileProblem>)
    ensures
        (crate::binary::outcome_view(r), final(program)@) == assignment_outcome(
            old(program)@,
            target_expression@,
            target_type,
            target_position,
            simplified_value@,
            value_position,
            position,
        ),
        old(program)@.wf() ==> final(program)@.wf(),
        final(program)@.extends(old(program)@),
        final(program)@.variables.len() == old(program)@.variables.len(),
        r is Ok ==> r.unwrap().data_type is Void,
        r is Ok && target_expression@.resolved() && simplified_value@.residual_resolved()
            ==> r.unwrap()@.residual_resolved(),
{
    let SimplifiedExpression { content, data_type: value_type } = simplified_value;
    let final_type = if target_type.is_automatic() {
        match &target_expression {
            Expression::Variable(id, _) => {
                if !program.has_variable(*id) {
                    return Err(CompileProblem::new(ProblemKind::UnknownId, position));
                }
                program.set_data_type(*id, value_type.clone());
            },
            _ => {
                return Err(CompileProblem::new(ProblemKind::UnresolvedAutoVar, target_position));
            },
        }
        value_type.clone()
    } else {
        let fits = match biggest_type(&target_type, &value_type) {
            Some(common) => common.equals(&target_type),
            None => false,
        };
        if !fits {
            let mut problem = CompileProblem::new(ProblemKind::MismatchedAssign, position);
            problem.add_hint(value_position);
            problem.add_hint(target_position);
            assert(problem@.descriptors =~= seq![
                crate::problem::error_at(position),
                crate::problem::hint_at(value_position),
                crate::problem::hint_at(target_position),
            ]);
            return Err(problem);
        }
        target_type
    };
    let value_expression = match content {
        Content::Interpreted(known) => {
            let widened = known.widen(&final_type);
            if assign_value_to_expression(program, &target_expression, &widened) {
                return Ok(
                    SimplifiedExpression {
                        content: Content::Interpreted(KnownData::Void),
                        data_type: DataType::Void,
                    },
                );
            }
            if !widened.is_run_time_compatible() {
                return Err(
                    CompileProblem::new(ProblemKind::ValueNotRunTimeCompatible, value_position),
                );
            }
            let literal = Expression::Literal(widened, value_position);
            assert(literal@ == Expr::Literal(widened@, value_position));
            assert(literal@.resolved());
            literal
        },
        Content::Modified(expression) => {
            let inflated = inflate(expression, &value_type, &final_type);
            assert(inflated@.resolved() == expression@.resolved());
            inflated
        },
    };
    assign_unknown_to_expression(program, &target_expression);
    let assignment = Expression::Assign {
        target: Box::new(target_expression),
        value: Box::new(value_expression),
        position,
    };
    assert(assignment@ == Expr::Assign {
        target: Box::new(target_expression@),
        value: Box::new(value_expression@),
        position,
    });
    assert(assignment@.resolved() == (target_expression@.resolved() && value_expression@.resolved()));
    Ok(SimplifiedExpression { content: Content::Modified(assignment), data_type: DataType::Void })
}

/// What an assignment to the variable `id` writes to, and its type.
///
/// A parameter that stands for an expression gives that expression, with
/// the type that it had when it was put in the parameter's place, or,
/// where it is a variable of the program, with the type that the
/// variable has now. Any other variable is converted, and has its own type.
pub open spec fn target_outcome(
    program: ProgramView,
    frame: crate::table::FrameView,
    id: VariableId,
    position: FilePosition,
) -> Result<(Expr, DataType), crate::problem::ProblemView> {
    if frame.substitutions.contains_key(id) {
        let (expression, data_type) = frame.substitutions[id];
        match expression {
            Expr::Variable(target, _) => if program.has_variable(target) {
                Ok((expression, program.variable(target).data_type))
            } else {
                Ok((expression, data_type))
            },
            _ => Ok((expression, data_type)),
        }
    } else {
        let target = frame.convert(id);
        if program.has_variable(target) {
            Ok((Expr::Variable(target, position), program.variable(target).data_type))
        } else {
            Err(crate::binary::problem_at(ProblemKind::UnknownId, position))
        }
    }
}

/// What a result of the simplification of a target is, mathematically.
pub open spec fn target_view(r: Result<(Expression, DataType), CompileProblem>) -> Result<
    (Expr, DataType),
    crate::problem::ProblemView,
> {
    match r {
        Ok((expression, data_type)) => Ok((expression@, data_type)),
        Err(problem) => Err(problem@),
    }
}

impl Expr {
    /// Whether simplifying the expression as the target of an assignment
    /// changes nothing: in an access, each index is made of literals,
    /// variables, accesses and binary operations alone.
    pub open spec fn pure_target(self) -> bool {
        match self {
            Expr::Access { indexes, .. } => forall|i: int|
                0 <= i < indexes.len() ==> (#[trigger] indexes[i]).pure(),
            _ => true,
        }
    }
}

/// What the first `count` indexes of the target of an assignment become,
/// or the problem of the first that has one: each index is simplified as
/// an operand and must be in order as an index, before the next is looked at.
pub open spec fn target_indexes(
    program: ProgramView,
    frame: crate::table::FrameView,
    indexes: Seq<Expr>,
    count: int,
    context: FilePosition,
) -> Result<Seq<Expr>, crate::problem::ProblemView>
    decreases count,
{
    if count <= 0 || count > indexes.len() {
        Ok(Seq::empty())
    } else {
        match target_indexes(program, frame, indexes, count - 1, context) {
            Err(problem) => Err(problem),
            Ok(list) => match crate::calls::as_operand(
                crate::calls::pure_outcome(program, frame, indexes[count - 1]),
                indexes[count - 1].position(),
            ) {
                Err(problem) => Err(problem),
                Ok(simplified) => match crate::access::index_fault(simplified) {
                    Some(kind) => Err(
                        crate::access::problem_within(
                            kind,
                            indexes[count - 1].position(),
                            context,
                        ),
                    ),
                    None => Ok(
                        list.push(
                            crate::access::index_expression(
                                (simplified, indexes[count - 1].position()),
                            ),
                        ),
                    ),
                },
            },
        }
    }
}

/// What the target of an assignment simplifies to, and its type.
///
/// A variable is resolved as `target_outcome` says. An access must be an
/// access to a variable, whose type must be known and have as many array
/// layers as there are indexes; its indexes are simplified. Nothing else
/// can be assigned to.
pub open spec fn pure_target_outcome(
    program: ProgramView,
    frame: crate::table::FrameView,
    target: Expr,
) -> Result<(Expr, DataType), crate::problem::ProblemView> {
    match target {
        Expr::Variable(id, position) => target_outcome(program, frame, id, position),
        Expr::Access { base, indexes, position } => match *base {
            Expr::Variable(id, base_position) => match target_outcome(
                program,
                frame,
                id,
                base_position,
            ) {
                Err(problem) => Err(problem),
                Ok((base_expression, base_type)) => if base_type is Automatic {
                    Err(crate::binary::problem_at(ProblemKind::UnresolvedAutoVar, base_position))
                } else if indexes.len() > base_type.rank() {
                    Err(
                        crate::access::problem_within(
                            ProblemKind::TooManyIndexes {
                                provided: indexes.len() as usize,
                                available: base_type.rank() as usize,
                            },
                            position,
                            base_position,
                        ),
                    )
                } else {
                    match target_indexes(
                        program,
                        frame,
                        indexes,
                        indexes.len() as int,
                        base_position,
                    ) {
                        Err(problem) => Err(problem),
                        Ok(list) => Ok(
                            (
                                Expr::Access {
                                    base: Box::new(base_expression),
                                    indexes: list,
                                    position,
                                },
                                base_type.unwrapped(indexes.len()),
                            ),
                        ),
                    }
                },
            },
            other => Err(crate::binary::problem_at(ProblemKind::NotAssignable, other.position())),
        },
        other => Err(crate::binary::problem_at(ProblemKind::NotAssignable, other.position())),
    }
}

/// Once the first indexes of a target have a problem, every longer list has that problem.
pub proof fn lemma_target_indexes_fail(
    program: ProgramView,
    frame: crate::table::FrameView,
    indexes: Seq<Expr>,
    failed: int,
    count: int,
    context: FilePosition,
)
    requires
        0 < failed <= count <= indexes.len(),
        target_indexes(program, frame, indexes, failed, context) is Err,
    ensures
        target_indexes(program, frame, indexes, count, context) == target_indexes(
            program,
            frame,
            indexes,
            failed,
            context,
        ),
    decreases count - failed,
{
    if failed < count {
        lemma_target_indexes_fail(program, frame, indexes, failed, count - 1, context);
    }
}

/// What `target = value;` simplifies to, and the program that it leaves,
/// where simplifying the target and the value changes nothing: the target
/// is simplified first, then the value, then the two are put together.
pub open spec fn pure_assignment_outcome(
    program: ProgramView,
    frame: crate::table::FrameView,
    target: Expr,
    value: Expr,
    position: FilePosition,
) -> (Result<crate::simplified::SimplifiedView, crate::problem::ProblemView>, ProgramView) {
    match pure_target_outcome(program, frame, target) {
        Err(problem) => (Err(problem), program),
        Ok((target_expression, target_type)) => match crate::calls::as_operand(
            crate::calls::pure_outcome(program, frame, value),
            value.position(),
        ) {
            Err(problem) => (Err(problem), program),
            Ok(simplified) => assignment_outcome(
                program,
                target_expression,
                target_type,
                target.position(),
                simplified,
                value.position(),
                position,
            ),
        },
    }
}

impl ScopeSimplifier {
    /// What an assignment to the variable `id` writes to, and its type: the
    /// expression that the parameter `id` stands for, or the variable that
    /// `id` is converted to.
    pub fn resolve_target_variable(&self, program: &Program, id: VariableId, position: FilePosition) -> (r:
        Result<(Expression, DataType), CompileProblem>)
        requires
            self.valid_for(program@),
        ensures
            r is Ok ==> r.unwrap().0@.resolved(),
            target_view(r) == target_outcome(program@, self.table@.current, id, position),
    {
        match self.table.substitution(id) {
            Some((expression, data_type)) => {
                match &expression {
                    Expression::Variable(target, _) => {
                        if program.has_variable(*target) {
                            let declared = program.borrow_variable(*target).borrow_data_type().clone();
                            return Ok((expression, declared));
                        }
                    },
                    _ => {},
                }
                Ok((expression, data_type))
            },
            None => {
                let target = self.table.convert(id);
                if !program.has_variable(target) {
                    return Err(CompileProblem::new(ProblemKind::UnknownId, position));
                }
                let declared = program.borrow_variable(target).borrow_data_type().clone();
                Ok((Expression::Variable(target, position), declared))
            },
        }
    }

    /// Simplifies the left side of an assignment: a variable, or an access
    /// to a variable. The indexes are simplified; the base is only converted.
    #[verifier::loop_isolation(false)]
    pub fn simplify_assignment_access_expression(
        &mut self,
        program: &mut Program,
        target: &Expression,
        fuel: usize,
    ) -> (r: Result<(Expression, DataType), CompileProblem>)
        requires
            old(self).valid_for(old(program)@),
        ensures
            final(self).stepped(old(self), final(program)@, old(program)@),
            r is Ok ==> r.unwrap().0@.resolved(),
            match crate::semantics::target(old(self).pass(old(program)@), target@, fuel as nat) {
                Ok((resolved, after)) => target_view(r) == Ok::<
                    (Expr, DataType),
                    crate::problem::ProblemView,
                >(resolved) && final(self).pass(final(program)@) == after,
                Err(problem) => r is Err && r.unwrap_err()@ == problem,
            },
        decreases fuel, *target, 1int,
    {
        let ghost start = self.pass(program@);
        match target {
            Expression::Variable(id, position) => self.resolve_target_variable(
                program,
                *id,
                *position,
            ),
            Expression::Access { base, indexes, position } => {
                let (base_expression, base_type) = match &**base {
                    Expression::Variable(id, base_position) => {
                        match self.resolve_target_variable(program, *id, *base_position) {
                            Ok(resolved) => resolved,
                            Err(problem) => {
                                return Err(problem);
                            },
                        }
                    },
                    other => {
                        return Err(
                            CompileProblem::new(ProblemKind::NotAssignable, other.clone_position()),
                        );
                    },
                };
                if base_type.is_automatic() {
                    return Err(
                        CompileProblem::new(ProblemKind::UnresolvedAutoVar, base.clone_position()),
                    );
                }
                let rank: usize = rank_of(&base_type);
                if indexes.len() > rank {
                    return Err(
                        problem_in_context(
                            ProblemKind::TooManyIndexes {
                                provided: indexes.len(),
                                available: rank,
                            },
                            *position,
                            base.clone_position(),
                        ),
                    );
                }
                assert(target@ == Expr::Access {
                    base: Box::new((**base)@),
                    indexes: crate::expression::expressions_view(indexes@),
                    position: *position,
                });
                let ghost list = target@->Access_indexes;
                let ghost context = base@.position();
                let mut new_indexes: Vec<Expression> = Vec::new();
                assert(crate::expression::expressions_view(new_indexes@) =~= Seq::empty());
                let mut i: usize = 0;
                while i < indexes.len()
                    invariant
                        i <= indexes.len(),
                        self.stepped(old(self), program@, old(program)@),
                        forall|k: int|
                            0 <= k < new_indexes@.len() ==> (#[trigger] new_indexes@[k])@.resolved(),
                        crate::semantics::target_index_list(
                            start,
                            list,
                            i as int,
                            context,
                            fuel as nat,
                        ) == Ok::<(Seq<Expr>, crate::semantics::Pass), crate::problem::ProblemView>(
                            (crate::expression::expressions_view(new_indexes@), self.pass(program@)),
                        ),
                    decreases indexes.len() - i,
                {
                    assert(list[i as int] == indexes@[i as int]@);
                    let simplified = match self.simplify_operand(program, &indexes[i], fuel) {
                        Ok(simplified) => simplified,
                        Err(problem) => {
                            proof {
                                crate::semantics::lemma_target_index_list_fail(
                                    start,
                                    list,
                                    i as int + 1,
                                    list.len() as int,
                                    context,
                                    fuel as nat,
                                );
                            }
                            return Err(problem);
                        },
                    };
                    let index_position = (&indexes[i]).clone_position();
                    match check_index(&simplified) {
                        Some(kind) => {
                            proof {
                                crate::semantics::lemma_target_index_list_fail(
                                    start,
                                    list,
                                    i as int + 1,
                                    list.len() as int,
                                    context,
                                    fuel as nat,
                                );
                            }
                            return Err(
                                problem_in_context(kind, index_position, base.clone_position()),
                            );
                        },
                        None => {},
                    }
                    let index: Index = (simplified, index_position);
                    proof {
                        crate::access::lemma_index_expression_resolved((index.0@, index.1));
                    }
                    let ghost before = crate::expression::expressions_view(new_indexes@);
                    let expression = resolve_index(&index);
                    new_indexes.push(expression);
                    assert(crate::expression::expressions_view(new_indexes@) =~= before.push(
                        expression@,
                    ));
                    i += 1;
                }
                let data_type = base_type.clone_and_unwrap(indexes.len());
                let access = Expression::Access {
                    base: Box::new(base_expression),
                    indexes: new_indexes,
                    position: *position,
                };
                proof {
                    let view = crate::expression::expressions_view(new_indexes@);
                    assert forall|k: int| 0 <= k < view.len() implies (#[trigger] view[k]).resolved() by {
                        assert(view[k] == new_indexes@[k]@);
                    }
                }
                Ok((access, data_type))
            },
            other => Err(CompileProblem::new(ProblemKind::NotAssignable, other.clone_position())),
        }
    }

    /// Simplifies `target = value;`.
    ///
    /// The type of the value must widen to the type of the target; a
    /// target of automatic type takes the type of the value for good. A
    /// known value is assigned at compile time where that can be done, and
    /// nothing is left. Else an assignment is left for run time, and the
    /// value of the target counts as unknown from here on.
    ///
    /// Where the two sides do not fit together, the program is what the
    /// simplification of the two sides has left: a value of another type
    /// changes neither the type nor the value of the target.
    pub fn simplify_assign_statement(&mut self, program: &mut Program, statement: &Expression, fuel: usize) -> (r:
        Result<SimplifiedExpression, CompileProblem>)
        requires
            old(self).valid_for(old(program)@),
        ensures
            final(self).stepped(old(self), final(program)@, old(program)@),
            r is Ok ==> r.unwrap()@.residual_resolved(),
            r is Ok ==> r.unwrap().data_type is Void,
            crate::calls::follows(
                r,
                final(self).pass(final(program)@),
                crate::semantics::assigned(old(self).pass(old(program)@), statement@, fuel as nat),
            ),
            match crate::semantics::assigned_program(
                old(self).pass(old(program)@),
                statement@,
                fuel as nat,
            ) {
                Some(after) => final(program)@ == after,
                None => r is Err,
            },
        decreases fuel, *statement, 0int,
    {
        let (target, value, position) = match statement {
            Expression::Assign { target, value, position } => (target, value, *position),
            other => {
                return Err(
                    CompileProblem::new(ProblemKind::UnexpectedExpression, other.clone_position()),
                );
            },
        };
        let (target_expression, target_type) = match self.simplify_assignment_access_expression(
            program,
            target,
            fuel,
        ) {
            Ok(resolved) => resolved,
            Err(problem) => {
                return Err(problem);
            },
        };
        let simplified_value = match self.simplify_operand(program, value, fuel) {
            Ok(simplified) => simplified,
            Err(problem) => {
                return Err(problem);
            },
        };
        simplify_assignment(
            program,
            target_expression,
            target_type,
            target.clone_position(),
            simplified_value,
            value.clone_position(),
            position,
        )
    }
}

} // verus!
