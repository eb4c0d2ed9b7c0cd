//! Simplification of whole expressions: operands first, left before right,
//! then the node itself. Calls are instantiated and their bodies simplified
//! in place.

use crate::access::{access_outcome, Index, indexes_view, simplify_access_expression};
use crate::binary::{binary_outcome, problem_at, simplify_binary_expression};
use crate::data_type::DataType;
use crate::expression::{Expr, Expression};
use crate::known_data::Value;
use crate::position::FilePosition;
use crate::problem::{CompileProblem, ProblemKind, ProblemView};
use crate::program::{Program, ProgramView};
use crate::semantics::{lemma_operands_fail, operand, operands, Pass, simplified};
use crate::simplified::{Content, ContentView, SimplifiedExpression, SimplifiedView};
use crate::simplifier::{ScopeSimplifier, variable_outcome};
use crate::table::FrameView;
use vstd::prelude::*;

verus! {

/// The deepest nesting of calls that `resolve_scope` follows.
pub const MAX_NESTING: usize = 256;

impl Expr {
    /// Whether simplifying the expression changes nothing: it is made of
    /// literals, variables, accesses and binary operations alone.
    pub open spec fn pure(self) -> bool
        decreases self,
    {
        match self {
            Expr::Literal(_, _) => true,
            Expr::Variable(_, _) => true,
            Expr::Access { base, indexes, .. } => {
                &&& base.pure()
                &&& forall|i: int| 0 <= i < indexes.len() ==> (#[trigger] indexes[i]).pure()
            },
            Expr::BinaryOperation(left, _, right, _) => left.pure() && right.pure(),
            _ => false,
        }
    }
}

/// Whether simplifying the expressions of the list changes nothing.
pub open spec fn all_pure(list: Seq<Expr>) -> bool {
    forall|i: int| 0 <= i < list.len() ==> (#[trigger] list[i]).pure()
}

/// What a literal simplifies to: its value, which must have a data type.
pub open spec fn literal_outcome(value: Value, position: FilePosition) -> Result<
    SimplifiedView,
    ProblemView,
> {
    match value.data_type() {
        Some(data_type) => Ok(
            SimplifiedView { content: ContentView::Interpreted(value), data_type },
        ),
        None => Err(problem_at(ProblemKind::UntypedLiteral, position)),
    }
}

/// What is required of an operand beyond its own simplification: it has a value.
pub open spec fn as_operand(
    outcome: Result<SimplifiedView, ProblemView>,
    position: FilePosition,
) -> Result<SimplifiedView, ProblemView> {
    match outcome {
        Ok(simplified) => if simplified.data_type is Void {
            Err(problem_at(ProblemKind::InvalidOperands, position))
        } else {
            Ok(simplified)
        },
        Err(problem) => Err(problem),
    }
}

/// What the first `count` indexes of an access simplify to, each with its
/// position, or the problem of the first that has one.
pub open spec fn pure_indexes(
    program: ProgramView,
    frame: FrameView,
    indexes: Seq<Expr>,
    count: int,
) -> Result<Seq<(SimplifiedView, FilePosition)>, ProblemView>
    decreases indexes, count,
{
    if count <= 0 || count > indexes.len() {
        Ok(Seq::empty())
    } else {
        match pure_indexes(program, frame, indexes, count - 1) {
            Err(problem) => Err(problem),
            Ok(list) => match as_operand(
                pure_outcome(program, frame, indexes[count - 1]),
                indexes[count - 1].position(),
            ) {
                Err(problem) => Err(problem),
                Ok(simplified) => Ok(list.push((simplified, indexes[count - 1].position()))),
            },
        }
    }
}

/// What an expression made of literals, variables, accesses and binary
/// operations simplifies to in a program, under a table: operands before
/// the node that combines them, left before right, and the first problem
/// ends it.
pub open spec fn pure_outcome(program: ProgramView, frame: FrameView, expression: Expr) -> Result<
    SimplifiedView,
    ProblemView,
>
    decreases expression,
{
    match expression {
        Expr::Literal(value, position) => literal_outcome(value, position),
        Expr::Variable(id, position) => variable_outcome(program, frame, id, position),
        Expr::Access { base, indexes, position } => match as_operand(
            pure_outcome(program, frame, *base),
            base.position(),
        ) {
            Err(problem) => Err(problem),
            Ok(simplified_base) => match pure_indexes(program, frame, indexes, indexes.len() as int) {
                Err(problem) => Err(problem),
                Ok(simplified_indexes) => access_outcome(
                    simplified_base,
                    base.position(),
                    simplified_indexes,
                    position,
                ),
            },
        },
        Expr::BinaryOperation(left, operator, right, position) => match as_operand(
            pure_outcome(program, frame, *left),
            left.position(),
        ) {
            Err(problem) => Err(problem),
            Ok(first) => match as_operand(pure_outcome(program, frame, *right), right.position()) {
                Err(problem) => Err(problem),
                Ok(second) => binary_outcome(
                    first,
                    left.position(),
                    operator,
                    second,
                    right.position(),
                    position,
                ),
            },
        },
        _ => Err(problem_at(ProblemKind::UnexpectedExpression, expression.position())),
    }
}

/// Whether a result and the state that it was reached in are what the
/// semantics give.
pub open spec fn follows(
    r: Result<SimplifiedExpression, CompileProblem>,
    reached: crate::semantics::Pass,
    expected: Result<(SimplifiedView, crate::semantics::Pass), ProblemView>,
) -> bool {
    match expected {
        Ok((outcome, after)) => r is Ok && r.unwrap()@ == outcome && reached == after,
        Err(problem) => r is Err && r.unwrap_err()@ == problem,
    }
}

impl ScopeSimplifier {
    /// What holds after every step of a pass: the state still fits the
    /// program, the program holds what it held, only statements of the
    /// residual program were added to it, and the table and the current
    /// scope are what they were.
    pub open spec fn stepped(
        &self,
        before: &ScopeSimplifier,
        program: ProgramView,
        program_before: ProgramView,
    ) -> bool {
        &&& self.valid_for(program)
        &&& program.extends(program_before)
        &&& program.keeps_bodies_resolved(program_before)
        &&& self.table@ == before.table@
        &&& self.current_scope == before.current_scope
    }

    /// Simplifies an expression that stands where a value is needed. A call
    /// there must hand its value back through an inline return.
    pub fn simplify_operand(&mut self, program: &mut Program, expression: &Expression, fuel: usize) -> (r:
        Result<SimplifiedExpression, CompileProblem>)
        requires
            old(self).valid_for(old(program)@),
        ensures
            final(self).stepped(old(self), final(program)@, old(program)@),
            r is Ok ==> r.unwrap()@.residual_resolved(),
            r is Ok ==> !(r.unwrap().data_type is Void),
            follows(
                r,
                final(self).pass(final(program)@),
                operand(old(self).pass(old(program)@), expression@, fuel as nat),
            ),
            expression@.pure() ==> final(program)@ == old(program)@,
        decreases fuel, *expression, 3int,
    {
        let simplified = match self.simplify_expression(program, expression, fuel) {
            Ok(simplified) => simplified,
            Err(problem) => {
                return Err(problem);
            },
        };
        if matches!(simplified.data_type, DataType::Void) {
            let kind = if matches!(expression, Expression::FuncCall { .. }) {
                ProblemKind::MissingInlineReturn
            } else {
                ProblemKind::InvalidOperands
            };
            return Err(CompileProblem::new(kind, expression.clone_position()));
        }
        Ok(simplified)
    }

    /// Simplifies an expression or a statement.
    ///
    /// `fuel` bounds the nesting of calls: each call spends one unit on the
    /// statements of the body that it instantiates.
    pub fn simplify_expression(&mut self, program: &mut Program, expression: &Expression, fuel: usize) -> (r:
        Result<SimplifiedExpression, CompileProblem>)
        requires
            old(self).valid_for(old(program)@),
        ensures
            final(self).stepped(old(self), final(program)@, old(program)@),
            r is Ok ==> r.unwrap()@.residual_resolved(),
            follows(
                r,
                final(self).pass(final(program)@),
                simplified(old(self).pass(old(program)@), expression@, fuel as nat),
            ),
            expression@.pure() ==> final(program)@ == old(program)@,
        decreases fuel, *expression, 2int,
    {
        match expression {
            Expression::Literal(data, position) => {
                match data.get_data_type() {
                    Some(data_type) => Ok(
                        SimplifiedExpression { content: Content::Interpreted(data.clone()), data_type },
                    ),
                    None => Err(CompileProblem::new(ProblemKind::UntypedLiteral, *position)),
                }
            },
            Expression::Variable(id, position) => self.simplify_variable(program, *id, *position),
            Expression::Access { .. } => self.simplify_access(program, expression, fuel),
            Expression::BinaryOperation(..) => self.simplify_binary(program, expression, fuel),
            Expression::Assign { .. } => self.simplify_assign_statement(program, expression, fuel),
            Expression::Return(position) => Ok(
                SimplifiedExpression {
                    content: Content::Modified(Expression::Return(*position)),
                    data_type: DataType::Void,
                },
            ),
            Expression::FuncCall { .. } => self.simplify_func_call(program, expression, fuel),
            Expression::InlineReturn(position) => Err(
                CompileProblem::new(ProblemKind::UnexpectedExpression, *position),
            ),
            Expression::Inflate { position, .. } => Err(
                CompileProblem::new(ProblemKind::UnexpectedExpression, *position),
            ),
            Expression::Call { position, .. } => Err(
                CompileProblem::new(ProblemKind::UnexpectedExpression, *position),
            ),
        }
    }

    /// Simplifies the operands of a list in their order.
    pub fn simplify_operands(&mut self, program: &mut Program, list: &Vec<Expression>, fuel: usize) -> (r:
        Result<Vec<Index>, CompileProblem>)
        requires
            old(self).valid_for(old(program)@),
        ensures
            final(self).stepped(old(self), final(program)@, old(program)@),
            r is Ok ==> forall|k: int|
                0 <= k < r.unwrap()@.len() ==> (#[trigger] r.unwrap()@[k]).0@.residual_resolved(),
            r is Ok ==> r.unwrap()@.len() == list@.len(),
            match operands(
                old(self).pass(old(program)@),
                crate::expression::expressions_view(list@),
                list@.len() as int,
                fuel as nat,
            ) {
                Ok((outcomes, after)) => r is Ok && indexes_view(r.unwrap()@) == outcomes && final(self).pass(final(program)@) == after,
                Err(problem) => r is Err && r.unwrap_err()@ == problem,
            },
            all_pure(crate::expression::expressions_view(list@)) ==> final(program)@ == old(
                program,
            )@,
        decreases fuel, *list, 0int,
    {
        let ghost start = self.pass(program@);
        let ghost views = crate::expression::expressions_view(list@);
        let mut outcomes: Vec<Index> = Vec::new();
        assert(indexes_view(outcomes@) =~= Seq::empty());
        let mut i: usize = 0;
        while i < list.len()
            invariant
                i <= list.len(),
                outcomes@.len() == i,
                views == crate::expression::expressions_view(list@),
                start == old(self).pass(old(program)@),
                self.stepped(old(self), program@, old(program)@),
                all_pure(views) ==> program@ == old(program)@,
                forall|k: int|
                    0 <= k < outcomes@.len() ==> (#[trigger] outcomes@[k]).0@.residual_resolved(),
                operands(start, views, i as int, fuel as nat) == Ok::<
                    (Seq<(SimplifiedView, FilePosition)>, Pass),
                    ProblemView,
                >((indexes_view(outcomes@), self.pass(program@))),
            decreases list.len() - i,
        {
            assert(views[i as int] == list@[i as int]@);
            let simplified = match self.simplify_operand(program, &list[i], fuel) {
                Ok(simplified) => simplified,
                Err(problem) => {
                    proof {
                        lemma_operands_fail(
                            start,
                            views,
                            i as int + 1,
                            list@.len() as int,
                            fuel as nat,
                        );
                    }
                    return Err(problem);
                },
            };
            let ghost before = indexes_view(outcomes@);
            outcomes.push((simplified, (&list[i]).clone_position()));
            assert(indexes_view(outcomes@) =~= before.push(
                (simplified@, list@[i as int]@.position()),
            ));
            i += 1;
        }
        Ok(outcomes)
    }

    /// Simplifies an access: the base, then the indexes in their order,
    /// then the access to what they simplified to.
    pub fn simplify_access(&mut self, program: &mut Program, expression: &Expression, fuel: usize) -> (r:
        Result<SimplifiedExpression, CompileProblem>)
        requires
            old(self).valid_for(old(program)@),
            *expression is Access,
        ensures
            final(self).stepped(old(self), final(program)@, old(program)@),
            r is Ok ==> r.unwrap()@.residual_resolved(),
            follows(
                r,
                final(self).pass(final(program)@),
                simplified(old(self).pass(old(program)@), expression@, fuel as nat),
            ),
            expression@.pure() ==> final(program)@ == old(program)@,
        decreases fuel, *expression, 1int,
    {
        match expression {
            Expression::Access { base, indexes, position } => {
                assert(expression@ == Expr::Access {
                    base: Box::new((**base)@),
                    indexes: crate::expression::expressions_view(indexes@),
                    position: *position,
                });
                let simplified_base = match self.simplify_operand(program, base, fuel) {
                    Ok(simplified) => simplified,
                    Err(problem) => {
                        return Err(problem);
                    },
                };
                let simplified_indexes = match self.simplify_operands(program, indexes, fuel) {
                    Ok(simplified) => simplified,
                    Err(problem) => {
                        return Err(problem);
                    },
                };
                proof {
                    crate::access::lemma_access_outcome_resolved(
                        simplified_base@,
                        base@.position(),
                        indexes_view(simplified_indexes@),
                        *position,
                    );
                }
                simplify_access_expression(
                    simplified_base,
                    base.clone_position(),
                    simplified_indexes,
                    *position,
                )
            },
            _ => Err(
                CompileProblem::new(
                    ProblemKind::UnexpectedExpression,
                    expression.clone_position(),
                ),
            ),
        }
    }

    /// Simplifies a binary operation: the left operand, then the right
    /// one, then the operation on what they simplified to.
    pub fn simplify_binary(&mut self, program: &mut Program, expression: &Expression, fuel: usize) -> (r:
        Result<SimplifiedExpression, CompileProblem>)
        requires
            old(self).valid_for(old(program)@),
            *expression is BinaryOperation,
        ensures
            final(self).stepped(old(self), final(program)@, old(program)@),
            r is Ok ==> r.unwrap()@.residual_resolved(),
            follows(
                r,
                final(self).pass(final(program)@),
                simplified(old(self).pass(old(program)@), expression@, fuel as nat),
            ),
            expression@.pure() ==> final(program)@ == old(program)@,
        decreases fuel, *expression, 1int,
    {
        match expression {
            Expression::BinaryOperation(left, operator, right, position) => {
                let first = match self.simplify_operand(program, left, fuel) {
                    Ok(simplified) => simplified,
                    Err(problem) => {
                        return Err(problem);
                    },
                };
                let second = match self.simplify_operand(program, right, fuel) {
                    Ok(simplified) => simplified,
                    Err(problem) => {
                        return Err(problem);
                    },
                };
                proof {
                    crate::binary::lemma_binary_outcome_resolved(
                        first@,
                        left@.position(),
                        *operator,
                        second@,
                        right@.position(),
                        *position,
                    );
                }
                simplify_binary_expression(
                    first,
                    left.clone_position(),
                    *operator,
                    second,
                    right.clone_position(),
                    *position,
                )
            },
            _ => Err(
                CompileProblem::new(
                    ProblemKind::UnexpectedExpression,
                    expression.clone_position(),
                ),
            ),
        }
    }
}

/// Once the first indexes have a problem, every longer list of indexes has that problem.
pub proof fn lemma_pure_indexes_fail(
    program: ProgramView,
    frame: FrameView,
    indexes: Seq<Expr>,
    failed: int,
    count: int,
)
    requires
        0 < failed <= count <= indexes.len(),
        pure_indexes(program, frame, indexes, failed) is Err,
    ensures
        pure_indexes(program, frame, indexes, count) == pure_indexes(program, frame, indexes, failed),
    decreases count - failed,
{
    if failed < count {
        lemma_pure_indexes_fail(program, frame, indexes, failed, count - 1);
    }
}

} // verus!
