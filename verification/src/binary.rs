//! Simplification of a binary operation whose operands are simplified already.

use crate::data_type::{biggest_type, DataType, spec_biggest_type};
use crate::expression::{Expr, Expression};
use crate::fold::{compute_binary_operation, fold, Folded, Folding};
use crate::operator::BinaryOperator;
use crate::position::FilePosition;
use crate::problem::{CompileProblem, error_at, hint_at, no_bct, ProblemKind, ProblemView};
use crate::simplified::{
    Content,
    ContentView,
    inflate,
    inflated,
    SimplifiedExpression,
    SimplifiedView,
};
use vstd::prelude::*;

verus! {

/// Whether the operator takes operands whose scalar type is `scalar`.
///
/// Arithmetic and order take integers and floats, logic takes booleans,
/// bitwise operators take integers, and equality takes booleans, integers,
/// floats, data types and functions.
pub open spec fn admits(operator: BinaryOperator, scalar: DataType) -> bool {
    if operator.is_arithmetic() || operator.is_relational() {
        scalar is Int || scalar is Float
    } else if operator.is_logical() {
        scalar is Bool
    } else if operator.is_bitwise() {
        scalar is Int
    } else {
        scalar is Bool || scalar is Int || scalar is Float || scalar is DataType_
            || scalar is Function_
    }
}

/// The type of the result of an operation on operands of the type `operands`:
/// comparisons give a boolean for every scalar, the others give the type itself.
pub open spec fn result_type(operator: BinaryOperator, operands: DataType) -> DataType {
    if operator.yields_bool() {
        operands.with_scalar(DataType::Bool)
    } else {
        operands
    }
}

/// The run-time expression for an operand: the code that is left of it,
/// or a literal for its value, if the value can exist at run time.
pub open spec fn as_run_time(content: ContentView, position: FilePosition) -> Option<Expr> {
    match content {
        ContentView::Interpreted(value) => if value.run_time() {
            Some(Expr::Literal(value, position))
        } else {
            None
        },
        ContentView::Modified(expression) => Some(expression),
    }
}

/// The problem of the given kind at one position, without hints.
pub open spec fn problem_at(kind: ProblemKind, position: FilePosition) -> ProblemView {
    ProblemView { kind, descriptors: seq![error_at(position)] }
}

/// What a result is, mathematically.
pub open spec fn outcome_view(r: Result<SimplifiedExpression, CompileProblem>) -> Result<
    SimplifiedView,
    ProblemView,
> {
    match r {
        Ok(simplified) => Ok(simplified@),
        Err(problem) => Err(problem@),
    }
}

/// What a binary operation on two simplified operands simplifies to.
///
/// The operands need a biggest common type, which the operator must
/// take. Two known operands are folded. Where folding leaves the result to
/// run time, or an operand is not known, the result is an operation on
/// run-time expressions, each widened to the common type; a known operand
/// stands there as a literal, which it must be fit for.
pub open spec fn binary_outcome(
    left: SimplifiedView,
    left_position: FilePosition,
    operator: BinaryOperator,
    right: SimplifiedView,
    right_position: FilePosition,
    position: FilePosition,
) -> Result<SimplifiedView, ProblemView> {
    match spec_biggest_type(left.data_type, right.data_type) {
        None => Err(
            ProblemView {
                kind: ProblemKind::NoBct,
                descriptors: seq![
                    error_at(position),
                    hint_at(left_position),
                    hint_at(right_position),
                ],
            },
        ),
        Some(common) => if !admits(operator, common.scalar()) {
            Err(problem_at(ProblemKind::InvalidOperands, position))
        } else {
            let folded = match (left.content, right.content) {
                (ContentView::Interpreted(x), ContentView::Interpreted(y)) => fold(x, operator, y),
                _ => Folded::RunTime,
            };
            match folded {
                Folded::Value(value) => Ok(
                    SimplifiedView {
                        content: ContentView::Interpreted(value),
                        data_type: result_type(operator, common),
                    },
                ),
                Folded::Mismatch => Err(problem_at(ProblemKind::InvalidOperands, position)),
                Folded::RunTime => match as_run_time(left.content, left_position) {
                    None => Err(
                        problem_at(ProblemKind::ValueNotRunTimeCompatible, left_position),
                    ),
                    Some(first) => match as_run_time(right.content, right_position) {
                        None => Err(
                            problem_at(ProblemKind::ValueNotRunTimeCompatible, right_position),
                        ),
                        Some(second) => Ok(
                            SimplifiedView {
                                content: ContentView::Modified(
                                    Expr::BinaryOperation(
                                        Box::new(inflated(first, left.data_type, common)),
                                        operator,
                                        Box::new(inflated(second, right.data_type, common)),
                                        position,
                                    ),
                                ),
                                data_type: result_type(operator, common),
                            },
                        ),
                    },
                },
            }
        },
    }
}

/// Whether the operator takes operands whose scalar type is `scalar`.
pub fn operator_admits(operator: BinaryOperator, scalar: &DataType) -> (r: bool)
    ensures
        r == admits(operator, *scalar),
{
    match operator {
        BinaryOperator::Add
        | BinaryOperator::Subtract
        | BinaryOperator::Multiply
        | BinaryOperator::Divide
        | BinaryOperator::Modulo
        | BinaryOperator::Power
        | BinaryOperator::LessThan
        | BinaryOperator::GreaterThan
        | BinaryOperator::LessThanOrEqual
        | BinaryOperator::GreaterThanOrEqual => matches!(scalar, DataType::Int | DataType::Float),
        BinaryOperator::And | BinaryOperator::Or | BinaryOperator::Xor => matches!(
            scalar,
            DataType::Bool
        ),
        BinaryOperator::BAnd | BinaryOperator::BOr | BinaryOperator::BXor => matches!(
            scalar,
            DataType::Int
        ),
        BinaryOperator::Equal | BinaryOperator::NotEqual => matches!(
            scalar,
            DataType::Bool | DataType::Int | DataType::Float | DataType::DataType_
                | DataType::Function_
        ),
    }
}

/// Turns an operand into a run-time expression, if it can be one.
pub fn resolve_operand(content: Content, position: FilePosition) -> (r: Option<Expression>)
    ensures
        match r {
            Some(expression) => as_run_time(content@, position) == Some(expression@),
            None => as_run_time(content@, position).is_none(),
        },
{
    match content {
        Content::Interpreted(data) => {
            if data.is_run_time_compatible() {
                Some(Expression::Literal(data, position))
            } else {
                None
            }
        },
        Content::Modified(expression) => Some(expression),
    }
}

/// Simplifies a binary operation whose operands are simplified already.
pub fn simplify_binary_expression(
    simplified_operand_1: SimplifiedExpression,
    operand_1_position: FilePosition,
    operator: BinaryOperator,
    simplified_operand_2: SimplifiedExpression,
    operand_2_position: FilePosition,
    position: FilePosition,
) -> (r: Result<SimplifiedExpression, CompileProblem>)
    ensures
        outcome_view(r) == binary_outcome(
            simplified_operand_1@,
            operand_1_position,
            operator,
            simplified_operand_2@,
            operand_2_position,
            position,
        ),
{
    let common = match biggest_type(&simplified_operand_1.data_type, &simplified_operand_2.data_type) {
        Some(common) => common,
        None => {
            return Err(no_bct(position, operand_1_position, operand_2_position));
        },
    };
    if !operator_admits(operator, common.borrow_scalar()) {
        return Err(CompileProblem::new(ProblemKind::InvalidOperands, position));
    }
    let data_type = if operator.is_comparison() {
        common.clone_with_scalar(&DataType::Bool)
    } else {
        common.clone()
    };
    let SimplifiedExpression { content: content_1, data_type: type_1 } = simplified_operand_1;
    let SimplifiedExpression { content: content_2, data_type: type_2 } = simplified_operand_2;
    let folding = match (&content_1, &content_2) {
        (Content::Interpreted(x), Content::Interpreted(y)) => compute_binary_operation(
            x,
            operator,
            y,
        ),
        _ => Folding::RunTime,
    };
    match folding {
        Folding::Value(value) => Ok(
            SimplifiedExpression { content: Content::Interpreted(value), data_type },
        ),
        Folding::Mismatch => Err(CompileProblem::new(ProblemKind::InvalidOperands, position)),
        Folding::RunTime => {
            let first = match resolve_operand(content_1, operand_1_position) {
                Some(first) => first,
                None => {
                    return Err(
                        CompileProblem::new(
                            ProblemKind::ValueNotRunTimeCompatible,
                            operand_1_position,
                        ),
                    );
                },
            };
            let second = match resolve_operand(content_2, operand_2_position) {
                Some(second) => second,
                None => {
                    return Err(
                        CompileProblem::new(
                            ProblemKind::ValueNotRunTimeCompatible,
                            operand_2_position,
                        ),
                    );
                },
            };
            let operation = Expression::BinaryOperation(
                Box::new(inflate(first, &type_1, &common)),
                operator,
                Box::new(inflate(second, &type_2, &common)),
                position,
            );
            Ok(SimplifiedExpression { content: Content::Modified(operation), data_type })
        },
    }
}

/// What is left of a binary operation for run time is resolved when what
/// was left of its operands is.
pub proof fn lemma_binary_outcome_resolved(
    left: SimplifiedView,
    left_position: FilePosition,
    operator: BinaryOperator,
    right: SimplifiedView,
    right_position: FilePosition,
    position: FilePosition,
)
    requires
        left.residual_resolved(),
        right.residual_resolved(),
    ensures
        match binary_outcome(left, left_position, operator, right, right_position, position) {
            Ok(simplified) => simplified.residual_resolved(),
            Err(_) => true,
        },
{
    match spec_biggest_type(left.data_type, right.data_type) {
        Some(common) => {
            match (
                as_run_time(left.content, left_position),
                as_run_time(right.content, right_position),
            ) {
                (Some(first), Some(second)) => {
                    assert(first.resolved());
                    assert(second.resolved());
                    assert(inflated(first, left.data_type, common).resolved());
                    assert(inflated(second, right.data_type, common).resolved());
                    let operation = Expr::BinaryOperation(
                        Box::new(inflated(first, left.data_type, common)),
                        operator,
                        Box::new(inflated(second, right.data_type, common)),
                        position,
                    );
                    assert(operation.resolved());
                },
                _ => {},
            }
        },
        None => {},
    }
}

/// Nothing is folded where an operand is not known: an operation with an
/// operand of which code is left simplifies, where it simplifies at all,
/// to the operation on the run-time expressions of its operands, each
/// widened to the common type, and never to a value.
pub proof fn lemma_unknown_operand_is_not_folded(
    left: SimplifiedView,
    left_position: FilePosition,
    operator: BinaryOperator,
    right: SimplifiedView,
    right_position: FilePosition,
    position: FilePosition,
)
    requires
        left.content is Modified || right.content is Modified,
        binary_outcome(left, left_position, operator, right, right_position, position) is Ok,
    ensures
        ({
            let common = spec_biggest_type(left.data_type, right.data_type).unwrap();
            binary_outcome(left, left_position, operator, right, right_position, position) == Ok::<
                SimplifiedView,
                ProblemView,
            >(
                SimplifiedView {
                    content: ContentView::Modified(
                        Expr::BinaryOperation(
                            Box::new(
                                inflated(
                                    as_run_time(left.content, left_position).unwrap(),
                                    left.data_type,
                                    common,
                                ),
                            ),
                            operator,
                            Box::new(
                                inflated(
                                    as_run_time(right.content, right_position).unwrap(),
                                    right.data_type,
                                    common,
                                ),
                            ),
                            position,
                        ),
                    ),
                    data_type: result_type(operator, common),
                },
            )
        }),
{
}

} // verus!
