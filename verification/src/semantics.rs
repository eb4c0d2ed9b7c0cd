//! What simplification does, as a function of the state of the pass.
//!
//! The state is the program, the conversion table and the current scope.
//! Each function here gives, for one kind of node, what the node
//! simplifies to and the state that this leaves, or the problem that ends
//! the pass. Operands are simplified before the node that combines them,
//! left before right, and each in the state that the one before has left.

use crate::access::{access_outcome, index_expression, index_fault, problem_within};
use crate::assign::{assignment_outcome, target_outcome};
use crate::binary::{binary_outcome, problem_at};
use crate::binding::{Flow, kept_statement, prepared};
use crate::calls::literal_outcome;
use crate::data_type::DataType;
use crate::expression::Expr;
use crate::ids::ScopeId;
use crate::instantiate::inline_returns;
use crate::known_data::Value;
use crate::position::FilePosition;
use crate::problem::{ProblemKind, ProblemView};
use crate::program::ProgramView;
use crate::scope::ScopeView;
use crate::simplified::{ContentView, SimplifiedView};
use crate::simplifier::variable_outcome;
use crate::table::{FrameView, TableView};
use vstd::prelude::*;

verus! {

/// The state of a pass.
pub struct Pass {
    pub program: ProgramView,
    pub table: TableView,
    pub scope: ScopeId,
}

/// What a call leaves behind: the instance of the body, whether
/// statements were left in it, and the value of the call.
pub struct InstanceView {
    pub body: ScopeId,
    pub residual: bool,
    pub value: SimplifiedView,
}

/// An outcome that leaves the state as it is.
pub open spec fn unchanged(outcome: Result<SimplifiedView, ProblemView>, state: Pass) -> Result<
    (SimplifiedView, Pass),
    ProblemView,
> {
    match outcome {
        Ok(simplified) => Ok((simplified, state)),
        Err(problem) => Err(problem),
    }
}

/// What an expression or a statement simplifies to.
pub open spec fn simplified(state: Pass, expression: Expr, fuel: nat) -> Result<
    (SimplifiedView, Pass),
    ProblemView,
>
    decreases fuel, expression, 2int,
{
    match expression {
        Expr::Literal(value, position) => unchanged(literal_outcome(value, position), state),
        Expr::Variable(id, position) => unchanged(
            variable_outcome(state.program, state.table.current, id, position),
            state,
        ),
        Expr::Access { base, indexes, position } => match operand(state, *base, fuel) {
            Err(problem) => Err(problem),
            Ok((simplified_base, after_base)) => match operands(
                after_base,
                indexes,
                indexes.len() as int,
                fuel,
            ) {
                Err(problem) => Err(problem),
                Ok((simplified_indexes, after)) => unchanged(
                    access_outcome(simplified_base, base.position(), simplified_indexes, position),
                    after,
                ),
            },
        },
        Expr::BinaryOperation(left, operator, right, position) => match operand(state, *left, fuel) {
            Err(problem) => Err(problem),
            Ok((first, after_first)) => match operand(after_first, *right, fuel) {
                Err(problem) => Err(problem),
                Ok((second, after)) => unchanged(
                    binary_outcome(
                        first,
                        left.position(),
                        operator,
                        second,
                        right.position(),
                        position,
                    ),
                    after,
                ),
            },
        },
        Expr::Assign { .. } => assigned(state, expression, fuel),
        Expr::Return(position) => Ok(
            (
                SimplifiedView {
                    content: ContentView::Modified(Expr::Return(position)),
                    data_type: DataType::Void,
                },
                state,
            ),
        ),
        Expr::FuncCall { .. } => called(state, expression, fuel),
        _ => Err(problem_at(ProblemKind::UnexpectedExpression, expression.position())),
    }
}

/// What an expression simplifies to where a value is needed: it must
/// have one. A call there must hand its value back through an inline return.
pub open spec fn operand(state: Pass, expression: Expr, fuel: nat) -> Result<
    (SimplifiedView, Pass),
    ProblemView,
>
    decreases fuel, expression, 3int,
{
    match simplified(state, expression, fuel) {
        Err(problem) => Err(problem),
        Ok((outcome, after)) => if outcome.data_type is Void {
            Err(
                problem_at(
                    if expression is FuncCall {
                        ProblemKind::MissingInlineReturn
                    } else {
                        ProblemKind::InvalidOperands
                    },
                    expression.position(),
                ),
            )
        } else {
            Ok((outcome, after))
        },
    }
}

/// What the first `count` of a list of operands simplify to, each with its position.
pub open spec fn operands(state: Pass, list: Seq<Expr>, count: int, fuel: nat) -> Result<
    (Seq<(SimplifiedView, FilePosition)>, Pass),
    ProblemView,
>
    decreases fuel, list, count,
{
    if count <= 0 || count > list.len() {
        Ok((Seq::empty(), state))
    } else {
        match operands(state, list, count - 1, fuel) {
            Err(problem) => Err(problem),
            Ok((earlier, before)) => match operand(before, list[count - 1], fuel) {
                Err(problem) => Err(problem),
                Ok((outcome, after)) => Ok(
                    (earlier.push((outcome, list[count - 1].position())), after),
                ),
            },
        }
    }
}

/// What the first `count` indexes of the target of an assignment become.
pub open spec fn target_index_list(
    state: Pass,
    indexes: Seq<Expr>,
    count: int,
    context: FilePosition,
    fuel: nat,
) -> Result<(Seq<Expr>, Pass), ProblemView>
    decreases fuel, indexes, count,
{
    if count <= 0 || count > indexes.len() {
        Ok((Seq::empty(), state))
    } else {
        match target_index_list(state, indexes, count - 1, context, fuel) {
            Err(problem) => Err(problem),
            Ok((earlier, before)) => match operand(before, indexes[count - 1], fuel) {
                Err(problem) => Err(problem),
                Ok((outcome, after)) => match index_fault(outcome) {
                    Some(kind) => Err(
                        problem_within(kind, indexes[count - 1].position(), context),
                    ),
                    None => Ok(
                        (
                            earlier.push(
                                index_expression((outcome, indexes[count - 1].position())),
                            ),
                            after,
                        ),
                    ),
                },
            },
        }
    }
}

/// What the target of an assignment simplifies to, and its type.
pub open spec fn target(state: Pass, expression: Expr, fuel: nat) -> Result<
    ((Expr, DataType), Pass),
    ProblemView,
>
    decreases fuel, expression, 1int,
{
    match expression {
        Expr::Variable(id, position) => match target_outcome(
            state.program,
            state.table.current,
            id,
            position,
        ) {
            Ok(resolved) => Ok((resolved, state)),
            Err(problem) => Err(problem),
        },
        Expr::Access { base, indexes, position } => match *base {
            Expr::Variable(id, base_position) => match target_outcome(
                state.program,
                state.table.current,
                id,
                base_position,
            ) {
                Err(problem) => Err(problem),
                Ok((base_expression, base_type)) => if base_type is Automatic {
                    Err(problem_at(ProblemKind::UnresolvedAutoVar, base_position))
                } else if indexes.len() > base_type.rank() {
                    Err(
                        problem_within(
                            ProblemKind::TooManyIndexes {
                                provided: indexes.len() as usize,
                                available: base_type.rank() as usize,
                            },
                            position,
                            base_position,
                        ),
                    )
                } else {
                    match target_index_list(
                        state,
                        indexes,
                        indexes.len() as int,
                        base_position,
                        fuel,
                    ) {
                        Err(problem) => Err(problem),
                        Ok((list, after)) => Ok(
                            (
                                (
                                    Expr::Access {
                                        base: Box::new(base_expression),
                                        indexes: list,
                                        position,
                                    },
                                    base_type.unwrapped(indexes.len()),
                                ),
                                after,
                            ),
                        ),
                    }
                },
            },
            other => Err(problem_at(ProblemKind::NotAssignable, other.position())),
        },
        other => Err(problem_at(ProblemKind::NotAssignable, other.position())),
    }
}

/// What the first `count` outputs of a call are bound to, each with its
/// position: nothing for the inline return, else the simplified target.
pub open spec fn targets(state: Pass, outputs: Seq<Expr>, count: int, fuel: nat) -> Result<
    (Seq<(Option<(Expr, DataType)>, FilePosition)>, Pass),
    ProblemView,
>
    decreases fuel, outputs, count,
{
    if count <= 0 || count > outputs.len() {
        Ok((Seq::empty(), state))
    } else {
        match targets(state, outputs, count - 1, fuel) {
            Err(problem) => Err(problem),
            Ok((earlier, before)) => if outputs[count - 1] is InlineReturn {
                Ok((earlier.push((None, outputs[count - 1].position())), before))
            } else {
                match target(before, outputs[count - 1], fuel) {
                    Err(problem) => Err(problem),
                    Ok((resolved, after)) => Ok(
                        (earlier.push((Some(resolved), outputs[count - 1].position())), after),
                    ),
                }
            },
        }
    }
}

/// What an assignment simplifies to: the target first, then the value,
/// then the two together.
pub open spec fn assigned(state: Pass, statement: Expr, fuel: nat) -> Result<
    (SimplifiedView, Pass),
    ProblemView,
>
    decreases fuel, statement, 0int,
{
    match statement {
        Expr::Assign { target: left, value, position } => match target(state, *left, fuel) {
            Err(problem) => Err(problem),
            Ok(((target_expression, target_type), after_target)) => match operand(
                after_target,
                *value,
                fuel,
            ) {
                Err(problem) => Err(problem),
                Ok((outcome, after_value)) => {
                    let (result, program) = assignment_outcome(
                        after_value.program,
                        target_expression,
                        target_type,
                        left.position(),
                        outcome,
                        value.position(),
                        position,
                    );
                    match result {
                        Ok(nothing) => Ok((nothing, Pass { program, ..after_value })),
                        Err(problem) => Err(problem),
                    }
                },
            },
        },
        other => Err(problem_at(ProblemKind::UnexpectedExpression, other.position())),
    }
}

/// The program that an assignment leaves where both of its sides can be
/// simplified, whether the two then fit together or not: what
/// `assignment_outcome` makes of the program that the simplification of
/// the target and then of the value has left. Where a problem is found in
/// putting the two together, that is the program as the two sides left it
/// or, for a value that cannot exist at run time, with the type of an
/// automatic target pinned.
pub open spec fn assigned_program(state: Pass, statement: Expr, fuel: nat) -> Option<ProgramView> {
    match statement {
        Expr::Assign { target: left, value, position } => match target(state, *left, fuel) {
            Err(_) => None,
            Ok(((target_expression, target_type), after_target)) => match operand(
                after_target,
                *value,
                fuel,
            ) {
                Err(_) => None,
                Ok((outcome, after_value)) => Some(
                    assignment_outcome(
                        after_value.program,
                        target_expression,
                        target_type,
                        left.position(),
                        outcome,
                        value.position(),
                        position,
                    ).1,
                ),
            },
        },
        _ => None,
    }
}

/// What the statements from `from` on leave when they are simplified in
/// their order, and whether any of them, or any before them, was kept.
pub open spec fn ran(state: Pass, statements: Seq<Expr>, from: int, fuel: nat, residual: bool) -> Result<
    (bool, Pass),
    ProblemView,
>
    decreases fuel, statements, statements.len() - from,
{
    if from < 0 || from >= statements.len() {
        Ok((residual, state))
    } else {
        match simplified(state, statements[from], fuel) {
            Err(problem) => Err(problem),
            Ok((outcome, after)) => match kept_statement(
                after.program,
                after.scope,
                outcome,
                statements[from].position(),
            ) {
                Err(problem) => Err(problem),
                Ok((flow, program)) => match flow {
                    Flow::Stopped => Ok((residual, Pass { program, ..after })),
                    Flow::Kept => ran(Pass { program, ..after }, statements, from + 1, fuel, true),
                    Flow::Dropped => ran(
                        Pass { program, ..after },
                        statements,
                        from + 1,
                        fuel,
                        residual,
                    ),
                },
            },
        }
    }
}

/// What the instantiation of the function that `call` calls leaves,
/// within the table that was opened for it.
pub open spec fn instantiated(state: Pass, call: Expr, fuel: nat) -> Result<
    (InstanceView, Pass),
    ProblemView,
>
    decreases fuel, call, 0int,
{
    match call {
        Expr::FuncCall { function, inputs, outputs, position } => match simplified(
            state,
            *function,
            fuel,
        ) {
            Err(problem) => Err(problem),
            Ok((callee, found)) => match callee.content {
                ContentView::Modified(_) => Err(
                    problem_within(ProblemKind::VagueFunction, position, function.position()),
                ),
                ContentView::Interpreted(Value::Function(data)) => if !found.program.has_scope(
                    data.body,
                ) {
                    Err(problem_at(ProblemKind::UnknownId, position))
                } else if found.program.scope(data.body).inputs.len() != inputs.len() {
                    Err(
                        problem_within(
                            ProblemKind::WrongNumberOfInputs {
                                expected: found.program.scope(data.body).inputs.len() as usize,
                                provided: inputs.len() as usize,
                            },
                            position,
                            data.header,
                        ),
                    )
                } else if found.program.scope(data.body).outputs.len() != outputs.len() {
                    Err(
                        problem_within(
                            ProblemKind::WrongNumberOfOutputs {
                                expected: found.program.scope(data.body).outputs.len() as usize,
                                provided: outputs.len() as usize,
                            },
                            position,
                            data.header,
                        ),
                    )
                } else if inline_returns(outputs, outputs.len() as int) > 1 {
                    Err(
                        problem_within(
                            ProblemKind::TooManyInlineReturns {
                                count: inline_returns(outputs, outputs.len() as int) as usize,
                            },
                            position,
                            data.header,
                        ),
                    )
                } else if fuel == 0 {
                    Err(problem_at(ProblemKind::NestingTooDeep, position))
                } else {
                    match operands(found, inputs, inputs.len() as int, fuel) {
                        Err(problem) => Err(problem),
                        Ok((arguments, given)) => match targets(
                            given,
                            outputs,
                            outputs.len() as int,
                            fuel,
                        ) {
                            Err(problem) => Err(problem),
                            Ok((wanted, bound)) => match prepared(
                                bound.program,
                                bound.table,
                                data.body,
                                bound.scope,
                                arguments,
                                wanted,
                                position,
                            ) {
                                Err(problem) => Err(problem),
                                Ok(instance) => match ran(
                                    Pass {
                                        program: instance.program,
                                        table: instance.table,
                                        scope: instance.copy,
                                    },
                                    instance.program.scope(data.body).body,
                                    0,
                                    (fuel - 1) as nat,
                                    false,
                                ) {
                                    Err(problem) => Err(problem),
                                    Ok((residual, done)) => {
                                        let after = Pass { scope: state.scope, ..done };
                                        match instance.inline {
                                            Some(holder) => match variable_outcome(
                                                done.program,
                                                FrameView::empty(),
                                                holder,
                                                FilePosition::spec_placeholder(),
                                            ) {
                                                Err(problem) => Err(problem),
                                                Ok(value) => Ok(
                                                    (
                                                        InstanceView {
                                                            body: instance.copy,
                                                            residual,
                                                            value,
                                                        },
                                                        after,
                                                    ),
                                                ),
                                            },
                                            None => Ok(
                                                (
                                                    InstanceView {
                                                        body: instance.copy,
                                                        residual,
                                                        value: SimplifiedView::nothing(),
                                                    },
                                                    after,
                                                ),
                                            ),
                                        }
                                    },
                                },
                            },
                        },
                    }
                },
                ContentView::Interpreted(_) => Err(
                    problem_at(ProblemKind::NotFunction, function.position()),
                ),
            },
        },
        other => Err(problem_at(ProblemKind::UnexpectedExpression, other.position())),
    }
}

/// What a call simplifies to: the function is instantiated under a table
/// of its own, and where statements were left in the instance, a call of
/// the instance is left in the current scope.
pub open spec fn called(state: Pass, call: Expr, fuel: nat) -> Result<
    (SimplifiedView, Pass),
    ProblemView,
>
    decreases fuel, call, 1int,
{
    if !(call is FuncCall) {
        Err(problem_at(ProblemKind::UnexpectedExpression, call.position()))
    } else {
        match instantiated(Pass { table: state.table.pushed(), ..state }, call, fuel) {
            Err(problem) => Err(problem),
            Ok((instance, inside)) => {
                let program = if instance.residual {
                    inside.program.with_scope(
                        state.scope,
                        ScopeView {
                            body: inside.program.scope(state.scope).body.push(
                                Expr::Call { body: instance.body, position: call.position() },
                            ),
                            ..inside.program.scope(state.scope)
                        },
                    )
                } else {
                    inside.program
                };
                Ok((instance.value, Pass { program, table: inside.table.popped(), scope: state.scope }))
            },
        }
    }
}

/// Once the first operands have a problem, every longer list of operands has that problem.
pub proof fn lemma_operands_fail(state: Pass, list: Seq<Expr>, failed: int, count: int, fuel: nat)
    requires
        0 < failed <= count <= list.len(),
        operands(state, list, failed, fuel) is Err,
    ensures
        operands(state, list, count, fuel) == operands(state, list, failed, fuel),
    decreases count - failed,
{
    if failed < count {
        lemma_operands_fail(state, list, failed, count - 1, fuel);
    }
}

/// Once the first indexes of a target have a problem, every longer list has that problem.
pub proof fn lemma_target_index_list_fail(
    state: Pass,
    indexes: Seq<Expr>,
    failed: int,
    count: int,
    context: FilePosition,
    fuel: nat,
)
    requires
        0 < failed <= count <= indexes.len(),
        target_index_list(state, indexes, failed, context, fuel) is Err,
    ensures
        target_index_list(state, indexes, count, context, fuel) == target_index_list(
            state,
            indexes,
            failed,
            context,
            fuel,
        ),
    decreases count - failed,
{
    if failed < count {
        lemma_target_index_list_fail(state, indexes, failed, count - 1, context, fuel);
    }
}

/// Once the first outputs have a problem, every longer list of outputs has that problem.
pub proof fn lemma_targets_fail(state: Pass, outputs: Seq<Expr>, failed: int, count: int, fuel: nat)
    requires
        0 < failed <= count <= outputs.len(),
        targets(state, outputs, failed, fuel) is Err,
    ensures
        targets(state, outputs, count, fuel) == targets(state, outputs, failed, fuel),
    decreases count - failed,
{
    if failed < count {
        lemma_targets_fail(state, outputs, failed, count - 1, fuel);
    }
}

/// An expression made of literals, variables, accesses and binary
/// operations alone simplifies to what `pure_outcome` says, and leaves
/// the state as it is.
pub proof fn lemma_pure_simplified(state: Pass, expression: Expr, fuel: nat)
    requires
        expression.pure(),
    ensures
        simplified(state, expression, fuel) == unchanged(
            crate::calls::pure_outcome(state.program, state.table.current, expression),
            state,
        ),
        operand(state, expression, fuel) == unchanged(
            crate::calls::as_operand(
                crate::calls::pure_outcome(state.program, state.table.current, expression),
                expression.position(),
            ),
            state,
        ),
    decreases expression, 1int,
{
    match expression {
        Expr::Access { base, indexes, position } => {
            lemma_pure_simplified(state, *base, fuel);
            lemma_pure_operands(state, indexes, indexes.len() as int, fuel);
        },
        Expr::BinaryOperation(left, operator, right, position) => {
            lemma_pure_simplified(state, *left, fuel);
            lemma_pure_simplified(state, *right, fuel);
        },
        _ => {},
    }
}

/// A list of such expressions simplifies to what `pure_indexes` says, and
/// leaves the state as it is.
pub proof fn lemma_pure_operands(state: Pass, list: Seq<Expr>, count: int, fuel: nat)
    requires
        0 <= count <= list.len(),
        forall|i: int| 0 <= i < list.len() ==> (#[trigger] list[i]).pure(),
    ensures
        operands(state, list, count, fuel) == match crate::calls::pure_indexes(
            state.program,
            state.table.current,
            list,
            count,
        ) {
            Ok(outcomes) => Ok::<(Seq<(SimplifiedView, FilePosition)>, Pass), ProblemView>(
                (outcomes, state),
            ),
            Err(problem) => Err(problem),
        },
    decreases list, count,
{
    if count > 0 {
        lemma_pure_operands(state, list, count - 1, fuel);
        lemma_pure_simplified(state, list[count - 1], fuel);
    }
}

/// The indexes of a target that are such expressions become what
/// `target_indexes` says, and leave the state as it is.
pub proof fn lemma_pure_target_indexes(
    state: Pass,
    indexes: Seq<Expr>,
    count: int,
    context: FilePosition,
    fuel: nat,
)
    requires
        0 <= count <= indexes.len(),
        forall|i: int| 0 <= i < indexes.len() ==> (#[trigger] indexes[i]).pure(),
    ensures
        target_index_list(state, indexes, count, context, fuel) == match crate::assign::target_indexes(
            state.program,
            state.table.current,
            indexes,
            count,
            context,
        ) {
            Ok(list) => Ok::<(Seq<Expr>, Pass), ProblemView>((list, state)),
            Err(problem) => Err(problem),
        },
    decreases count,
{
    if count > 0 {
        lemma_pure_target_indexes(state, indexes, count - 1, context, fuel);
        lemma_pure_simplified(state, indexes[count - 1], fuel);
    }
}

/// An assignment whose target and value change nothing when they are
/// simplified simplifies to what `pure_assignment_outcome` says.
pub proof fn lemma_pure_assigned(state: Pass, left: Expr, value: Expr, position: FilePosition, fuel: nat)
    requires
        left.pure_target(),
        value.pure(),
    ensures
        assigned(
            state,
            Expr::Assign { target: Box::new(left), value: Box::new(value), position },
            fuel,
        ) == match crate::assign::pure_assignment_outcome(
            state.program,
            state.table.current,
            left,
            value,
            position,
        ) {
            (Ok(nothing), program) => Ok::<(SimplifiedView, Pass), ProblemView>(
                (nothing, Pass { program, ..state }),
            ),
            (Err(problem), _) => Err(problem),
        },
{
    match left {
        Expr::Access { base, indexes, position: at } => {
            lemma_pure_target_indexes(state, indexes, indexes.len() as int, base.position(), fuel);
            match *base {
                Expr::Variable(id, base_position) => {},
                _ => {},
            }
        },
        _ => {},
    }
    lemma_pure_simplified(state, value, fuel);
}

/// A call that has a fault before anything is instantiated fails with
/// that fault, where its callee changes nothing when it is simplified.
pub proof fn lemma_faulty_call(state: Pass, call: Expr, fuel: nat)
    requires
        call is FuncCall,
        call->FuncCall_function.pure(),
        crate::instantiate::call_fault(state.program, state.table.current, call) is Some,
    ensures
        called(state, call, fuel) == Err::<(SimplifiedView, Pass), ProblemView>(
            crate::instantiate::call_fault(state.program, state.table.current, call).unwrap(),
        ),
{
    let inside = Pass { table: state.table.pushed(), ..state };
    lemma_pure_simplified(inside, *call->FuncCall_function, fuel);
}

/// A call of a known function that gives another number of inputs than
/// the function declares fails with both numbers, at the call, with the
/// header of the function as a hint, however deep the call is nested. So
/// a call with one input of a function that declares two fails with "two
/// expected, one provided".
pub proof fn lemma_wrong_number_of_inputs(
    state: Pass,
    call: Expr,
    data: crate::known_data::FunctionData,
    fuel: nat,
)
    requires
        call is FuncCall,
        call->FuncCall_function.pure(),
        crate::calls::pure_outcome(state.program, state.table.current, *call->FuncCall_function)
            is Ok,
        crate::calls::pure_outcome(
            state.program,
            state.table.current,
            *call->FuncCall_function,
        )->Ok_0.content == ContentView::Interpreted(Value::Function(data)),
        state.program.has_scope(data.body),
        state.program.scope(data.body).inputs.len() != call->FuncCall_inputs.len(),
    ensures
        called(state, call, fuel) == Err::<(SimplifiedView, Pass), ProblemView>(
            problem_within(
                ProblemKind::WrongNumberOfInputs {
                    expected: state.program.scope(data.body).inputs.len() as usize,
                    provided: call->FuncCall_inputs.len() as usize,
                },
                call->FuncCall_position,
                data.header,
            ),
        ),
{
    lemma_faulty_call(state, call, fuel);
}

} // verus!
