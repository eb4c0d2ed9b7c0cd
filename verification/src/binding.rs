//! The steps of the instantiation of a call, one by one.

use crate::access::problem_within;
use crate::binary::problem_at;
use crate::data_type::{biggest_type, DataType, spec_biggest_type};
use crate::expression::{Expr, Expression};
use crate::ids::{ScopeId, VariableId};
use crate::position::FilePosition;
use crate::problem::{CompileProblem, problem_in_context, ProblemKind, ProblemView};
use crate::program::{Program, ProgramView};
use crate::scope::ScopeView;
use crate::simplified::{
    Content,
    ContentView,
    inflate,
    inflated,
    SimplifiedExpression,
    SimplifiedView,
};
use crate::table::{FrameView, ResolverTable, TableView};
use crate::variable::VariableView;
use vstd::prelude::*;

verus! {

/// The type that the instance of a parameter has once an argument of the
/// type `argument_type` is bound to it: a parameter of automatic type
/// takes the type of the argument, any other keeps its type, to which the
/// type of the argument must widen.
pub open spec fn bound_type(declared: DataType, argument_type: DataType) -> Option<DataType> {
    if declared is Automatic {
        Some(argument_type)
    } else if spec_biggest_type(declared, argument_type) == Some(declared) {
        Some(declared)
    } else {
        None
    }
}

/// The program and the table after an argument was bound to the input
/// parameter `parameter`, or the problem with it.
///
/// The instance of the parameter is what the parameter is converted to.
/// A known argument, widened to the type of the instance, becomes the
/// temporary value of the instance. What is left of an unknown argument,
/// widened alike, is put in the parameter's place.
pub open spec fn bound_input(
    program: ProgramView,
    table: TableView,
    parameter: VariableId,
    argument: SimplifiedView,
    argument_position: FilePosition,
) -> Result<(ProgramView, TableView), ProblemView> {
    let instance = table.current.convert(parameter);
    if !program.has_variable(instance) {
        Err(problem_at(ProblemKind::UnknownId, argument_position))
    } else {
        let declared = program.variable(instance).data_type;
        match bound_type(declared, argument.data_type) {
            None => Err(
                problem_within(
                    ProblemKind::MismatchedAssign,
                    argument_position,
                    program.variable(instance).definition,
                ),
            ),
            Some(parameter_type) => {
                let typed = program.with_variable(
                    instance,
                    VariableView { data_type: parameter_type, ..program.variable(instance) },
                );
                match argument.content {
                    ContentView::Interpreted(value) => Ok(
                        (
                            typed.with_variable(
                                instance,
                                VariableView {
                                    temporary_value: value.widened(parameter_type),
                                    ..typed.variable(instance)
                                },
                            ),
                            table,
                        ),
                    ),
                    ContentView::Modified(expression) => Ok(
                        (
                            typed,
                            table.with_substitution(
                                parameter,
                                inflated(expression, argument.data_type, parameter_type),
                                parameter_type,
                            ),
                        ),
                    ),
                }
            },
        }
    }
}

/// Binds an argument to an input parameter of the function that is being instantiated.
pub fn bind_input(
    program: &mut Program,
    table: &mut ResolverTable,
    parameter: VariableId,
    argument: &SimplifiedExpression,
    argument_position: FilePosition,
) -> (r: Result<(), CompileProblem>)
    ensures
        match bound_input(old(program)@, old(table)@, parameter, argument@, argument_position) {
            Ok((after, after_table)) => r is Ok && final(program)@ == after && final(table)@
                == after_table,
            Err(problem) => {
                &&& r is Err
                &&& r.unwrap_err()@ == problem
                &&& final(program)@ == old(program)@
                &&& final(table)@ == old(table)@
            },
        },
        old(program)@.wf() ==> final(program)@.wf(),
        final(program)@.extends(old(program)@),
        final(program)@.scopes == old(program)@.scopes,
        final(program)@.variables.len() == old(program)@.variables.len(),
        final(table)@.stack == old(table)@.stack,
        final(table)@.current.conversions == old(table)@.current.conversions,
        old(table)@.current.substitutions_resolved() && argument@.residual_resolved()
            ==> final(table)@.current.substitutions_resolved(),
{
    let instance = table.convert(parameter);
    if !program.has_variable(instance) {
        return Err(CompileProblem::new(ProblemKind::UnknownId, argument_position));
    }
    let declared = program.borrow_variable(instance).borrow_data_type().clone();
    let parameter_type = if declared.is_automatic() {
        (&argument.data_type).clone()
    } else {
        let fits = match biggest_type(&declared, &argument.data_type) {
            Some(common) => common.equals(&declared),
            None => false,
        };
        if !fits {
            return Err(
                problem_in_context(
                    ProblemKind::MismatchedAssign,
                    argument_position,
                    *program.borrow_variable(instance).get_definition(),
                ),
            );
        }
        declared
    };
    program.set_data_type(instance, parameter_type.clone());
    match &argument.content {
        Content::Interpreted(value) => {
            program.set_temporary_value(instance, value.widen(&parameter_type));
        },
        Content::Modified(expression) => {
            let widened = inflate(expression.clone(), &argument.data_type, &parameter_type);
            assert(widened@.resolved() == expression@.resolved());
            table.add_substitution(parameter, widened, parameter_type);
        },
    }
    Ok(())
}

/// The table after the output parameter `parameter` was bound to what
/// the call gives for it, and the instance that holds the value of the
/// call, if this is the inline output.
///
/// An inline output binds nothing: the instance of the parameter holds the
/// value of the call. Any other output is put in the parameter's place,
/// so that the body writes to it directly.
pub open spec fn bound_output(table: TableView, parameter: VariableId, target: Option<(Expr, DataType)>) -> (
    TableView,
    Option<VariableId>,
) {
    match target {
        None => (table, Some(table.current.convert(parameter))),
        Some((expression, data_type)) => (
            table.with_substitution(parameter, expression, data_type),
            None,
        ),
    }
}

/// What was given for an output, mathematically.
pub open spec fn output_view(target: Option<(Expression, DataType)>) -> Option<(Expr, DataType)> {
    match target {
        Some((expression, data_type)) => Some((expression@, data_type)),
        None => None,
    }
}

/// Binds what a call gives for an output to the output parameter.
pub fn bind_output(table: &mut ResolverTable, parameter: VariableId, target: &Option<(Expression, DataType)>) -> (r:
    Option<VariableId>)
    ensures
        (final(table)@, r) == bound_output(old(table)@, parameter, output_view(*target)),
        final(table)@.stack == old(table)@.stack,
        final(table)@.current.conversions == old(table)@.current.conversions,
        old(table)@.current.substitutions_resolved() && (*target is Some
            ==> target.unwrap().0@.resolved()) ==> final(table)@.current.substitutions_resolved(),
{
    match target {
        None => Some(table.convert(parameter)),
        Some((expression, data_type)) => {
            table.add_substitution(parameter, expression.clone(), data_type.clone());
            None
        },
    }
}

/// What becomes of a statement once it is simplified.
#[derive(Clone, Copy, Debug, PartialEq, Eq, Structural)]
pub enum Flow {
    /// Its work is done; nothing is left of it.
    Dropped,
    /// What is left of it was added to the scope.
    Kept,
    /// It is a return: what follows it is not reached.
    Stopped,
}

/// What becomes of a statement that simplified to `simplified`, and the
/// program after it: a return stops the scope, any other statement must
/// have no value, and is dropped where its value is known and added to
/// the statements of `scope` where code is left of it.
pub open spec fn kept_statement(
    program: ProgramView,
    scope: ScopeId,
    simplified: SimplifiedView,
    position: FilePosition,
) -> Result<(Flow, ProgramView), ProblemView> {
    match simplified.content {
        ContentView::Modified(Expr::Return(_)) => Ok((Flow::Stopped, program)),
        _ => if !(simplified.data_type is Void) {
            Err(problem_at(ProblemKind::DanglingValue, position))
        } else {
            match simplified.content {
                ContentView::Interpreted(_) => Ok((Flow::Dropped, program)),
                ContentView::Modified(expression) => Ok(
                    (
                        Flow::Kept,
                        program.with_scope(
                            scope,
                            ScopeView {
                                body: program.scope(scope).body.push(expression),
                                ..program.scope(scope)
                            },
                        ),
                    ),
                ),
            }
        },
    }
}

/// Decides what becomes of a simplified statement of the scope that is
/// being filled, and adds what is left of it to `scope`.
pub fn keep_statement(program: &mut Program, scope: ScopeId, simplified: SimplifiedExpression, position: FilePosition) -> (r:
    Result<Flow, CompileProblem>)
    requires
        old(program)@.has_scope(scope),
    ensures
        match kept_statement(old(program)@, scope, simplified@, position) {
            Ok((flow, after)) => r == Ok::<Flow, CompileProblem>(flow) && final(program)@ == after,
            Err(problem) => {
                &&& r is Err
                &&& r.unwrap_err()@ == problem
                &&& final(program)@ == old(program)@
            },
        },
        old(program)@.wf() ==> final(program)@.wf(),
        final(program)@.extends(old(program)@),
        final(program)@.variables == old(program)@.variables,
        simplified@.residual_resolved() ==> final(program)@.keeps_bodies_resolved(old(program)@),
{
    let is_return = match &simplified.content {
        Content::Modified(Expression::Return(_)) => true,
        _ => false,
    };
    if is_return {
        return Ok(Flow::Stopped);
    }
    if !matches!(simplified.data_type, DataType::Void) {
        return Err(CompileProblem::new(ProblemKind::DanglingValue, position));
    }
    match simplified.content {
        Content::Interpreted(_) => Ok(Flow::Dropped),
        Content::Modified(expression) => {
            proof {
                if expression@.resolved() {
                    crate::simplifier::lemma_added_statement(program@, scope, expression@);
                }
            }
            program.add_expression(scope, expression);
            Ok(Flow::Kept)
        },
    }
}

/// What a call gives for an output, and where: `None` for the inline
/// output, else the target and its type.
pub type Output = (Option<(Expression, DataType)>, FilePosition);

/// The contents of a list of outputs, one by one.
pub open spec fn outputs_view(outputs: Seq<Output>) -> Seq<(Option<(Expr, DataType)>, FilePosition)> {
    outputs.map_values(|output: Output| (output_view(output.0), output.1))
}

/// The problem of a template parameter whose arguments do not unify:
/// at the call, with the parameter and the argument as hints.
pub open spec fn unification_problem(call: FilePosition, parameter: FilePosition, argument: FilePosition) -> ProblemView {
    ProblemView {
        kind: ProblemKind::NoBct,
        descriptors: seq![
            crate::problem::error_at(call),
            crate::problem::hint_at(parameter),
            crate::problem::hint_at(argument),
        ],
    }
}

/// The bindings of the template parameters after the first `count`
/// inputs were taken into account, one after the other.
pub open spec fn inferred_inputs(
    program: ProgramView,
    frame: FrameView,
    parameters: Seq<VariableId>,
    arguments: Seq<(SimplifiedView, FilePosition)>,
    count: int,
    call: FilePosition,
) -> Result<Map<VariableId, DataType>, ProblemView>
    decreases count,
{
    if count <= 0 {
        Ok(Map::empty())
    } else {
        match inferred_inputs(program, frame, parameters, arguments, count - 1, call) {
            Err(problem) => Err(problem),
            Ok(bindings) => {
                let instance = program.variable(frame.convert(parameters[count - 1]));
                match crate::template::constrained(
                    bindings,
                    instance.data_type,
                    arguments[count - 1].0.data_type,
                ) {
                    Some(after) => Ok(after),
                    None => Err(
                        unification_problem(call, instance.definition, arguments[count - 1].1),
                    ),
                }
            },
        }
    }
}

/// The bindings of the template parameters after the first `count`
/// outputs were taken into account as well. The inline output says nothing.
pub open spec fn inferred_outputs(
    program: ProgramView,
    frame: FrameView,
    parameters: Seq<VariableId>,
    outputs: Seq<(Option<(Expr, DataType)>, FilePosition)>,
    count: int,
    call: FilePosition,
    start: Map<VariableId, DataType>,
) -> Result<Map<VariableId, DataType>, ProblemView>
    decreases count,
{
    if count <= 0 {
        Ok(start)
    } else {
        match inferred_outputs(program, frame, parameters, outputs, count - 1, call, start) {
            Err(problem) => Err(problem),
            Ok(bindings) => match outputs[count - 1].0 {
                None => Ok(bindings),
                Some((_, target_type)) => {
                    let instance = program.variable(frame.convert(parameters[count - 1]));
                    match crate::template::constrained(bindings, instance.data_type, target_type) {
                        Some(after) => Ok(after),
                        None => Err(
                            unification_problem(call, instance.definition, outputs[count - 1].1),
                        ),
                    }
                },
            },
        }
    }
}

/// The program and the table after the first `count` inputs were bound, one after the other.
pub open spec fn inputs_bound(
    program: ProgramView,
    table: TableView,
    parameters: Seq<VariableId>,
    arguments: Seq<(SimplifiedView, FilePosition)>,
    count: int,
) -> Result<(ProgramView, TableView), ProblemView>
    decreases count,
{
    if count <= 0 {
        Ok((program, table))
    } else {
        match inputs_bound(program, table, parameters, arguments, count - 1) {
            Err(problem) => Err(problem),
            Ok((bound, bound_table)) => bound_input(
                bound,
                bound_table,
                parameters[count - 1],
                arguments[count - 1].0,
                arguments[count - 1].1,
            ),
        }
    }
}

/// The table after the first `count` outputs were bound, one after the
/// other, and the instance that holds the value of the call: that of the
/// last inline output among them.
pub open spec fn outputs_bound(
    table: TableView,
    parameters: Seq<VariableId>,
    outputs: Seq<(Option<(Expr, DataType)>, FilePosition)>,
    count: int,
) -> (TableView, Option<VariableId>)
    decreases count,
{
    if count <= 0 {
        (table, None)
    } else {
        let (bound, inline) = outputs_bound(table, parameters, outputs, count - 1);
        let (after, instance) = bound_output(bound, parameters[count - 1], outputs[count - 1].0);
        (
            after,
            if instance is Some {
                instance
            } else {
                inline
            },
        )
    }
}

/// What the preparation of an instance leaves: the program, the table,
/// the copy of the body, and the instance that holds the value of the call.
pub struct Prepared {
    pub program: ProgramView,
    pub table: TableView,
    pub copy: ScopeId,
    pub inline: Option<VariableId>,
}

/// The instance of the scope `body` for a call with the given arguments
/// and outputs, made inside the scope `caller`.
///
/// The body is copied. The types of the arguments and of the outputs bind
/// the template parameters that the parameters of the copy name, inputs
/// before outputs; the bindings are written into the program, and the
/// types of the variables of the copy are resolved. Then the inputs are
/// bound, and then the outputs.
pub open spec fn prepared(
    program: ProgramView,
    table: TableView,
    body: ScopeId,
    caller: ScopeId,
    arguments: Seq<(SimplifiedView, FilePosition)>,
    outputs: Seq<(Option<(Expr, DataType)>, FilePosition)>,
    call: FilePosition,
) -> Result<Prepared, ProblemView> {
    let ids = program.scope(body).own_ids();
    if !crate::copier::convertible(table.current, ids) {
        Err(problem_at(ProblemKind::DuplicateConversion, FilePosition::spec_placeholder()))
    } else {
        let copied_table = table.with_instances(ids, program.variables.len());
        let copied = program.with_copy(body, Some(caller), copied_table.current);
        let copy = ScopeId(program.scopes.len() as usize);
        let inputs = copied.scope(body).inputs;
        let results = copied.scope(body).outputs;
        match inferred_inputs(copied, copied_table.current, inputs, arguments, inputs.len() as int, call) {
            Err(problem) => Err(problem),
            Ok(from_inputs) => match inferred_outputs(
                copied,
                copied_table.current,
                results,
                outputs,
                results.len() as int,
                call,
                from_inputs,
            ) {
                Err(problem) => Err(problem),
                Ok(bindings) => {
                    let written = copied.with_bindings(bindings);
                    let typed = written.after_resolving(
                        written.scope(copy).own_ids(),
                        written.scope(copy).own_ids().len() as int,
                    );
                    match inputs_bound(typed, copied_table, inputs, arguments, inputs.len() as int) {
                        Err(problem) => Err(problem),
                        Ok((bound, bound_table)) => {
                            let (after, inline) = outputs_bound(
                                bound_table,
                                results,
                                outputs,
                                results.len() as int,
                            );
                            Ok(Prepared { program: bound, table: after, copy, inline })
                        },
                    }
                },
            },
        }
    }
}

/// Once the first inputs do not unify, no longer list of inputs does.
proof fn lemma_inferred_inputs_fail(
    program: ProgramView,
    frame: FrameView,
    parameters: Seq<VariableId>,
    arguments: Seq<(SimplifiedView, FilePosition)>,
    failed: int,
    count: int,
    call: FilePosition,
)
    requires
        0 < failed <= count,
        inferred_inputs(program, frame, parameters, arguments, failed, call) is Err,
    ensures
        inferred_inputs(program, frame, parameters, arguments, count, call) == inferred_inputs(
            program,
            frame,
            parameters,
            arguments,
            failed,
            call,
        ),
    decreases count - failed,
{
    if failed < count {
        lemma_inferred_inputs_fail(program, frame, parameters, arguments, failed, count - 1, call);
    }
}

/// Once the first outputs do not unify, no longer list of outputs does.
proof fn lemma_inferred_outputs_fail(
    program: ProgramView,
    frame: FrameView,
    parameters: Seq<VariableId>,
    outputs: Seq<(Option<(Expr, DataType)>, FilePosition)>,
    failed: int,
    count: int,
    call: FilePosition,
    start: Map<VariableId, DataType>,
)
    requires
        0 < failed <= count,
        inferred_outputs(program, frame, parameters, outputs, failed, call, start) is Err,
    ensures
        inferred_outputs(program, frame, parameters, outputs, count, call, start)
            == inferred_outputs(program, frame, parameters, outputs, failed, call, start),
    decreases count - failed,
{
    if failed < count {
        lemma_inferred_outputs_fail(
            program,
            frame,
            parameters,
            outputs,
            failed,
            count - 1,
            call,
            start,
        );
    }
}

/// Once the first inputs cannot be bound, no longer list of inputs can.
proof fn lemma_inputs_bound_fail(
    program: ProgramView,
    table: TableView,
    parameters: Seq<VariableId>,
    arguments: Seq<(SimplifiedView, FilePosition)>,
    failed: int,
    count: int,
)
    requires
        0 < failed <= count,
        inputs_bound(program, table, parameters, arguments, failed) is Err,
    ensures
        inputs_bound(program, table, parameters, arguments, count) == inputs_bound(
            program,
            table,
            parameters,
            arguments,
            failed,
        ),
    decreases count - failed,
{
    if failed < count {
        lemma_inputs_bound_fail(program, table, parameters, arguments, failed, count - 1);
    }
}

/// Takes the types of the inputs of a call into account for the template parameters.
fn infer_from_inputs(
    program: &Program,
    table: &ResolverTable,
    body: ScopeId,
    arguments: &Vec<crate::access::Index>,
    call: FilePosition,
) -> (r: Result<crate::template::TypeTable, CompileProblem>)
    requires
        program@.wf(),
        program@.has_scope(body),
        table@.fits(program@.variables.len()),
        arguments@.len() == program@.scope(body).inputs.len(),
    ensures
        match inferred_inputs(
            program@,
            table@.current,
            program@.scope(body).inputs,
            crate::access::indexes_view(arguments@),
            arguments@.len() as int,
            call,
        ) {
            Ok(bindings) => r is Ok && r.unwrap()@ == bindings,
            Err(problem) => r is Err && r.unwrap_err()@ == problem,
        },
{
    let ghost inputs = program@.scope(body).inputs;
    let ghost given = crate::access::indexes_view(arguments@);
    let mut type_params = crate::template::TypeTable::new();
    let mut p: usize = 0;
    while p < arguments.len()
        invariant
            p <= arguments.len(),
            program@.wf(),
            program@.has_scope(body),
            table@.fits(program@.variables.len()),
            arguments@.len() == program@.scope(body).inputs.len(),
            inputs == program@.scope(body).inputs,
            given == crate::access::indexes_view(arguments@),
            inferred_inputs(program@, table@.current, inputs, given, p as int, call) == Ok::<
                Map<VariableId, DataType>,
                ProblemView,
            >(type_params@),
        decreases arguments.len() - p,
    {
        let parameter = program.borrow_scope(body).get_input(p);
        assert(program@.scope(body).ids_below(program@.variables.len()));
        let instance = table.convert(parameter);
        assert(program@.has_variable(instance));
        if !crate::template::resolve_template_parameters(
            program.borrow_variable(instance).borrow_data_type(),
            &arguments[p].0.data_type,
            &mut type_params,
        ) {
            proof {
                lemma_inferred_inputs_fail(
                    program@,
                    table@.current,
                    inputs,
                    given,
                    p + 1,
                    arguments@.len() as int,
                    call,
                );
            }
            return Err(
                crate::problem::no_bct(
                    call,
                    *program.borrow_variable(instance).get_definition(),
                    arguments[p].1,
                ),
            );
        }
        p += 1;
    }
    Ok(type_params)
}

/// Takes the types of the outputs of a call into account for the template parameters.
fn infer_from_outputs(
    program: &Program,
    table: &ResolverTable,
    body: ScopeId,
    outputs: &Vec<Output>,
    call: FilePosition,
    type_params: &mut crate::template::TypeTable,
) -> (r: Result<(), CompileProblem>)
    requires
        program@.wf(),
        program@.has_scope(body),
        table@.fits(program@.variables.len()),
        outputs@.len() == program@.scope(body).outputs.len(),
    ensures
        match inferred_outputs(
            program@,
            table@.current,
            program@.scope(body).outputs,
            outputs_view(outputs@),
            outputs@.len() as int,
            call,
            old(type_params)@,
        ) {
            Ok(bindings) => r is Ok && final(type_params)@ == bindings,
            Err(problem) => r is Err && r.unwrap_err()@ == problem,
        },
{
    let ghost results = program@.scope(body).outputs;
    let ghost wanted = outputs_view(outputs@);
    let ghost start = type_params@;
    let mut q: usize = 0;
    while q < outputs.len()
        invariant
            q <= outputs.len(),
            program@.wf(),
            program@.has_scope(body),
            table@.fits(program@.variables.len()),
            outputs@.len() == program@.scope(body).outputs.len(),
            results == program@.scope(body).outputs,
            wanted == outputs_view(outputs@),
            start == old(type_params)@,
            inferred_outputs(program@, table@.current, results, wanted, q as int, call, start)
                == Ok::<Map<VariableId, DataType>, ProblemView>(type_params@),
        decreases outputs.len() - q,
    {
        let parameter = program.borrow_scope(body).get_output(q);
        assert(program@.scope(body).ids_below(program@.variables.len()));
        let instance = table.convert(parameter);
        assert(program@.has_variable(instance));
        assert(wanted[q as int] == (output_view(outputs@[q as int].0), outputs@[q as int].1));
        match &outputs[q].0 {
            Some((_, target_type)) => {
                if !crate::template::resolve_template_parameters(
                    program.borrow_variable(instance).borrow_data_type(),
                    target_type,
                    type_params,
                ) {
                    proof {
                        lemma_inferred_outputs_fail(
                            program@,
                            table@.current,
                            results,
                            wanted,
                            q + 1,
                            outputs@.len() as int,
                            call,
                            start,
                        );
                    }
                    return Err(
                        crate::problem::no_bct(
                            call,
                            *program.borrow_variable(instance).get_definition(),
                            outputs[q].1,
                        ),
                    );
                }
            },
            None => {},
        }
        q += 1;
    }
    Ok(())
}

/// Binds the inputs of a call, one after the other.
fn bind_inputs(program: &mut Program, table: &mut ResolverTable, body: ScopeId, arguments: &Vec<crate::access::Index>) -> (r:
    Result<(), CompileProblem>)
    requires
        old(program)@.wf(),
        old(program)@.has_scope(body),
        old(table)@.current.substitutions_resolved(),
        arguments@.len() == old(program)@.scope(body).inputs.len(),
        forall|k: int| 0 <= k < arguments@.len() ==> (#[trigger] arguments@[k]).0@.residual_resolved(),
    ensures
        match inputs_bound(
            old(program)@,
            old(table)@,
            old(program)@.scope(body).inputs,
            crate::access::indexes_view(arguments@),
            arguments@.len() as int,
        ) {
            Ok((after, after_table)) => r is Ok && final(program)@ == after && final(table)@
                == after_table,
            Err(problem) => r is Err && r.unwrap_err()@ == problem,
        },
        final(program)@.wf(),
        final(program)@.extends(old(program)@),
        final(program)@.scopes == old(program)@.scopes,
        final(program)@.variables.len() == old(program)@.variables.len(),
        final(table)@.stack == old(table)@.stack,
        final(table)@.current.conversions == old(table)@.current.conversions,
        final(table)@.current.substitutions_resolved(),
{
    let ghost inputs = program@.scope(body).inputs;
    let ghost given = crate::access::indexes_view(arguments@);
    let mut a: usize = 0;
    while a < arguments.len()
        invariant
            a <= arguments.len(),
            program@.wf(),
            program@.extends(old(program)@),
            program@.scopes == old(program)@.scopes,
            program@.variables.len() == old(program)@.variables.len(),
            table@.stack == old(table)@.stack,
            table@.current.conversions == old(table)@.current.conversions,
            table@.current.substitutions_resolved(),
            arguments@.len() == inputs.len(),
            inputs == old(program)@.scope(body).inputs,
            given == crate::access::indexes_view(arguments@),
            old(program)@.has_scope(body),
            forall|k: int|
                0 <= k < arguments@.len() ==> (#[trigger] arguments@[k]).0@.residual_resolved(),
            inputs_bound(old(program)@, old(table)@, inputs, given, a as int) == Ok::<
                (ProgramView, TableView),
                ProblemView,
            >((program@, table@)),
        decreases arguments.len() - a,
    {
        let parameter = program.borrow_scope(body).get_input(a);
        match bind_input(program, table, parameter, &arguments[a].0, arguments[a].1) {
            Ok(()) => {},
            Err(problem) => {
                proof {
                    lemma_inputs_bound_fail(
                        old(program)@,
                        old(table)@,
                        inputs,
                        given,
                        a + 1,
                        arguments@.len() as int,
                    );
                }
                return Err(problem);
            },
        }
        a += 1;
    }
    Ok(())
}

/// Binds the outputs of a call, one after the other.
fn bind_outputs(program: &Program, table: &mut ResolverTable, body: ScopeId, outputs: &Vec<Output>) -> (r:
    Option<VariableId>)
    requires
        program@.wf(),
        program@.has_scope(body),
        old(table)@.fits(program@.variables.len()),
        outputs@.len() == program@.scope(body).outputs.len(),
        forall|k: int|
            0 <= k < outputs@.len() && (#[trigger] outputs@[k]).0 is Some
                ==> outputs@[k].0.unwrap().0@.resolved(),
    ensures
        outputs_bound(
            old(table)@,
            program@.scope(body).outputs,
            outputs_view(outputs@),
            outputs@.len() as int,
        ) == (final(table)@, r),
        final(table)@.stack == old(table)@.stack,
        final(table)@.current.conversions == old(table)@.current.conversions,
        final(table)@.current.substitutions_resolved(),
        r is Some ==> program@.has_variable(r.unwrap()),
{
    let ghost results = program@.scope(body).outputs;
    let ghost wanted = outputs_view(outputs@);
    let mut inline_output: Option<VariableId> = None;
    let mut b: usize = 0;
    while b < outputs.len()
        invariant
            b <= outputs.len(),
            program@.wf(),
            program@.has_scope(body),
            outputs@.len() == program@.scope(body).outputs.len(),
            results == program@.scope(body).outputs,
            wanted == outputs_view(outputs@),
            old(table)@.images_below(program@.variables.len()),
            table@.stack == old(table)@.stack,
            table@.current.conversions == old(table)@.current.conversions,
            table@.current.substitutions_resolved(),
            inline_output is Some ==> program@.has_variable(inline_output.unwrap()),
            forall|k: int|
                0 <= k < outputs@.len() && (#[trigger] outputs@[k]).0 is Some
                    ==> outputs@[k].0.unwrap().0@.resolved(),
            outputs_bound(old(table)@, results, wanted, b as int) == (table@, inline_output),
        decreases outputs.len() - b,
    {
        let parameter = program.borrow_scope(body).get_output(b);
        assert(wanted[b as int] == (output_view(outputs@[b as int].0), outputs@[b as int].1));
        assert(program@.scope(body).ids_below(program@.variables.len()));
        match bind_output(table, parameter, &outputs[b].0) {
            Some(instance) => {
                inline_output = Some(instance);
            },
            None => {},
        }
        b += 1;
    }
    inline_output
}

/// Prepares the instance of the scope `body` for a call: copies it,
/// infers and writes the template parameters, resolves the types of the
/// copy, and binds the inputs and the outputs.
///
/// The result is the copy, and the instance that holds the value of the call.
pub fn prepare_instance(
    program: &mut Program,
    table: &mut ResolverTable,
    body: ScopeId,
    caller: ScopeId,
    arguments: &Vec<crate::access::Index>,
    outputs: &Vec<Output>,
    call: FilePosition,
) -> (r: Result<(ScopeId, Option<VariableId>), CompileProblem>)
    requires
        old(program)@.wf(),
        old(program)@.has_scope(body),
        old(program)@.has_scope(caller),
        old(table)@.fits(old(program)@.variables.len()),
        arguments@.len() == old(program)@.scope(body).inputs.len(),
        outputs@.len() == old(program)@.scope(body).outputs.len(),
        forall|k: int| 0 <= k < arguments@.len() ==> (#[trigger] arguments@[k]).0@.residual_resolved(),
        forall|k: int|
            0 <= k < outputs@.len() && (#[trigger] outputs@[k]).0 is Some
                ==> outputs@[k].0.unwrap().0@.resolved(),
    ensures
        match prepared(
            old(program)@,
            old(table)@,
            body,
            caller,
            crate::access::indexes_view(arguments@),
            outputs_view(outputs@),
            call,
        ) {
            Ok(instance) => {
                &&& r == Ok::<(ScopeId, Option<VariableId>), CompileProblem>(
                    (instance.copy, instance.inline),
                )
                &&& final(program)@ == instance.program
                &&& final(table)@ == instance.table
            },
            Err(problem) => r is Err && r.unwrap_err()@ == problem,
        },
        final(program)@.wf(),
        final(program)@.extends(old(program)@),
        final(program)@.keeps_bodies_resolved(old(program)@),
        final(table)@.stack == old(table)@.stack,
        final(table)@.fits(final(program)@.variables.len()),
        r is Ok ==> final(program)@.has_scope(r.unwrap().0),
        r is Ok ==> r.unwrap().0.0 == old(program)@.scopes.len(),
        r is Ok && r.unwrap().1 is Some ==> final(program)@.has_variable(r.unwrap().1.unwrap()),
        r is Ok ==> final(program)@.scope(body).body == old(program)@.scope(body).body,
{
    let ghost before = program@;
    let copied = crate::copier::instantiate_scope(program, table, body, Some(caller));
    proof {
        crate::simplifier::lemma_bodies_stay(before, program@);
    }
    let copy = match copied {
        Ok(copy) => copy,
        Err(problem) => {
            return Err(problem);
        },
    };
    let mut type_params = match infer_from_inputs(program, table, body, arguments, call) {
        Ok(type_params) => type_params,
        Err(problem) => {
            return Err(problem);
        },
    };
    match infer_from_outputs(program, table, body, outputs, call, &mut type_params) {
        Ok(()) => {},
        Err(problem) => {
            return Err(problem);
        },
    }
    crate::template::write_bindings(program, &type_params);
    crate::template::resolve_dynamic_data_types(program, copy);
    match bind_inputs(program, table, body, arguments) {
        Ok(()) => {},
        Err(problem) => {
            return Err(problem);
        },
    }
    let inline_output = bind_outputs(program, table, body, outputs);
    Ok((copy, inline_output))
}

} // verus!
