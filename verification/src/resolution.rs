//! What the resolution of calls in three-address form does, as a function
//! of the program and the conversion table.

use crate::access::problem_within;
use crate::binary::problem_at;
use crate::binding::unification_problem;
use crate::copier::convertible;
use crate::data_type::DataType;
use crate::func_call::{accesses_view, AccessView, CallView, VarAccess};
use crate::ids::{ScopeId, VariableId};
use crate::known_data::{FunctionData, Value};
use crate::position::FilePosition;
use crate::problem::{CompileProblem, problem_in_context, ProblemKind, ProblemView};
use crate::program::{Program, ProgramView};
use crate::resolver::{access_type, ScopeResolver};
use crate::table::TableView;
use crate::template::{
    constrained,
    resolve_template_parameters,
    resolve_templated_type,
    templated,
    TypeTable,
};
use crate::variable::VariableView;
use vstd::prelude::*;

verus! {

/// The state of a pass over calls.
pub struct Resolving {
    pub program: ProgramView,
    pub table: TableView,
}

/// The bindings of the template parameters after the types of the first
/// `count` arguments were unified into them, one after the other.
pub open spec fn unified_types(
    program: ProgramView,
    parameters: Seq<VariableId>,
    arguments: Seq<AccessView>,
    count: int,
    position: FilePosition,
    start: Map<VariableId, DataType>,
) -> Result<Map<VariableId, DataType>, ProblemView>
    decreases count,
{
    if count <= 0 {
        Ok(start)
    } else {
        match unified_types(program, parameters, arguments, count - 1, position, start) {
            Err(problem) => Err(problem),
            Ok(bindings) => match program.access_type(arguments[count - 1]) {
                None => Err(problem_at(ProblemKind::UnknownId, position)),
                Some(argument_type) => {
                    let parameter = program.variable(parameters[count - 1]);
                    match constrained(bindings, parameter.data_type, argument_type) {
                        Some(after) => Ok(after),
                        None => Err(unification_problem(position, parameter.definition, position)),
                    }
                },
            },
        }
    }
}

/// The types of the first `count` parameters, with the template
/// parameters that they name replaced by their bindings.
pub open spec fn templated_types(
    program: ProgramView,
    parameters: Seq<VariableId>,
    bindings: Map<VariableId, DataType>,
    count: int,
    position: FilePosition,
) -> Result<Seq<DataType>, ProblemView>
    decreases count,
{
    if count <= 0 {
        Ok(Seq::empty())
    } else {
        match templated_types(program, parameters, bindings, count - 1, position) {
            Err(problem) => Err(problem),
            Ok(types) => {
                let parameter = program.variable(parameters[count - 1]);
                match templated(parameter.data_type, bindings) {
                    Some(data_type) => Ok(types.push(data_type)),
                    None => Err(
                        problem_within(
                            ProblemKind::UnresolvedTemplateParameter,
                            position,
                            parameter.definition,
                        ),
                    ),
                }
            },
        }
    }
}

/// The types that the parameters are declared with.
pub open spec fn declared_types(program: ProgramView, parameters: Seq<VariableId>) -> Seq<DataType> {
    Seq::new(parameters.len(), |i: int| program.variable(parameters[i]).data_type)
}

/// The variable that names the instance `copy` of a function with the header `header`.
pub open spec fn instance_variable(copy: ScopeId, header: FilePosition) -> VariableView {
    VariableView::fresh(
        header,
        DataType::Function_,
        Some(Value::Function(FunctionData { body: copy, builtin: None, header })),
        true,
    )
}

/// What the resolution of one call into the scope `output` leaves.
///
/// The call is converted and checked against the function that it
/// calls. A builtin is called as it is: the arguments bind the template
/// parameters that its parameters name, inputs before outputs, and the
/// call is emitted with the types that the bindings give its parameters.
/// Any other function is instantiated under a table of its own.
pub open spec fn call_resolved(state: Resolving, call: CallView, output: ScopeId, fuel: nat) -> Result<
    Resolving,
    ProblemView,
>
    decreases fuel, 1int, 0int,
{
    let converted = state.table.current.convert_call(call);
    match ScopeResolver::call_fault(state.program, converted) {
        Some(problem) => Err(problem),
        None => {
            let data = state.program.variable(converted.function).initial_value->Function_0;
            let inputs = state.program.scope(data.body).inputs;
            let outputs = state.program.scope(data.body).outputs;
            if data.builtin is Some {
                match unified_types(
                    state.program,
                    inputs,
                    converted.inputs,
                    inputs.len() as int,
                    converted.position,
                    Map::empty(),
                ) {
                    Err(problem) => Err(problem),
                    Ok(from_inputs) => match unified_types(
                        state.program,
                        outputs,
                        converted.outputs,
                        outputs.len() as int,
                        converted.position,
                        from_inputs,
                    ) {
                        Err(problem) => Err(problem),
                        Ok(bindings) => match templated_types(
                            state.program,
                            inputs,
                            bindings,
                            inputs.len() as int,
                            converted.position,
                        ) {
                            Err(problem) => Err(problem),
                            Ok(input_types) => match templated_types(
                                state.program,
                                outputs,
                                bindings,
                                outputs.len() as int,
                                converted.position,
                            ) {
                                Err(problem) => Err(problem),
                                Ok(output_types) => match state.program.emitted(
                                    output,
                                    converted.function,
                                    converted,
                                    input_types,
                                    output_types,
                                ) {
                                    Err(problem) => Err(problem),
                                    Ok(program) => Ok(Resolving { program, ..state }),
                                },
                            },
                        },
                    },
                }
            } else if fuel == 0 {
                Err(problem_at(ProblemKind::NestingTooDeep, converted.position))
            } else {
                match function_instantiated(
                    Resolving { table: state.table.pushed(), ..state },
                    converted,
                    data,
                    output,
                    fuel,
                ) {
                    Err(problem) => Err(problem),
                    Ok(inside) => Ok(
                        Resolving { program: inside.program, table: inside.table.popped() },
                    ),
                }
            }
        },
    }
}

/// What the instantiation of a function for a converted call leaves,
/// within the table that was opened for it.
///
/// The body is copied without a parent. The arguments bind the template
/// parameters that the parameters of the copy name, inputs before
/// outputs; the bindings are written into the program, and the types of
/// the variables of the copy are resolved. The calls of the body are
/// resolved into the copy. A new variable that names the copy is added to
/// the scope `output`, and its call is emitted there, with the types that
/// the parameters of the copy have.
pub open spec fn function_instantiated(
    state: Resolving,
    call: CallView,
    data: FunctionData,
    output: ScopeId,
    fuel: nat,
) -> Result<Resolving, ProblemView>
    decreases fuel, 0int, 0int,
{
    let ids = state.program.scope(data.body).own_ids();
    if fuel == 0 {
        Err(problem_at(ProblemKind::NestingTooDeep, call.position))
    } else if !convertible(state.table.current, ids) {
        Err(problem_at(ProblemKind::DuplicateConversion, FilePosition::spec_placeholder()))
    } else {
        let table = state.table.with_instances(ids, state.program.variables.len());
        let copied = state.program.with_copy(data.body, None, table.current);
        let copy = ScopeId(state.program.scopes.len() as usize);
        let inputs = copied.scope(copy).inputs;
        let outputs = copied.scope(copy).outputs;
        match unified_types(copied, inputs, call.inputs, inputs.len() as int, call.position, Map::empty()) {
            Err(problem) => Err(problem),
            Ok(from_inputs) => match unified_types(
                copied,
                outputs,
                call.outputs,
                outputs.len() as int,
                call.position,
                from_inputs,
            ) {
                Err(problem) => Err(problem),
                Ok(bindings) => {
                    let written = copied.with_bindings(bindings);
                    let typed = written.after_resolving(
                        written.scope(copy).own_ids(),
                        written.scope(copy).own_ids().len() as int,
                    );
                    match calls_resolved(
                        Resolving { program: typed, table },
                        typed.scope(data.body).calls,
                        0,
                        copy,
                        (fuel - 1) as nat,
                    ) {
                        Err(problem) => Err(problem),
                        Ok(resolved) => {
                            let instance = VariableId(resolved.program.variables.len() as usize);
                            let named = resolved.program.plus_variable(
                                instance_variable(copy, data.header),
                            ).with_scope(
                                output,
                                crate::scope::ScopeView {
                                    intermediates: resolved.program.scope(output).intermediates.push(
                                        instance,
                                    ),
                                    ..resolved.program.scope(output)
                                },
                            );
                            match named.emitted(
                                output,
                                instance,
                                call,
                                declared_types(named, named.scope(copy).inputs),
                                declared_types(named, named.scope(copy).outputs),
                            ) {
                                Err(problem) => Err(problem),
                                Ok(program) => Ok(Resolving { program, table: resolved.table }),
                            }
                        },
                    }
                },
            },
        }
    }
}

/// What the resolution of the calls from `from` on leaves, one after the
/// other, each into the scope `destination`.
pub open spec fn calls_resolved(
    state: Resolving,
    calls: Seq<CallView>,
    from: int,
    destination: ScopeId,
    fuel: nat,
) -> Result<Resolving, ProblemView>
    decreases fuel, 2int, calls.len() - from,
{
    if from < 0 || from >= calls.len() {
        Ok(state)
    } else {
        match call_resolved(state, calls[from], destination, fuel) {
            Err(problem) => Err(problem),
            Ok(after) => calls_resolved(after, calls, from + 1, destination, fuel),
        }
    }
}

/// Once the first arguments do not unify, no longer list of arguments does.
proof fn lemma_unified_types_fail(
    program: ProgramView,
    parameters: Seq<VariableId>,
    arguments: Seq<AccessView>,
    failed: int,
    count: int,
    position: FilePosition,
    start: Map<VariableId, DataType>,
)
    requires
        0 < failed <= count,
        unified_types(program, parameters, arguments, failed, position, start) is Err,
    ensures
        unified_types(program, parameters, arguments, count, position, start) == unified_types(
            program,
            parameters,
            arguments,
            failed,
            position,
            start,
        ),
    decreases count - failed,
{
    if failed < count {
        lemma_unified_types_fail(program, parameters, arguments, failed, count - 1, position, start);
    }
}

/// Once the first parameters name a template parameter without a
/// binding, every longer list of parameters does.
proof fn lemma_templated_types_fail(
    program: ProgramView,
    parameters: Seq<VariableId>,
    bindings: Map<VariableId, DataType>,
    failed: int,
    count: int,
    position: FilePosition,
)
    requires
        0 < failed <= count,
        templated_types(program, parameters, bindings, failed, position) is Err,
    ensures
        templated_types(program, parameters, bindings, count, position) == templated_types(
            program,
            parameters,
            bindings,
            failed,
            position,
        ),
    decreases count - failed,
{
    if failed < count {
        lemma_templated_types_fail(program, parameters, bindings, failed, count - 1, position);
    }
}

/// Unifies the types of the arguments into the template parameters that
/// the types of the parameters name.
pub fn unify_types(
    program: &Program,
    parameters: &Vec<VariableId>,
    arguments: &Vec<VarAccess>,
    position: FilePosition,
    type_params: &mut TypeTable,
) -> (r: Result<(), CompileProblem>)
    requires
        parameters@.len() == arguments@.len(),
        forall|i: int| 0 <= i < parameters@.len() ==> program@.has_variable(#[trigger] parameters@[i]),
    ensures
        match unified_types(
            program@,
            parameters@,
            accesses_view(arguments@),
            arguments@.len() as int,
            position,
            old(type_params)@,
        ) {
            Ok(bindings) => r is Ok && final(type_params)@ == bindings,
            Err(problem) => r is Err && r.unwrap_err()@ == problem,
        },
{
    let ghost views = accesses_view(arguments@);
    let ghost start = type_params@;
    let mut i: usize = 0;
    while i < arguments.len()
        invariant
            i <= arguments.len(),
            parameters@.len() == arguments@.len(),
            forall|k: int|
                0 <= k < parameters@.len() ==> program@.has_variable(#[trigger] parameters@[k]),
            views == accesses_view(arguments@),
            start == old(type_params)@,
            unified_types(program@, parameters@, views, i as int, position, start) == Ok::<
                Map<VariableId, DataType>,
                ProblemView,
            >(type_params@),
        decreases arguments.len() - i,
    {
        assert(views[i as int] == arguments@[i as int]@);
        let parameter = parameters[i];
        let argument_type = match access_type(program, &arguments[i]) {
            Some(argument_type) => argument_type,
            None => {
                proof {
                    lemma_unified_types_fail(
                        program@,
                        parameters@,
                        views,
                        i + 1,
                        arguments@.len() as int,
                        position,
                        start,
                    );
                }
                return Err(CompileProblem::new(ProblemKind::UnknownId, position));
            },
        };
        if !resolve_template_parameters(
            program.borrow_variable(parameter).borrow_data_type(),
            &argument_type,
            type_params,
        ) {
            proof {
                lemma_unified_types_fail(
                    program@,
                    parameters@,
                    views,
                    i + 1,
                    arguments@.len() as int,
                    position,
                    start,
                );
            }
            return Err(
                crate::problem::no_bct(
                    position,
                    *program.borrow_variable(parameter).get_definition(),
                    position,
                ),
            );
        }
        i += 1;
    }
    Ok(())
}

/// Reads the types of the parameters off the bindings of the template parameters.
pub fn bound_types(program: &Program, parameters: &Vec<VariableId>, type_params: &TypeTable, position: FilePosition) -> (r:
    Result<Vec<DataType>, CompileProblem>)
    requires
        forall|i: int| 0 <= i < parameters@.len() ==> program@.has_variable(#[trigger] parameters@[i]),
    ensures
        match templated_types(
            program@,
            parameters@,
            type_params@,
            parameters@.len() as int,
            position,
        ) {
            Ok(types) => r is Ok && r.unwrap()@ == types,
            Err(problem) => r is Err && r.unwrap_err()@ == problem,
        },
        r is Ok ==> r.unwrap()@.len() == parameters@.len(),
{
    let mut types: Vec<DataType> = Vec::new();
    let mut i: usize = 0;
    while i < parameters.len()
        invariant
            i <= parameters.len(),
            types@.len() == i,
            forall|k: int|
                0 <= k < parameters@.len() ==> program@.has_variable(#[trigger] parameters@[k]),
            templated_types(program@, parameters@, type_params@, i as int, position) == Ok::<
                Seq<DataType>,
                ProblemView,
            >(types@),
        decreases parameters.len() - i,
    {
        let parameter = parameters[i];
        match resolve_templated_type(
            program.borrow_variable(parameter).borrow_data_type(),
            type_params,
        ) {
            Some(resolved) => {
                types.push(resolved);
            },
            None => {
                proof {
                    lemma_templated_types_fail(
                        program@,
                        parameters@,
                        type_params@,
                        i + 1,
                        parameters@.len() as int,
                        position,
                    );
                }
                return Err(
                    problem_in_context(
                        ProblemKind::UnresolvedTemplateParameter,
                        position,
                        *program.borrow_variable(parameter).get_definition(),
                    ),
                );
            },
        }
        i += 1;
    }
    Ok(types)
}

/// Reads the types that the parameters are declared with.
pub fn read_types(program: &Program, parameters: &Vec<VariableId>) -> (r: Vec<DataType>)
    requires
        forall|i: int| 0 <= i < parameters@.len() ==> program@.has_variable(#[trigger] parameters@[i]),
    ensures
        r@ == declared_types(program@, parameters@),
{
    let mut types: Vec<DataType> = Vec::new();
    let mut i: usize = 0;
    while i < parameters.len()
        invariant
            i <= parameters.len(),
            types@.len() == i,
            forall|k: int|
                0 <= k < parameters@.len() ==> program@.has_variable(#[trigger] parameters@[k]),
            forall|k: int| 0 <= k < i ==> #[trigger] types@[k] == program@.variable(
                parameters@[k],
            ).data_type,
        decreases parameters.len() - i,
    {
        types.push(program.borrow_variable(parameters[i]).borrow_data_type().clone());
        i += 1;
    }
    assert(types@ =~= declared_types(program@, parameters@));
    types
}

} // verus!
