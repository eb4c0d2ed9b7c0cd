//! Resolution of calls in three-address form: the types of template
//! parameters are inferred from the arguments, generic bodies are
//! instantiated, and casts are put around arguments whose types differ
//! from those of the parameters.

use crate::copier::{copy_scope, instantiate_scope};
use crate::data_type::DataType;
use crate::emit::emit_call;
use crate::func_call::{accesses_view, AccessView, CallView, FuncCall, VarAccess};
use crate::ids::{ScopeId, VariableId};
use crate::known_data::{FunctionData, KnownData};
use crate::position::FilePosition;
use crate::problem::{
    CompileProblem,
    problem_in_context,
    ProblemKind,
    wrong_number_of_inputs,
    wrong_number_of_outputs,
};
use crate::program::{Program, ProgramView};
use crate::resolution::{
    bound_types,
    call_resolved,
    calls_resolved,
    function_instantiated,
    read_types,
    Resolving,
    templated_types,
    unified_types,
    unify_types,
};
use crate::scope::calls_view;
use crate::table::{FrameView, lemma_push_pop_round_trip, ResolverTable, TableView};
use crate::template::{resolve_dynamic_data_types, TypeTable, write_bindings};
use crate::variable::Variable;
use vstd::prelude::*;

verus! {

/// The state of a pass over calls: the conversion table.
#[derive(Debug)]
pub struct ScopeResolver {
    pub table: ResolverTable,
}

impl FrameView {
    /// The access with its base and each of its indexes converted.
    pub open spec fn convert_access(self, access: AccessView) -> AccessView {
        AccessView {
            base: self.convert(access.base),
            indexes: Seq::new(access.indexes.len(), |i: int| self.convert(access.indexes[i])),
        }
    }

    /// The call with its function and every access converted.
    pub open spec fn convert_call(self, call: CallView) -> CallView {
        CallView {
            function: self.convert(call.function),
            position: call.position,
            inputs: Seq::new(call.inputs.len(), |i: int| self.convert_access(call.inputs[i])),
            outputs: Seq::new(call.outputs.len(), |i: int| self.convert_access(call.outputs[i])),
        }
    }
}

impl ProgramView {
    /// The type of what an access selects: the type of the base without
    /// as many array layers as there are indexes. `None` where the program
    /// does not hold the base.
    pub open spec fn access_type(self, access: AccessView) -> Option<DataType> {
        if self.has_variable(access.base) {
            Some(self.variable(access.base).data_type.unwrapped(access.indexes.len()))
        } else {
            None
        }
    }

    /// Each of the first `count` accesses selects something of the type
    /// that stands at its place in `types`.
    pub open spec fn typed(self, accesses: Seq<AccessView>, types: Seq<DataType>, count: int) -> bool {
        forall|i: int|
            0 <= i < count ==> self.access_type(#[trigger] accesses[i]) == Some(types[i])
    }

    /// No statement was added or changed between `before` and this
    /// program: the scopes of `before` have the statements they had, and
    /// the scopes that were added have none.
    pub open spec fn statements_untouched(self, before: ProgramView) -> bool {
        &&& before.scopes.len() <= self.scopes.len()
        &&& forall|s: int|
            0 <= s < before.scopes.len() ==> (#[trigger] self.scopes[s]).body
                == before.scopes[s].body
        &&& forall|s: int|
            before.scopes.len() <= s < self.scopes.len() ==> (#[trigger] self.scopes[s]).body.len()
                == 0
    }

    /// Among the calls of the scope `output` from `from` on, there is one
    /// at the position `position` with as many inputs and outputs as given.
    pub open spec fn holds_call(self, output: ScopeId, from: int, position: FilePosition, inputs: nat, outputs: nat) -> bool {
        exists|at: int|
            {
                &&& from <= at < self.scope(output).calls.len()
                &&& (#[trigger] self.scope(output).calls[at]).position == position
                &&& self.scope(output).calls[at].inputs.len() == inputs
                &&& self.scope(output).calls[at].outputs.len() == outputs
            }
    }

    /// Between `before` and this program, calls were only added, and only
    /// to the scope `destination` and to scopes that `before` did not hold.
    pub open spec fn calls_appended(self, before: ProgramView, destination: ScopeId) -> bool {
        &&& before.scopes.len() <= self.scopes.len()
        &&& forall|s: int|
            0 <= s < before.scopes.len() && s != destination.0 ==> (#[trigger] self.scopes[s]).calls
                == before.scopes[s].calls
        &&& before.has_scope(destination) ==> before.scope(destination).calls.is_prefix_of(
            self.scope(destination).calls,
        )
    }
}

/// The type of what an access selects.
pub fn access_type(program: &Program, access: &VarAccess) -> (r: Option<DataType>)
    ensures
        r == program@.access_type(access@),
{
    if program.has_variable(access.get_base()) {
        Some(
            program.borrow_variable(access.get_base()).borrow_data_type().clone_and_unwrap(
                access.borrow_indexes().len(),
            ),
        )
    } else {
        None
    }
}

/// Adds to `scope` the call that copies `from` to `to`, widening it to the type of `to`.
pub fn create_cast(program: &mut Program, scope: ScopeId, from: VarAccess, to: VarAccess, position: FilePosition) -> (r:
    Result<(), CompileProblem>)
    requires
        old(program)@.wf(),
        old(program)@.has_scope(scope),
    ensures
        final(program)@.wf(),
        final(program)@.extends(old(program)@),
        final(program)@.variables == old(program)@.variables,
        r is Ok == old(program)@.builtins is Some,
        r is Err ==> final(program)@ == old(program)@ && r.unwrap_err()@
            == crate::binary::problem_at(ProblemKind::MissingBuiltin, position),
        r is Ok ==> final(program)@ == old(program)@.with_scope(
            scope,
            crate::scope::ScopeView {
                calls: old(program)@.scope(scope).calls.push(
                    CallView {
                        function: old(program)@.builtins.unwrap().copy_func,
                        position,
                        inputs: seq![from@],
                        outputs: seq![to@],
                    },
                ),
                ..old(program)@.scope(scope)
            },
        ),
{
    let copy_func = match program.get_builtins() {
        Some(builtins) => builtins.copy_func,
        None => {
            return Err(CompileProblem::new(ProblemKind::MissingBuiltin, position));
        },
    };
    let mut call = FuncCall::new(copy_func, position);
    call.add_input(from);
    call.add_output(to);
    assert(call@.inputs =~= seq![from@]);
    assert(call@.outputs =~= seq![to@]);
    program.add_func_call(scope, call);
    Ok(())
}

impl ScopeResolver {
    /// A pass that starts with an empty table.
    pub fn new() -> (r: ScopeResolver)
        ensures
            r.table@ == (TableView { current: FrameView::empty(), stack: Seq::empty() }),
    {
        ScopeResolver { table: ResolverTable::new() }
    }

    /// The state fits the program.
    pub open spec fn valid_for(&self, program: ProgramView) -> bool {
        program.wf() && self.table@.images_below(program.variables.len())
    }

    /// Saves the table in force.
    pub fn push_table(&mut self)
        ensures
            final(self).table@ == old(self).table@.pushed(),
    {
        self.table.push_table();
    }

    /// Puts the table saved last in force again.
    pub fn pop_table(&mut self)
        requires
            old(self).table@.stack.len() > 0,
        ensures
            final(self).table@ == old(self).table@.popped(),
    {
        self.table.pop_table();
    }

    /// Gives `from` the image `to`.
    pub fn add_conversion(&mut self, from: VariableId, to: VariableId)
        requires
            !old(self).table@.current.conversions.contains_key(from),
        ensures
            final(self).table@ == old(self).table@.with_conversion(from, to),
    {
        self.table.add_conversion(from, to);
    }

    /// The image of `from`, or `from` itself where it has none.
    pub fn convert(&self, from: VariableId) -> (r: VariableId)
        ensures
            r == self.table@.current.convert(from),
    {
        self.table.convert(from)
    }

    /// Converts the base and the indexes of an access.
    pub fn convert_var_access(&self, access: &VarAccess) -> (r: VarAccess)
        ensures
            r@ == self.table@.current.convert_access(access@),
    {
        let mut new_access = VarAccess::new(self.convert(access.get_base()));
        let indexes = access.borrow_indexes();
        let mut i: usize = 0;
        while i < indexes.len()
            invariant
                i <= indexes.len(),
                indexes@ == access@.indexes,
                new_access@.base == self.table@.current.convert(access@.base),
                new_access@.indexes == Seq::new(
                    i as nat,
                    |k: int| self.table@.current.convert(access@.indexes[k]),
                ),
            decreases indexes.len() - i,
        {
            new_access.add_index(self.convert(indexes[i]));
            assert(new_access@.indexes =~= Seq::new(
                (i + 1) as nat,
                |k: int| self.table@.current.convert(access@.indexes[k]),
            ));
            i += 1;
        }
        assert(new_access@.indexes =~= self.table@.current.convert_access(access@).indexes);
        new_access
    }

    /// Converts the function and every access of a call.
    pub fn convert_func_call(&self, call: &FuncCall) -> (r: FuncCall)
        ensures
            r@ == self.table@.current.convert_call(call@),
    {
        let mut result = FuncCall::new(self.convert(call.get_function()), *call.get_position());
        let inputs = call.borrow_inputs();
        let mut i: usize = 0;
        while i < inputs.len()
            invariant
                i <= inputs.len(),
                accesses_view(inputs@) == call@.inputs,
                result@.function == self.table@.current.convert(call@.function),
                result@.position == call@.position,
                result@.outputs == Seq::<AccessView>::empty(),
                result@.inputs == Seq::new(
                    i as nat,
                    |k: int| self.table@.current.convert_access(call@.inputs[k]),
                ),
            decreases inputs.len() - i,
        {
            assert(call@.inputs[i as int] == inputs@[i as int]@);
            result.add_input(self.convert_var_access(&inputs[i]));
            assert(result@.inputs =~= Seq::new(
                (i + 1) as nat,
                |k: int| self.table@.current.convert_access(call@.inputs[k]),
            ));
            i += 1;
        }
        let outputs = call.borrow_outputs();
        let mut j: usize = 0;
        while j < outputs.len()
            invariant
                j <= outputs.len(),
                accesses_view(outputs@) == call@.outputs,
                result@.function == self.table@.current.convert(call@.function),
                result@.position == call@.position,
                result@.inputs == Seq::new(
                    call@.inputs.len(),
                    |k: int| self.table@.current.convert_access(call@.inputs[k]),
                ),
                result@.outputs == Seq::new(
                    j as nat,
                    |k: int| self.table@.current.convert_access(call@.outputs[k]),
                ),
            decreases outputs.len() - j,
        {
            assert(call@.outputs[j as int] == outputs@[j as int]@);
            result.add_output(self.convert_var_access(&outputs[j]));
            assert(result@.outputs =~= Seq::new(
                (j + 1) as nat,
                |k: int| self.table@.current.convert_access(call@.outputs[k]),
            ));
            j += 1;
        }
        assert(result@.inputs =~= self.table@.current.convert_call(call@).inputs);
        assert(result@.outputs =~= self.table@.current.convert_call(call@).outputs);
        result
    }

    /// Copies the scope `source` under the table in force: each variable
    /// that belongs to it is cloned as it is.
    pub fn copy_scope(&mut self, program: &mut Program, source: ScopeId, parent: Option<ScopeId>) -> (r:
        Result<ScopeId, CompileProblem>)
        requires
            old(self).valid_for(old(program)@),
            old(program)@.has_scope(source),
            parent is Some ==> old(program)@.has_scope(parent.unwrap()),
        ensures
            final(self).valid_for(final(program)@),
            final(program)@.extends(old(program)@),
            final(self).table@.stack == old(self).table@.stack,
            r is Ok == crate::copier::convertible(
                old(self).table@.current,
                old(program)@.scope(source).own_ids(),
            ),
            r is Err ==> r.unwrap_err()@ == crate::binary::problem_at(
                ProblemKind::DuplicateConversion,
                FilePosition::spec_placeholder(),
            ),
            r is Ok ==> {
                &&& r.unwrap().0 == old(program)@.scopes.len()
                &&& final(self).table@ == old(self).table@.with_instances(
                    old(program)@.scope(source).own_ids(),
                    old(program)@.variables.len(),
                )
                &&& final(program)@ == old(program)@.with_clone(
                    source,
                    parent,
                    final(self).table@.current,
                )
                &&& forall|k: int|
                    0 <= k < old(program)@.scope(source).own_ids().len() ==> #[trigger] final(program)@.variables[old(program)@.variables.len() + k]
                        == old(program)@.variable(old(program)@.scope(source).own_ids()[k])
                &&& crate::copier::copied(
                    old(program)@,
                    final(program)@,
                    source,
                    parent,
                    final(self).table@.current,
                )
                &&& final(self).table@.converts_also(
                    old(self).table@,
                    old(program)@.scope(source).own_ids(),
                    old(program)@.variables.len(),
                )
            },
    {
        copy_scope(program, &mut self.table, source, parent)
    }

    /// Gives the variable that `target` names the type `real_type`.
    pub fn resolve_automatic_type(&self, program: &mut Program, target: &VarAccess, real_type: DataType)
        requires
            old(program)@.has_variable(target@.base),
            target@.indexes.len() == 0,
        ensures
            final(program)@ == old(program)@.with_variable(
                target@.base,
                crate::variable::VariableView {
                    data_type: real_type,
                    ..old(program)@.variable(target@.base)
                },
            ),
            old(program)@.wf() ==> final(program)@.wf(),
            final(program)@.extends(old(program)@),
    {
        program.set_data_type(target.get_base(), real_type);
    }
}

/// Copies a list of calls.
pub fn clone_calls(calls: &Vec<FuncCall>) -> (r: Vec<FuncCall>)
    ensures
        calls_view(r@) == calls_view(calls@),
{
    let mut copies: Vec<FuncCall> = Vec::new();
    let mut i: usize = 0;
    while i < calls.len()
        invariant
            i <= calls.len(),
            copies@.len() == i,
            forall|k: int| 0 <= k < i ==> (#[trigger] copies@[k])@ == calls@[k]@,
        decreases calls.len() - i,
    {
        copies.push((&calls[i]).clone());
        i += 1;
    }
    assert(calls_view(copies@) =~= calls_view(calls@));
    copies
}

impl ScopeResolver {
    /// The problem that `resolve_function_call` finds before it changes
    /// anything, if there is one: the function is no variable of the
    /// program, or does not hold a function from the start, or its body is
    /// no scope of the program, or the call gives a number of inputs or
    /// outputs that the function does not declare.
    pub open spec fn call_fault(program: ProgramView, call: CallView) -> Option<
        crate::problem::ProblemView,
    > {
        if !program.has_variable(call.function) {
            Some(crate::binary::problem_at(ProblemKind::UnknownId, call.position))
        } else {
            let variable = program.variable(call.function);
            match variable.initial_value {
                crate::known_data::Value::Function(data) => if !program.has_scope(data.body) {
                    Some(crate::binary::problem_at(ProblemKind::UnknownId, call.position))
                } else if program.scope(data.body).inputs.len() != call.inputs.len() {
                    Some(
                        crate::access::problem_within(
                            ProblemKind::WrongNumberOfInputs {
                                expected: program.scope(data.body).inputs.len() as usize,
                                provided: call.inputs.len() as usize,
                            },
                            call.position,
                            data.header,
                        ),
                    )
                } else if program.scope(data.body).outputs.len() != call.outputs.len() {
                    Some(
                        crate::access::problem_within(
                            ProblemKind::WrongNumberOfOutputs {
                                expected: program.scope(data.body).outputs.len() as usize,
                                provided: call.outputs.len() as usize,
                            },
                            call.position,
                            data.header,
                        ),
                    )
                } else {
                    None
                },
                _ => Some(
                    crate::access::problem_within(
                        ProblemKind::VagueFunction,
                        call.position,
                        variable.definition,
                    ),
                ),
            }
        }
    }

    /// The state of the pass, with the program as it is.
    pub open spec fn state(&self, program: ProgramView) -> Resolving {
        Resolving { program, table: self.table@ }
    }

    /// Resolves one call of the scope that is being resolved, and adds
    /// what it resolves to to the scope `output`.
    ///
    /// The call is converted. Its function must hold a function from the
    /// start. A builtin is called as it is, with its parameter types read
    /// off the bindings that the types of the arguments give to the
    /// template parameters. Any other function is copied under a table of
    /// its own, the bindings are written into the copy, the calls of its
    /// body are resolved into the copy, and a new function variable for
    /// the copy is called.
    ///
    /// Whatever the outcome, the table is what it was before.
    pub fn resolve_function_call(
        &mut self,
        program: &mut Program,
        old_func_call: &FuncCall,
        output: ScopeId,
        fuel: usize,
    ) -> (r: Result<(), CompileProblem>)
        requires
            old(self).valid_for(old(program)@),
            old(program)@.has_scope(output),
        ensures
            final(self).valid_for(final(program)@),
            final(program)@.extends(old(program)@),
            final(self).table@ == old(self).table@,
            final(program)@.calls_appended(old(program)@, output),
            final(program)@.statements_untouched(old(program)@),
            r is Ok ==> final(program)@.holds_call(
                output,
                old(program)@.scope(output).calls.len() as int,
                old_func_call@.position,
                old_func_call@.inputs.len(),
                old_func_call@.outputs.len(),
            ),
            match call_resolved(old(self).state(old(program)@), old_func_call@, output, fuel as nat) {
                Ok(after) => r is Ok && final(self).state(final(program)@) == after,
                Err(problem) => r is Err && r.unwrap_err()@ == problem,
            },
            Self::call_fault(
                old(program)@,
                old(self).table@.current.convert_call(old_func_call@),
            ) is Some ==> final(program)@ == old(program)@,
        decreases fuel, 1int, 0int,
    {
        let new_func_call = self.convert_func_call(old_func_call);
        let position = *new_func_call.get_position();
        let function_id = new_func_call.get_function();
        if !program.has_variable(function_id) {
            return Err(CompileProblem::new(ProblemKind::UnknownId, position));
        }
        let func_target: FunctionData = match program.borrow_variable(
            function_id,
        ).borrow_initial_value() {
            KnownData::Function(data) => *data,
            _ => {
                return Err(
                    problem_in_context(
                        ProblemKind::VagueFunction,
                        position,
                        *program.borrow_variable(function_id).get_definition(),
                    ),
                );
            },
        };
        let body = func_target.get_body();
        if !program.has_scope(body) {
            return Err(CompileProblem::new(ProblemKind::UnknownId, position));
        }
        let input_count: usize = program.borrow_scope(body).borrow_inputs().len();
        if input_count != new_func_call.borrow_inputs().len() {
            return Err(
                wrong_number_of_inputs(
                    position,
                    *func_target.get_header(),
                    new_func_call.borrow_inputs().len(),
                    input_count,
                ),
            );
        }
        let output_count: usize = program.borrow_scope(body).borrow_outputs().len();
        if output_count != new_func_call.borrow_outputs().len() {
            return Err(
                wrong_number_of_outputs(
                    position,
                    *func_target.get_header(),
                    new_func_call.borrow_outputs().len(),
                    output_count,
                ),
            );
        }
        assert(program@.scope(body).ids_below(program@.variables.len()));
        if func_target.is_builtin() {
            let (input_types, output_types) = match builtin_types(
                program,
                body,
                &new_func_call,
                position,
            ) {
                Ok(types) => types,
                Err(problem) => {
                    return Err(problem);
                },
            };
            emit_call(program, output, function_id, &new_func_call, &input_types, &output_types)
        } else {
            if fuel == 0 {
                return Err(CompileProblem::new(ProblemKind::NestingTooDeep, position));
            }
            self.table.push_table();
            let outcome = self.instantiate_function(
                program,
                &new_func_call,
                func_target,
                output,
                fuel,
            );
            proof {
                lemma_push_pop_round_trip(old(self).table@, self.table@);
            }
            self.table.pop_table();
            outcome
        }
    }

    /// Instantiates the function `func_target` for the converted call
    /// `call`, within the table that `resolve_function_call` has opened
    /// for it, and adds the call of the instance to `output`.
    pub fn instantiate_function(
        &mut self,
        program: &mut Program,
        call: &FuncCall,
        func_target: FunctionData,
        output: ScopeId,
        fuel: usize,
    ) -> (r: Result<(), CompileProblem>)
        requires
            old(self).valid_for(old(program)@),
            old(program)@.has_scope(output),
            old(program)@.has_scope(func_target.body),
            old(program)@.scope(func_target.body).inputs.len() == call@.inputs.len(),
            old(program)@.scope(func_target.body).outputs.len() == call@.outputs.len(),
            fuel > 0,
        ensures
            final(self).valid_for(final(program)@),
            final(program)@.extends(old(program)@),
            final(self).table@.stack == old(self).table@.stack,
            final(program)@.calls_appended(old(program)@, output),
            final(program)@.statements_untouched(old(program)@),
            r is Ok ==> final(program)@.holds_call(
                output,
                old(program)@.scope(output).calls.len() as int,
                call@.position,
                call@.inputs.len(),
                call@.outputs.len(),
            ),
            match function_instantiated(
                old(self).state(old(program)@),
                call@,
                func_target,
                output,
                fuel as nat,
            ) {
                Ok(after) => r is Ok && final(self).state(final(program)@) == after,
                Err(problem) => r is Err && r.unwrap_err()@ == problem,
            },
        decreases fuel, 0int, 0int,
    {
        let body = func_target.get_body();
        let position = *call.get_position();
        let copied = match instantiate_scope(program, &mut self.table, body, None) {
            Ok(copied) => copied,
            Err(problem) => {
                return Err(problem);
            },
        };
        let ghost after_copy = program@;
        assert(after_copy.scope(copied).calls =~= Seq::empty());
        assert(after_copy.calls_appended(old(program)@, output));
        assert(after_copy.scope(copied).ids_below(after_copy.variables.len()));
        // The template parameters, inferred from the arguments and written into the copy.
        let mut type_params = TypeTable::new();
        match unify_types(
            program,
            program.borrow_scope(copied).borrow_inputs(),
            call.borrow_inputs(),
            position,
            &mut type_params,
        ) {
            Ok(()) => {},
            Err(problem) => {
                return Err(problem);
            },
        }
        match unify_types(
            program,
            program.borrow_scope(copied).borrow_outputs(),
            call.borrow_outputs(),
            position,
            &mut type_params,
        ) {
            Ok(()) => {},
            Err(problem) => {
                return Err(problem);
            },
        }
        write_bindings(program, &type_params);
        resolve_dynamic_data_types(program, copied);
        let ghost typed = program@;
        assert(typed.calls_appended(old(program)@, output));
        assert(typed.statements_untouched(old(program)@));
        // The calls of the body, resolved into the copy.
        match self.resolve_body(program, body, copied, (fuel - 1) as usize) {
            Ok(()) => {},
            Err(problem) => {
                return Err(problem);
            },
        }
        let ghost resolved = program@;
        assert(resolved.extends(typed));
        assert(resolved.calls_appended(old(program)@, output));
        let new_function = FunctionData::new(copied, *func_target.get_header());
        let new_function_id = program.adopt_and_define_intermediate(
            output,
            Variable::function_def(new_function),
        );
        assert(program@.scope(output).calls == resolved.scope(output).calls);
        assert(program@.scope(copied).ids_below(program@.variables.len()));
        let input_types = read_types(program, program.borrow_scope(copied).borrow_inputs());
        let output_types = read_types(program, program.borrow_scope(copied).borrow_outputs());
        let ghost before_emit = program@;
        let r = emit_call(program, output, new_function_id, call, &input_types, &output_types);
        proof {
            lemma_calls_appended_twice(old(program)@, before_emit, program@, output);
        }
        r
    }

    /// Resolves the calls of the scope `source`, in their order, into the scope `destination`.
    pub fn resolve_body(&mut self, program: &mut Program, source: ScopeId, destination: ScopeId, fuel: usize) -> (r:
        Result<(), CompileProblem>)
        requires
            old(self).valid_for(old(program)@),
            old(program)@.has_scope(source),
            old(program)@.has_scope(destination),
        ensures
            final(self).valid_for(final(program)@),
            final(program)@.extends(old(program)@),
            final(self).table@ == old(self).table@,
            final(program)@.calls_appended(old(program)@, destination),
            final(program)@.statements_untouched(old(program)@),
            match calls_resolved(
                old(self).state(old(program)@),
                old(program)@.scope(source).calls,
                0,
                destination,
                fuel as nat,
            ) {
                Ok(after) => r is Ok && final(self).state(final(program)@) == after,
                Err(problem) => r is Err && r.unwrap_err()@ == problem,
            },
        decreases fuel, 2int, 0int,
    {
        let calls = clone_calls(program.borrow_scope(source).borrow_calls());
        let ghost views = old(program)@.scope(source).calls;
        let ghost start = self.state(program@);
        let mut i: usize = 0;
        while i < calls.len()
            invariant
                i <= calls.len(),
                views == calls_view(calls@),
                views == old(program)@.scope(source).calls,
                start == old(self).state(old(program)@),
                old(program)@.has_scope(destination),
                self.valid_for(program@),
                program@.extends(old(program)@),
                self.table@ == old(self).table@,
                program@.calls_appended(old(program)@, destination),
                program@.statements_untouched(old(program)@),
                calls_resolved(start, views, 0, destination, fuel as nat) == calls_resolved(
                    self.state(program@),
                    views,
                    i as int,
                    destination,
                    fuel as nat,
                ),
            decreases calls.len() - i,
        {
            assert(views[i as int] == calls@[i as int]@);
            let ghost before = program@;
            let ghost entering = self.state(program@);
            let outcome = self.resolve_function_call(program, &calls[i], destination, fuel);
            proof {
                lemma_calls_appended_twice(old(program)@, before, program@, destination);
                assert(calls_resolved(entering, views, i as int, destination, fuel as nat)
                    == match call_resolved(entering, views[i as int], destination, fuel as nat) {
                    Err(problem) => Err::<Resolving, crate::problem::ProblemView>(problem),
                    Ok(after) => calls_resolved(after, views, i + 1, destination, fuel as nat),
                });
            }
            match outcome {
                Ok(()) => {},
                Err(problem) => {
                    return Err(problem);
                },
            }
            i += 1;
        }
        Ok(())
    }

    /// Resolves the scope `target` into a copy of it, and returns the copy.
    pub fn entry_point(&mut self, program: &mut Program, target: ScopeId, fuel: usize) -> (r: Result<
        ScopeId,
        CompileProblem,
    >)
        requires
            old(self).valid_for(old(program)@),
            old(program)@.has_scope(target),
        ensures
            final(self).valid_for(final(program)@),
            final(program)@.extends(old(program)@),
            final(self).table@.stack == old(self).table@.stack,
            r is Ok ==> r.unwrap().0 == old(program)@.scopes.len() && r.unwrap() != target
                && final(program)@.has_scope(r.unwrap()),
            match scope_resolved(old(self).state(old(program)@), target, fuel as nat) {
                Ok((copy, after)) => r == Ok::<ScopeId, CompileProblem>(copy) && final(self).state(
                    final(program)@,
                ) == after,
                Err(problem) => r is Err && r.unwrap_err()@ == problem,
            },
    {
        let parent = program.borrow_scope(target).get_parent();
        let copy = match instantiate_scope(program, &mut self.table, target, parent) {
            Ok(copy) => copy,
            Err(problem) => {
                return Err(problem);
            },
        };
        match self.resolve_body(program, target, copy, fuel) {
            Ok(()) => Ok(copy),
            Err(problem) => Err(problem),
        }
    }
}

/// What the resolution of the calls of the scope `target` leaves: the
/// copy of the scope, which has the parent of the scope as its parent and
/// into which the calls are resolved, and the state at the end.
pub open spec fn scope_resolved(state: Resolving, target: ScopeId, fuel: nat) -> Result<
    (ScopeId, Resolving),
    crate::problem::ProblemView,
> {
    let ids = state.program.scope(target).own_ids();
    if !crate::copier::convertible(state.table.current, ids) {
        Err(
            crate::binary::problem_at(
                ProblemKind::DuplicateConversion,
                FilePosition::spec_placeholder(),
            ),
        )
    } else {
        let table = state.table.with_instances(ids, state.program.variables.len());
        let copied = state.program.with_copy(
            target,
            state.program.scope(target).parent,
            table.current,
        );
        let copy = ScopeId(state.program.scopes.len() as usize);
        match calls_resolved(
            Resolving { program: copied, table },
            copied.scope(target).calls,
            0,
            copy,
            fuel,
        ) {
            Err(problem) => Err(problem),
            Ok(after) => Ok((copy, after)),
        }
    }
}

/// Reads the types of the parameters of a builtin off the bindings that
/// the types of the arguments of a call give to its template parameters.
pub fn builtin_types(program: &Program, body: ScopeId, call: &FuncCall, position: FilePosition) -> (r:
    Result<(Vec<DataType>, Vec<DataType>), CompileProblem>)
    requires
        program@.wf(),
        program@.has_scope(body),
        program@.scope(body).inputs.len() == call@.inputs.len(),
        program@.scope(body).outputs.len() == call@.outputs.len(),
    ensures
        match unified_types(
            program@,
            program@.scope(body).inputs,
            call@.inputs,
            call@.inputs.len() as int,
            position,
            Map::empty(),
        ) {
            Err(problem) => r is Err && r.unwrap_err()@ == problem,
            Ok(from_inputs) => match unified_types(
                program@,
                program@.scope(body).outputs,
                call@.outputs,
                call@.outputs.len() as int,
                position,
                from_inputs,
            ) {
                Err(problem) => r is Err && r.unwrap_err()@ == problem,
                Ok(bindings) => match templated_types(
                    program@,
                    program@.scope(body).inputs,
                    bindings,
                    call@.inputs.len() as int,
                    position,
                ) {
                    Err(problem) => r is Err && r.unwrap_err()@ == problem,
                    Ok(input_types) => match templated_types(
                        program@,
                        program@.scope(body).outputs,
                        bindings,
                        call@.outputs.len() as int,
                        position,
                    ) {
                        Err(problem) => r is Err && r.unwrap_err()@ == problem,
                        Ok(output_types) => r is Ok && r.unwrap().0@ == input_types && r.unwrap().1@
                            == output_types,
                    },
                },
            },
        },
        r is Ok ==> r.unwrap().0@.len() == call@.inputs.len() && r.unwrap().1@.len()
            == call@.outputs.len(),
{
    assert(program@.scope(body).ids_below(program@.variables.len()));
    let inputs = program.borrow_scope(body).borrow_inputs();
    let outputs = program.borrow_scope(body).borrow_outputs();
    let mut type_params = TypeTable::new();
    match unify_types(program, inputs, call.borrow_inputs(), position, &mut type_params) {
        Ok(()) => {},
        Err(problem) => {
            return Err(problem);
        },
    }
    match unify_types(program, outputs, call.borrow_outputs(), position, &mut type_params) {
        Ok(()) => {},
        Err(problem) => {
            return Err(problem);
        },
    }
    let input_types = match bound_types(program, inputs, &type_params, position) {
        Ok(types) => types,
        Err(problem) => {
            return Err(problem);
        },
    };
    let output_types = match bound_types(program, outputs, &type_params, position) {
        Ok(types) => types,
        Err(problem) => {
            return Err(problem);
        },
    };
    Ok((input_types, output_types))
}

/// Calls that were only added, and then only added again, were only added.
pub proof fn lemma_calls_appended_twice(
    first: ProgramView,
    second: ProgramView,
    third: ProgramView,
    destination: ScopeId,
)
    requires
        second.calls_appended(first, destination),
        third.calls_appended(second, destination),
    ensures
        third.calls_appended(first, destination),
{
    if first.has_scope(destination) {
        let a = first.scope(destination).calls;
        let b = second.scope(destination).calls;
        let c = third.scope(destination).calls;
        assert(a =~= c.subrange(0, a.len() as int)) by {
            assert(a =~= b.subrange(0, a.len() as int));
            assert(b =~= c.subrange(0, b.len() as int));
        }
    }
}

} // verus!
