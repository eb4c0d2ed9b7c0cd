//! The call that resolution leaves of a call, with the casts around it.

use crate::binary::problem_at;
use crate::data_type::DataType;
use crate::func_call::{accesses_view, AccessView, CallView, FuncCall, VarAccess};
use crate::ids::{ScopeId, VariableId};
use crate::position::FilePosition;
use crate::problem::{CompileProblem, ProblemKind, ProblemView};
use crate::program::{Program, ProgramView};
use crate::resolver::{access_type, create_cast};
use crate::scope::ScopeView;
use crate::variable::{Variable, VariableView};
use vstd::prelude::*;

verus! {

/// A cast that is still to be added: from the first access to the second.
pub type Cast = (VarAccess, VarAccess);

/// The contents of a list of casts, one by one.
pub open spec fn casts_view(casts: Seq<Cast>) -> Seq<(AccessView, AccessView)> {
    casts.map_values(|cast: Cast| (cast.0@, cast.1@))
}

/// The access to a whole variable.
pub open spec fn whole(id: VariableId) -> AccessView {
    AccessView { base: id, indexes: Seq::empty() }
}

impl ProgramView {
    /// The variables of `before` are here as they were.
    pub open spec fn keeps_variables(self, before: ProgramView) -> bool {
        &&& before.variables.len() <= self.variables.len()
        &&& forall|v: int|
            0 <= v < before.variables.len() ==> #[trigger] self.variables[v] == before.variables[v]
    }

    /// The program after a variable of the type `data_type`, defined at
    /// `position`, was added to the scope `output` without a name.
    pub open spec fn with_holder(self, output: ScopeId, data_type: DataType, position: FilePosition) -> ProgramView {
        self.plus_variable(VariableView::fresh(position, data_type, None, false)).with_scope(
            output,
            ScopeView {
                intermediates: self.scope(output).intermediates.push(
                    VariableId(self.variables.len() as usize),
                ),
                ..self.scope(output)
            },
        )
    }

    /// The program after a call was added to the calls of the scope `output`.
    pub open spec fn with_call(self, output: ScopeId, call: CallView) -> ProgramView {
        self.with_scope(
            output,
            ScopeView { calls: self.scope(output).calls.push(call), ..self.scope(output) },
        )
    }

    /// The program after the cast from `from` to `to` was added to the
    /// scope `output`, or the problem that the builtins are missing.
    pub open spec fn with_cast(self, output: ScopeId, from: AccessView, to: AccessView, position: FilePosition) -> Result<
        ProgramView,
        ProblemView,
    > {
        match self.builtins {
            Some(builtins) => Ok(
                self.with_call(
                    output,
                    CallView {
                        function: builtins.copy_func,
                        position,
                        inputs: seq![from],
                        outputs: seq![to],
                    },
                ),
            ),
            None => Err(problem_at(ProblemKind::MissingBuiltin, position)),
        }
    }

    /// The program after the first `count` outputs that are whole
    /// variables of automatic type took the types of their parameters.
    pub open spec fn outputs_pinned(self, outputs: Seq<AccessView>, types: Seq<DataType>, count: int) -> ProgramView
        decreases count,
    {
        if count <= 0 {
            self
        } else {
            let before = self.outputs_pinned(outputs, types, count - 1);
            let output = outputs[count - 1];
            if output.indexes.len() == 0 && before.has_variable(output.base) && before.variable(
                output.base,
            ).data_type is Automatic {
                before.with_variable(
                    output.base,
                    VariableView { data_type: types[count - 1], ..before.variable(output.base) },
                )
            } else {
                before
            }
        }
    }

    /// The program after the first `count` inputs were made ready, and
    /// what is passed for them: an input of the type of its parameter is
    /// passed as it is; any other is cast to a new variable of that type,
    /// which is passed in its place.
    pub open spec fn inputs_passed(
        self,
        output: ScopeId,
        inputs: Seq<AccessView>,
        types: Seq<DataType>,
        count: int,
        position: FilePosition,
    ) -> Result<(ProgramView, Seq<AccessView>), ProblemView>
        decreases count,
    {
        if count <= 0 {
            Ok((self, Seq::empty()))
        } else {
            match self.inputs_passed(output, inputs, types, count - 1, position) {
                Err(problem) => Err(problem),
                Ok((before, passed)) => match before.access_type(inputs[count - 1]) {
                    None => Err(problem_at(ProblemKind::UnknownId, position)),
                    Some(argument_type) => if argument_type == types[count - 1] {
                        Ok((before, passed.push(inputs[count - 1])))
                    } else {
                        let holder = VariableId(before.variables.len() as usize);
                        match before.with_holder(output, types[count - 1], position).with_cast(
                            output,
                            inputs[count - 1],
                            whole(holder),
                            position,
                        ) {
                            Err(problem) => Err(problem),
                            Ok(after) => Ok((after, passed.push(whole(holder)))),
                        }
                    },
                },
            }
        }
    }

    /// The program after the first `count` outputs were made ready, what
    /// is passed for them, and the casts that are to follow the call: an
    /// output of the type of its parameter is passed as it is; for any
    /// other a new variable of that type is passed, which is cast to the
    /// output after the call.
    pub open spec fn outputs_held(
        self,
        output: ScopeId,
        outputs: Seq<AccessView>,
        types: Seq<DataType>,
        count: int,
        position: FilePosition,
    ) -> Result<(ProgramView, Seq<AccessView>, Seq<(AccessView, AccessView)>), ProblemView>
        decreases count,
    {
        if count <= 0 {
            Ok((self, Seq::empty(), Seq::empty()))
        } else {
            match self.outputs_held(output, outputs, types, count - 1, position) {
                Err(problem) => Err(problem),
                Ok((before, passed, casts)) => match before.access_type(outputs[count - 1]) {
                    None => Err(problem_at(ProblemKind::UnknownId, position)),
                    Some(argument_type) => if argument_type == types[count - 1] {
                        Ok((before, passed.push(outputs[count - 1]), casts))
                    } else {
                        let holder = VariableId(before.variables.len() as usize);
                        Ok(
                            (
                                before.with_holder(output, types[count - 1], position),
                                passed.push(whole(holder)),
                                casts.push((whole(holder), outputs[count - 1])),
                            ),
                        )
                    },
                },
            }
        }
    }

    /// The program after the first `count` casts were added to the scope `output`.
    pub open spec fn casts_added(
        self,
        output: ScopeId,
        casts: Seq<(AccessView, AccessView)>,
        count: int,
        position: FilePosition,
    ) -> Result<ProgramView, ProblemView>
        decreases count,
    {
        if count <= 0 {
            Ok(self)
        } else {
            match self.casts_added(output, casts, count - 1, position) {
                Err(problem) => Err(problem),
                Ok(before) => before.with_cast(
                    output,
                    casts[count - 1].0,
                    casts[count - 1].1,
                    position,
                ),
            }
        }
    }

    /// The program after the call of `function` with the arguments of
    /// `call` was added to the scope `output`, with the casts that it needs.
    ///
    /// The outputs of automatic type take the types of their parameters
    /// first. Then the inputs are made ready, then the outputs; then the
    /// call is added, and after it the casts of the outputs.
    pub open spec fn emitted(
        self,
        output: ScopeId,
        function: VariableId,
        call: CallView,
        input_types: Seq<DataType>,
        output_types: Seq<DataType>,
    ) -> Result<ProgramView, ProblemView> {
        let pinned = self.outputs_pinned(call.outputs, output_types, call.outputs.len() as int);
        match pinned.inputs_passed(
            output,
            call.inputs,
            input_types,
            call.inputs.len() as int,
            call.position,
        ) {
            Err(problem) => Err(problem),
            Ok((ready, inputs)) => match ready.outputs_held(
                output,
                call.outputs,
                output_types,
                call.outputs.len() as int,
                call.position,
            ) {
                Err(problem) => Err(problem),
                Ok((held, outputs, casts)) => held.with_call(
                    output,
                    CallView { function, position: call.position, inputs, outputs },
                ).casts_added(output, casts, casts.len() as int, call.position),
            },
        }
    }
}

/// Once the first inputs have a problem, every longer list of inputs has that problem.
proof fn lemma_inputs_passed_fail(
    program: ProgramView,
    output: ScopeId,
    inputs: Seq<AccessView>,
    types: Seq<DataType>,
    failed: int,
    count: int,
    position: FilePosition,
)
    requires
        0 < failed <= count,
        program.inputs_passed(output, inputs, types, failed, position) is Err,
    ensures
        program.inputs_passed(output, inputs, types, count, position) == program.inputs_passed(
            output,
            inputs,
            types,
            failed,
            position,
        ),
    decreases count - failed,
{
    if failed < count {
        lemma_inputs_passed_fail(program, output, inputs, types, failed, count - 1, position);
    }
}

/// Once the first outputs have a problem, every longer list of outputs has that problem.
proof fn lemma_outputs_held_fail(
    program: ProgramView,
    output: ScopeId,
    outputs: Seq<AccessView>,
    types: Seq<DataType>,
    failed: int,
    count: int,
    position: FilePosition,
)
    requires
        0 < failed <= count,
        program.outputs_held(output, outputs, types, failed, position) is Err,
    ensures
        program.outputs_held(output, outputs, types, count, position) == program.outputs_held(
            output,
            outputs,
            types,
            failed,
            position,
        ),
    decreases count - failed,
{
    if failed < count {
        lemma_outputs_held_fail(program, output, outputs, types, failed, count - 1, position);
    }
}

/// Once the first casts have a problem, every longer list of casts has that problem.
proof fn lemma_casts_added_fail(
    program: ProgramView,
    output: ScopeId,
    casts: Seq<(AccessView, AccessView)>,
    failed: int,
    count: int,
    position: FilePosition,
)
    requires
        0 < failed <= count,
        program.casts_added(output, casts, failed, position) is Err,
    ensures
        program.casts_added(output, casts, count, position) == program.casts_added(
            output,
            casts,
            failed,
            position,
        ),
    decreases count - failed,
{
    if failed < count {
        lemma_casts_added_fail(program, output, casts, failed, count - 1, position);
    }
}

/// Gives the outputs that are whole variables of automatic type the types of their parameters.
pub fn pin_outputs(program: &mut Program, outputs: &Vec<VarAccess>, types: &Vec<DataType>)
    requires
        old(program)@.wf(),
        types@.len() == outputs@.len(),
    ensures
        final(program)@ == old(program)@.outputs_pinned(
            accesses_view(outputs@),
            types@,
            outputs@.len() as int,
        ),
        final(program)@.wf(),
        final(program)@.extends(old(program)@),
        final(program)@.scopes == old(program)@.scopes,
        final(program)@.variables.len() == old(program)@.variables.len(),
{
    let ghost views = accesses_view(outputs@);
    let mut o: usize = 0;
    while o < outputs.len()
        invariant
            o <= outputs.len(),
            types@.len() == outputs@.len(),
            views == accesses_view(outputs@),
            program@ == old(program)@.outputs_pinned(views, types@, o as int),
            program@.wf(),
            program@.extends(old(program)@),
            program@.scopes == old(program)@.scopes,
            program@.variables.len() == old(program)@.variables.len(),
        decreases outputs.len() - o,
    {
        let accessor = &outputs[o];
        assert(views[o as int] == accessor@);
        if accessor.borrow_indexes().len() == 0 && program.has_variable(accessor.get_base()) {
            if program.borrow_variable(accessor.get_base()).borrow_data_type().is_automatic() {
                program.set_data_type(accessor.get_base(), (&types[o]).clone());
            }
        }
        o += 1;
    }
}

/// What holds of a program in which calls were only added to the scope
/// `output`, and variables and unnamed members of it.
pub open spec fn only_added(before: ProgramView, after: ProgramView, output: ScopeId) -> bool {
    &&& after.wf()
    &&& after.extends(before)
    &&& after.keeps_variables(before)
    &&& after.statements_untouched(before)
    &&& after.calls_appended(before, output)
    &&& after.scopes.len() == before.scopes.len()
    &&& after.builtins == before.builtins
}

/// A list that starts with another still starts with it after an item is added at its end.
proof fn lemma_prefix_grows<A>(a: Seq<A>, b: Seq<A>, x: A)
    requires
        a.is_prefix_of(b),
    ensures
        a.is_prefix_of(b.push(x)),
{
    assert(a =~= b.push(x).subrange(0, a.len() as int));
}

/// Adds to the scope `output` a variable of the type `data_type` without a name.
fn add_holder(program: &mut Program, output: ScopeId, data_type: &DataType, position: FilePosition) -> (id:
    VariableId)
    requires
        old(program)@.wf(),
        old(program)@.has_scope(output),
    ensures
        id.0 == old(program)@.variables.len(),
        final(program)@ == old(program)@.with_holder(output, *data_type, position),
        only_added(old(program)@, final(program)@, output),
        final(program)@.scope(output).calls == old(program)@.scope(output).calls,
        final(program)@.variable(id).data_type == *data_type,
{
    program.adopt_and_define_intermediate(
        output,
        Variable::variable(position, data_type.clone(), None),
    )
}

/// Adds a cast to the scope `output`.
fn add_cast(program: &mut Program, output: ScopeId, from: VarAccess, to: VarAccess, position: FilePosition) -> (r:
    Result<(), CompileProblem>)
    requires
        old(program)@.wf(),
        old(program)@.has_scope(output),
    ensures
        match old(program)@.with_cast(output, from@, to@, position) {
            Ok(after) => r is Ok && final(program)@ == after,
            Err(problem) => {
                &&& r is Err
                &&& r.unwrap_err()@ == problem
                &&& final(program)@ == old(program)@
            },
        },
        only_added(old(program)@, final(program)@, output),
        r is Ok ==> final(program)@.scope(output).calls.len()
            == old(program)@.scope(output).calls.len() + 1,
{
    let ghost before = program@;
    let r = create_cast(program, output, from, to, position);
    proof {
        if r is Ok {
            lemma_prefix_grows(
                before.scope(output).calls,
                before.scope(output).calls,
                program@.scope(output).calls.last(),
            );
        }
    }
    r
}

/// What holds after steps in each of which calls, variables and
/// members were only added holds of the steps together.
proof fn lemma_only_added_twice(first: ProgramView, second: ProgramView, third: ProgramView, output: ScopeId)
    requires
        first.has_scope(output),
        only_added(first, second, output),
        only_added(second, third, output),
    ensures
        only_added(first, third, output),
{
    crate::resolver::lemma_calls_appended_twice(first, second, third, output);
}

/// What an access selects keeps its type while the variables that were there stay as they are.
proof fn lemma_typed_stays(before: ProgramView, after: ProgramView, accesses: Seq<AccessView>, types: Seq<DataType>, count: int)
    requires
        before.typed(accesses, types, count),
        after.keeps_variables(before),
    ensures
        after.typed(accesses, types, count),
{
    assert forall|i: int| 0 <= i < count implies after.access_type(#[trigger] accesses[i]) == Some(
        types[i],
    ) by {
        assert(before.access_type(accesses[i]) == Some(types[i]));
    }
}

/// Makes the inputs of a call ready, and returns what is passed for them.
pub fn pass_inputs(program: &mut Program, output: ScopeId, inputs: &Vec<VarAccess>, types: &Vec<DataType>, position: FilePosition) -> (r:
    Result<Vec<VarAccess>, CompileProblem>)
    requires
        old(program)@.wf(),
        old(program)@.has_scope(output),
        types@.len() == inputs@.len(),
    ensures
        match old(program)@.inputs_passed(
            output,
            accesses_view(inputs@),
            types@,
            inputs@.len() as int,
            position,
        ) {
            Ok((after, passed)) => r is Ok && final(program)@ == after && accesses_view(
                r.unwrap()@,
            ) == passed,
            Err(problem) => r is Err && r.unwrap_err()@ == problem,
        },
        only_added(old(program)@, final(program)@, output),
        r is Ok ==> r.unwrap()@.len() == inputs@.len(),
        r is Ok ==> final(program)@.typed(accesses_view(r.unwrap()@), types@, inputs@.len() as int),
{
    let ghost views = accesses_view(inputs@);
    let mut passed: Vec<VarAccess> = Vec::new();
    assert(accesses_view(passed@) =~= Seq::empty());
    let mut i: usize = 0;
    while i < inputs.len()
        invariant
            i <= inputs.len(),
            passed@.len() == i,
            types@.len() == inputs@.len(),
            views == accesses_view(inputs@),
            old(program)@.has_scope(output),
            only_added(old(program)@, program@, output),
            program@.typed(accesses_view(passed@), types@, i as int),
            old(program)@.inputs_passed(output, views, types@, i as int, position) == Ok::<
                (ProgramView, Seq<AccessView>),
                ProblemView,
            >((program@, accesses_view(passed@))),
        decreases inputs.len() - i,
    {
        let accessor = &inputs[i];
        assert(views[i as int] == accessor@);
        let ghost entering = program@;
        let ghost earlier = accesses_view(passed@);
        let argument_type = match access_type(program, accessor) {
            Some(argument_type) => argument_type,
            None => {
                proof {
                    lemma_inputs_passed_fail(
                        old(program)@,
                        output,
                        views,
                        types@,
                        i + 1,
                        inputs@.len() as int,
                        position,
                    );
                }
                return Err(CompileProblem::new(ProblemKind::UnknownId, position));
            },
        };
        if argument_type.equals(&types[i]) {
            passed.push(accessor.clone());
            assert(accesses_view(passed@) =~= earlier.push(accessor@));
        } else {
            let holder = add_holder(program, output, &types[i], position);
            let ghost held = program@;
            match add_cast(program, output, accessor.clone(), VarAccess::new(holder), position) {
                Ok(()) => {},
                Err(problem) => {
                    proof {
                        lemma_only_added_twice(entering, held, program@, output);
                        lemma_only_added_twice(old(program)@, entering, program@, output);
                        lemma_inputs_passed_fail(
                            old(program)@,
                            output,
                            views,
                            types@,
                            i + 1,
                            inputs@.len() as int,
                            position,
                        );
                    }
                    return Err(problem);
                },
            }
            proof {
                lemma_only_added_twice(entering, held, program@, output);
                lemma_only_added_twice(old(program)@, entering, program@, output);
            }
            passed.push(VarAccess::new(holder));
            assert(accesses_view(passed@) =~= earlier.push(whole(holder)));
            assert(types@[i as int].unwrapped(0) == types@[i as int]);
        }
        proof {
            lemma_typed_stays(entering, program@, earlier, types@, i as int);
            assert forall|k: int| 0 <= k < i + 1 implies program@.access_type(
                #[trigger] accesses_view(passed@)[k],
            ) == Some(types@[k]) by {
                if k < i {
                    assert(accesses_view(passed@)[k] == earlier[k]);
                }
            }
        }
        i += 1;
    }
    Ok(passed)
}

/// Makes the outputs of a call ready, and returns what is passed for
/// them and the casts that are to follow the call.
pub fn hold_outputs(program: &mut Program, output: ScopeId, outputs: &Vec<VarAccess>, types: &Vec<DataType>, position: FilePosition) -> (r:
    Result<(Vec<VarAccess>, Vec<Cast>), CompileProblem>)
    requires
        old(program)@.wf(),
        old(program)@.has_scope(output),
        types@.len() == outputs@.len(),
    ensures
        match old(program)@.outputs_held(
            output,
            accesses_view(outputs@),
            types@,
            outputs@.len() as int,
            position,
        ) {
            Ok((after, passed, casts)) => {
                &&& r is Ok
                &&& final(program)@ == after
                &&& accesses_view(r.unwrap().0@) == passed
                &&& casts_view(r.unwrap().1@) == casts
            },
            Err(problem) => r is Err && r.unwrap_err()@ == problem,
        },
        only_added(old(program)@, final(program)@, output),
        final(program)@.scope(output).calls == old(program)@.scope(output).calls,
        r is Ok ==> r.unwrap().0@.len() == outputs@.len(),
        r is Ok ==> final(program)@.typed(
            accesses_view(r.unwrap().0@),
            types@,
            outputs@.len() as int,
        ),
{
    let ghost views = accesses_view(outputs@);
    let mut passed: Vec<VarAccess> = Vec::new();
    let mut casts: Vec<Cast> = Vec::new();
    assert(accesses_view(passed@) =~= Seq::empty());
    assert(casts_view(casts@) =~= Seq::empty());
    let mut j: usize = 0;
    while j < outputs.len()
        invariant
            j <= outputs.len(),
            passed@.len() == j,
            types@.len() == outputs@.len(),
            views == accesses_view(outputs@),
            old(program)@.has_scope(output),
            only_added(old(program)@, program@, output),
            program@.scope(output).calls == old(program)@.scope(output).calls,
            program@.typed(accesses_view(passed@), types@, j as int),
            old(program)@.outputs_held(output, views, types@, j as int, position) == Ok::<
                (ProgramView, Seq<AccessView>, Seq<(AccessView, AccessView)>),
                ProblemView,
            >((program@, accesses_view(passed@), casts_view(casts@))),
        decreases outputs.len() - j,
    {
        let accessor = &outputs[j];
        assert(views[j as int] == accessor@);
        let ghost entering = program@;
        let ghost earlier = accesses_view(passed@);
        let ghost earlier_casts = casts_view(casts@);
        let argument_type = match access_type(program, accessor) {
            Some(argument_type) => argument_type,
            None => {
                proof {
                    lemma_outputs_held_fail(
                        old(program)@,
                        output,
                        views,
                        types@,
                        j + 1,
                        outputs@.len() as int,
                        position,
                    );
                }
                return Err(CompileProblem::new(ProblemKind::UnknownId, position));
            },
        };
        if argument_type.equals(&types[j]) {
            passed.push(accessor.clone());
            assert(accesses_view(passed@) =~= earlier.push(accessor@));
        } else {
            let holder = add_holder(program, output, &types[j], position);
            proof {
                lemma_only_added_twice(old(program)@, entering, program@, output);
            }
            casts.push((VarAccess::new(holder), accessor.clone()));
            assert(casts_view(casts@) =~= earlier_casts.push((whole(holder), accessor@)));
            passed.push(VarAccess::new(holder));
            assert(accesses_view(passed@) =~= earlier.push(whole(holder)));
            assert(types@[j as int].unwrapped(0) == types@[j as int]);
        }
        proof {
            lemma_typed_stays(entering, program@, earlier, types@, j as int);
            assert forall|k: int| 0 <= k < j + 1 implies program@.access_type(
                #[trigger] accesses_view(passed@)[k],
            ) == Some(types@[k]) by {
                if k < j {
                    assert(accesses_view(passed@)[k] == earlier[k]);
                }
            }
        }
        j += 1;
    }
    Ok((passed, casts))
}

/// Adds the casts that follow a call to the scope `output`.
pub fn add_casts(program: &mut Program, output: ScopeId, casts: &Vec<Cast>, position: FilePosition) -> (r:
    Result<(), CompileProblem>)
    requires
        old(program)@.wf(),
        old(program)@.has_scope(output),
    ensures
        match old(program)@.casts_added(output, casts_view(casts@), casts@.len() as int, position) {
            Ok(after) => r is Ok && final(program)@ == after,
            Err(problem) => r is Err && r.unwrap_err()@ == problem,
        },
        only_added(old(program)@, final(program)@, output),
        final(program)@.variables == old(program)@.variables,
{
    let ghost views = casts_view(casts@);
    let mut c: usize = 0;
    while c < casts.len()
        invariant
            c <= casts.len(),
            views == casts_view(casts@),
            old(program)@.has_scope(output),
            only_added(old(program)@, program@, output),
            program@.variables == old(program)@.variables,
            old(program)@.casts_added(output, views, c as int, position) == Ok::<
                ProgramView,
                ProblemView,
            >(program@),
        decreases casts.len() - c,
    {
        assert(views[c as int] == (casts@[c as int].0@, casts@[c as int].1@));
        let ghost entering = program@;
        let from = (&casts[c].0).clone();
        let to = (&casts[c].1).clone();
        match add_cast(program, output, from, to, position) {
            Ok(()) => {},
            Err(problem) => {
                proof {
                    lemma_casts_added_fail(
                        old(program)@,
                        output,
                        views,
                        c + 1,
                        casts@.len() as int,
                        position,
                    );
                }
                return Err(problem);
            },
        }
        proof {
            lemma_only_added_twice(old(program)@, entering, program@, output);
        }
        c += 1;
    }
    Ok(())
}

/// Adds to `output` the call of `function` with the arguments of `call`.
///
/// An output of automatic type takes the type of its parameter. An
/// argument whose type is not that of its parameter goes through a new
/// variable of the parameter's type: an input is cast to it before the
/// call, an output is cast from it after the call.
pub fn emit_call(
    program: &mut Program,
    output: ScopeId,
    function: VariableId,
    call: &FuncCall,
    input_types: &Vec<DataType>,
    output_types: &Vec<DataType>,
) -> (r: Result<(), CompileProblem>)
    requires
        old(program)@.wf(),
        old(program)@.has_scope(output),
        input_types@.len() == call@.inputs.len(),
        output_types@.len() == call@.outputs.len(),
    ensures
        match old(program)@.emitted(output, function, call@, input_types@, output_types@) {
            Ok(after) => r is Ok && final(program)@ == after,
            Err(problem) => r is Err && r.unwrap_err()@ == problem,
        },
        final(program)@.wf(),
        final(program)@.extends(old(program)@),
        final(program)@.calls_appended(old(program)@, output),
        final(program)@.statements_untouched(old(program)@),
        final(program)@.scopes.len() == old(program)@.scopes.len(),
        r is Ok ==> final(program)@.scope(output).calls.len() > old(program)@.scope(
            output,
        ).calls.len(),
        r is Ok ==> final(program)@.holds_call(
            output,
            old(program)@.scope(output).calls.len() as int,
            call@.position,
            call@.inputs.len(),
            call@.outputs.len(),
        ),
{
    let position = *call.get_position();
    let ghost before = program@;
    let given = call.borrow_inputs();
    let wanted = call.borrow_outputs();
    assert(accesses_view(given@).len() == given@.len());
    assert(accesses_view(wanted@).len() == wanted@.len());
    pin_outputs(program, wanted, output_types);
    let ghost pinned = program@;
    let inputs = match pass_inputs(program, output, given, input_types, position) {
        Ok(inputs) => inputs,
        Err(problem) => {
            return Err(problem);
        },
    };
    let ghost ready = program@;
    let (outputs, casts) = match hold_outputs(program, output, wanted, output_types, position) {
        Ok(held) => held,
        Err(problem) => {
            proof {
                lemma_only_added_twice(pinned, ready, program@, output);
            }
            return Err(problem);
        },
    };
    let ghost held = program@;
    let new_call = make_call(function, position, inputs, outputs);
    let ghost emitted = new_call@;
    program.add_func_call(output, new_call);
    let ghost added = program@;
    proof {
        lemma_only_added_twice(pinned, ready, held, output);
        lemma_prefix_grows(
            pinned.scope(output).calls,
            held.scope(output).calls,
            emitted,
        );
        assert(added.scope(output).calls[held.scope(output).calls.len() as int] == emitted);
    }
    let r = add_casts(program, output, &casts, position);
    proof {
        crate::resolver::lemma_calls_appended_twice(pinned, added, program@, output);
        let at = held.scope(output).calls.len() as int;
        assert(program@.scope(output).calls[at] == emitted) by {
            assert(added.scope(output).calls.is_prefix_of(program@.scope(output).calls));
            assert(added.scope(output).calls =~= program@.scope(output).calls.subrange(
                0,
                added.scope(output).calls.len() as int,
            ));
        }
        assert(emitted.inputs.len() == call@.inputs.len());
        assert(emitted.outputs.len() == call@.outputs.len());
    }
    r
}

/// Makes the call of `function` at `position` with the given inputs and outputs.
fn make_call(function: VariableId, position: FilePosition, inputs: Vec<VarAccess>, outputs: Vec<VarAccess>) -> (r:
    FuncCall)
    ensures
        r@ == (CallView {
            function,
            position,
            inputs: accesses_view(inputs@),
            outputs: accesses_view(outputs@),
        }),
{
    let mut call = FuncCall::new(function, position);
    let mut i: usize = 0;
    while i < inputs.len()
        invariant
            i <= inputs.len(),
            call@.function == function,
            call@.position == position,
            call@.outputs == Seq::<AccessView>::empty(),
            call@.inputs == accesses_view(inputs@).subrange(0, i as int),
        decreases inputs.len() - i,
    {
        call.add_input((&inputs[i]).clone());
        assert(call@.inputs =~= accesses_view(inputs@).subrange(0, i + 1));
        i += 1;
    }
    let mut j: usize = 0;
    while j < outputs.len()
        invariant
            j <= outputs.len(),
            call@.function == function,
            call@.position == position,
            call@.inputs == accesses_view(inputs@).subrange(0, inputs@.len() as int),
            call@.outputs == accesses_view(outputs@).subrange(0, j as int),
        decreases outputs.len() - j,
    {
        call.add_output((&outputs[j]).clone());
        assert(call@.outputs =~= accesses_view(outputs@).subrange(0, j + 1));
        j += 1;
    }
    assert(call@.inputs =~= accesses_view(inputs@));
    assert(call@.outputs =~= accesses_view(outputs@));
    call
}

} // verus!
