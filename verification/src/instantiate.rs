//! Simplification of calls: the body is instantiated and simplified in place.

use crate::access::problem_within;
use crate::binary::problem_at;
use crate::binding::{Flow, keep_statement, Output, outputs_view, prepare_instance};
use crate::calls::{follows, pure_outcome};
use crate::data_type::DataType;
use crate::expression::{clone_expressions, Expr, Expression, expressions_view};
use crate::ids::ScopeId;
use crate::known_data::{FunctionData, KnownData, Value};
use crate::position::FilePosition;
use crate::problem::{
    CompileProblem,
    problem_in_context,
    ProblemKind,
    ProblemView,
    wrong_number_of_inputs,
    wrong_number_of_outputs,
};
use crate::program::{Program, ProgramView};
use crate::semantics::{called, InstanceView, instantiated, Pass, ran};
use crate::simplified::{Content, ContentView, SimplifiedExpression};
use crate::simplifier::ScopeSimplifier;
use crate::table::{FrameView, lemma_push_pop_round_trip};
use vstd::prelude::*;

verus! {

/// What a call leaves behind: the instantiated body, whether statements
/// were left in it, and the value of the call.
#[derive(Debug)]
pub struct Instantiation {
    pub body: ScopeId,
    pub residual: bool,
    pub value: SimplifiedExpression,
}

/// The number of inline returns among the first `until` outputs of a call.
pub open spec fn inline_returns(outputs: Seq<Expr>, until: int) -> int
    decreases until,
{
    if until <= 0 {
        0
    } else {
        inline_returns(outputs, until - 1) + if outputs[until - 1] is InlineReturn {
            1int
        } else {
            0int
        }
    }
}

/// Counts the inline returns among the outputs of a call.
pub fn count_inline_returns(outputs: &Vec<Expression>) -> (r: usize)
    ensures
        r == inline_returns(expressions_view(outputs@), outputs@.len() as int),
{
    let mut count: usize = 0;
    let mut i: usize = 0;
    while i < outputs.len()
        invariant
            i <= outputs.len(),
            count <= i,
            count == inline_returns(expressions_view(outputs@), i as int),
        decreases outputs.len() - i,
    {
        assert(expressions_view(outputs@)[i as int] == outputs@[i as int]@);
        if matches!(&outputs[i], Expression::InlineReturn(..)) {
            count += 1;
        }
        i += 1;
    }
    count
}

/// The problem that a call has before anything is instantiated, if it has
/// one. The callee of the call changes nothing when it is simplified.
///
/// The callee must simplify to a known value, which must be a function
/// whose body the program holds. The call must give as many inputs, and
/// as many outputs, as the function declares, and at most one of the
/// outputs may ask for the inline return.
pub open spec fn call_fault(program: ProgramView, frame: FrameView, call: Expr) -> Option<ProblemView> {
    let function = *call->FuncCall_function;
    let inputs = call->FuncCall_inputs;
    let outputs = call->FuncCall_outputs;
    let position = call->FuncCall_position;
    match pure_outcome(program, frame, function) {
        Err(problem) => Some(problem),
        Ok(callee) => match callee.content {
            ContentView::Modified(_) => Some(
                problem_within(ProblemKind::VagueFunction, position, function.position()),
            ),
            ContentView::Interpreted(Value::Function(data)) => if !program.has_scope(data.body) {
                Some(problem_at(ProblemKind::UnknownId, position))
            } else if program.scope(data.body).inputs.len() != inputs.len() {
                Some(
                    problem_within(
                        ProblemKind::WrongNumberOfInputs {
                            expected: program.scope(data.body).inputs.len() as usize,
                            provided: inputs.len() as usize,
                        },
                        position,
                        data.header,
                    ),
                )
            } else if program.scope(data.body).outputs.len() != outputs.len() {
                Some(
                    problem_within(
                        ProblemKind::WrongNumberOfOutputs {
                            expected: program.scope(data.body).outputs.len() as usize,
                            provided: outputs.len() as usize,
                        },
                        position,
                        data.header,
                    ),
                )
            } else if inline_returns(outputs, outputs.len() as int) > 1 {
                Some(
                    problem_within(
                        ProblemKind::TooManyInlineReturns {
                            count: inline_returns(outputs, outputs.len() as int) as usize,
                        },
                        position,
                        data.header,
                    ),
                )
            } else {
                None
            },
            ContentView::Interpreted(_) => Some(
                problem_at(ProblemKind::NotFunction, function.position()),
            ),
        },
    }
}

impl View for Instantiation {
    type V = InstanceView;

    open spec fn view(&self) -> InstanceView {
        InstanceView { body: self.body, residual: self.residual, value: self.value@ }
    }
}

impl ScopeSimplifier {
    /// What holds while a call is being instantiated: as after a step, but
    /// the table in force may have gained conversions and substitutions.
    pub open spec fn inside(
        &self,
        before: &ScopeSimplifier,
        program: ProgramView,
        program_before: ProgramView,
    ) -> bool {
        &&& self.valid_for(program)
        &&& program.extends(program_before)
        &&& program.keeps_bodies_resolved(program_before)
        &&& self.table@.stack == before.table@.stack
        &&& self.current_scope == before.current_scope
    }

    /// Simplifies a call.
    ///
    /// The callee must be known and a function, and the call must give as
    /// many inputs and outputs as the function declares, with at most one
    /// inline return among the outputs. The body is copied under a table
    /// of its own. A known input becomes the value of its parameter; an
    /// unknown one is put in the parameter's place. An output that is not
    /// inline is put in its parameter's place too. The statements of the
    /// body are simplified in their order under the copy: what is left of
    /// them goes to the copy, up to an unconditional return. Where anything
    /// is left, a call of the copy is left in the current scope. The value
    /// of the call is that of the inline output, nothing without one.
    ///
    /// `fuel` bounds the nesting of calls: a call whose body would be
    /// instantiated with no fuel left fails; a call that is faulty fails
    /// with its fault whatever the fuel.
    ///
    /// Whatever the outcome, the table is what it was before the call.
    /// Where the call is found faulty before anything is instantiated (the
    /// callee is not known or no function, the numbers of inputs or outputs
    /// are not those of the function, or more than one output is inline)
    /// and the callee is made of literals, variables, accesses and
    /// operations alone, the program is what it was too: no argument is
    /// simplified, no body is copied and nothing is added.
    pub fn simplify_func_call(&mut self, program: &mut Program, call: &Expression, fuel: usize) -> (r:
        Result<SimplifiedExpression, CompileProblem>)
        requires
            old(self).valid_for(old(program)@),
        ensures
            final(self).stepped(old(self), final(program)@, old(program)@),
            r is Ok ==> r.unwrap()@.residual_resolved(),
            follows(
                r,
                final(self).pass(final(program)@),
                called(old(self).pass(old(program)@), call@, fuel as nat),
            ),
            !(*call is FuncCall) || (call@->FuncCall_function.pure() && (fuel == 0 || call_fault(
                old(program)@,
                old(self).table@.current,
                call@,
            ) is Some)) ==> r is Err && final(program)@ == old(program)@,
        decreases fuel, *call, 1int,
    {
        let position = call.clone_position();
        if !matches!(call, Expression::FuncCall { .. }) {
            return Err(CompileProblem::new(ProblemKind::UnexpectedExpression, position));
        }
        self.table.push_table();
        proof {
            crate::simplifier::lemma_pushed_fits(old(self).table@, program@.variables.len());
        }
        let outcome = self.instantiate(program, call, fuel);
        proof {
            lemma_push_pop_round_trip(old(self).table@, self.table@);
            crate::simplifier::lemma_popped_fits(self.table@, program@.variables.len());
        }
        self.table.pop_table();
        match outcome {
            Ok(instantiation) => {
                if instantiation.residual {
                    let statement = Expression::Call { body: instantiation.body, position };
                    proof {
                        crate::simplifier::lemma_added_statement(
                            program@,
                            self.current_scope,
                            statement@,
                        );
                    }
                    program.add_expression(self.current_scope, statement);
                }
                Ok(instantiation.value)
            },
            Err(problem) => Err(problem),
        }
    }

    /// Simplifies what a call gives for its outputs, in their order:
    /// nothing for the inline return, else the target of an assignment.
    pub fn simplify_targets(&mut self, program: &mut Program, outputs: &Vec<Expression>, fuel: usize) -> (r:
        Result<Vec<Output>, CompileProblem>)
        requires
            old(self).valid_for(old(program)@),
        ensures
            final(self).stepped(old(self), final(program)@, old(program)@),
            r is Ok ==> r.unwrap()@.len() == outputs@.len(),
            r is Ok ==> forall|k: int|
                0 <= k < r.unwrap()@.len() && (#[trigger] r.unwrap()@[k]).0 is Some
                    ==> r.unwrap()@[k].0.unwrap().0@.resolved(),
            match crate::semantics::targets(
                old(self).pass(old(program)@),
                expressions_view(outputs@),
                outputs@.len() as int,
                fuel as nat,
            ) {
                Ok((wanted, after)) => r is Ok && outputs_view(r.unwrap()@) == wanted && final(self).pass(final(program)@) == after,
                Err(problem) => r is Err && r.unwrap_err()@ == problem,
            },
        decreases fuel, *outputs, 0int,
    {
        let ghost start = self.pass(program@);
        let ghost views = expressions_view(outputs@);
        let mut targets: Vec<Output> = Vec::new();
        assert(outputs_view(targets@) =~= Seq::empty());
        let mut j: usize = 0;
        while j < outputs.len()
            invariant
                j <= outputs.len(),
                targets@.len() == j,
                views == expressions_view(outputs@),
                start == old(self).pass(old(program)@),
                self.stepped(old(self), program@, old(program)@),
                forall|k: int|
                    0 <= k < j && (#[trigger] targets@[k]).0 is Some
                        ==> targets@[k].0.unwrap().0@.resolved(),
                crate::semantics::targets(start, views, j as int, fuel as nat) == Ok::<
                    (Seq<(Option<(Expr, DataType)>, FilePosition)>, Pass),
                    ProblemView,
                >((outputs_view(targets@), self.pass(program@))),
            decreases outputs.len() - j,
        {
            assert(views[j as int] == outputs@[j as int]@);
            let ghost before = outputs_view(targets@);
            let output_position = (&outputs[j]).clone_position();
            if matches!(&outputs[j], Expression::InlineReturn(..)) {
                targets.push((None, output_position));
                assert(outputs_view(targets@) =~= before.push((None, output_position)));
            } else {
                let target = match self.simplify_assignment_access_expression(
                    program,
                    &outputs[j],
                    fuel,
                ) {
                    Ok(target) => target,
                    Err(problem) => {
                        proof {
                            crate::semantics::lemma_targets_fail(
                                start,
                                views,
                                j as int + 1,
                                outputs@.len() as int,
                                fuel as nat,
                            );
                        }
                        return Err(problem);
                    },
                };
                let ghost resolved = (target.0@, target.1);
                targets.push((Some(target), output_position));
                assert(outputs_view(targets@) =~= before.push((Some(resolved), output_position)));
            }
            j += 1;
        }
        Ok(targets)
    }

    /// Simplifies statements in their order into the current scope, up to
    /// an unconditional return, and says whether any of them was kept.
    pub fn run_statements(&mut self, program: &mut Program, statements: &Vec<Expression>, fuel: usize) -> (r:
        Result<bool, CompileProblem>)
        requires
            old(self).valid_for(old(program)@),
        ensures
            final(self).stepped(old(self), final(program)@, old(program)@),
            match ran(
                old(self).pass(old(program)@),
                expressions_view(statements@),
                0,
                fuel as nat,
                false,
            ) {
                Ok((residual, after)) => r == Ok::<bool, CompileProblem>(residual) && final(self).pass(final(program)@) == after,
                Err(problem) => r is Err && r.unwrap_err()@ == problem,
            },
        decreases fuel, *statements, 0int,
    {
        let ghost start = self.pass(program@);
        let ghost views = expressions_view(statements@);
        let scope = self.current_scope;
        let mut residual: bool = false;
        let mut stopped: bool = false;
        let mut s: usize = 0;
        while s < statements.len() && !stopped
            invariant
                s <= statements.len(),
                views == expressions_view(statements@),
                start == old(self).pass(old(program)@),
                scope == self.current_scope,
                self.stepped(old(self), program@, old(program)@),
                !stopped ==> ran(start, views, 0, fuel as nat, false) == ran(
                    self.pass(program@),
                    views,
                    s as int,
                    fuel as nat,
                    residual,
                ),
                stopped ==> ran(start, views, 0, fuel as nat, false) == Ok::<
                    (bool, Pass),
                    ProblemView,
                >((residual, self.pass(program@))),
            decreases statements.len() - s, if stopped { 0int } else { 1int },
        {
            assert(views[s as int] == statements@[s as int]@);
            let simplified = match self.simplify_expression(program, &statements[s], fuel) {
                Ok(simplified) => simplified,
                Err(problem) => {
                    return Err(problem);
                },
            };
            match keep_statement(program, scope, simplified, (&statements[s]).clone_position()) {
                Ok(Flow::Stopped) => {
                    stopped = true;
                },
                Ok(Flow::Kept) => {
                    residual = true;
                    s += 1;
                },
                Ok(Flow::Dropped) => {
                    s += 1;
                },
                Err(problem) => {
                    return Err(problem);
                },
            }
        }
        Ok(residual)
    }

    /// Instantiates the function that `call` calls, within the table that
    /// `simplify_func_call` has opened for it.
    pub fn instantiate(&mut self, program: &mut Program, call: &Expression, fuel: usize) -> (r:
        Result<Instantiation, CompileProblem>)
        requires
            old(self).valid_for(old(program)@),
            *call is FuncCall,
        ensures
            final(self).inside(old(self), final(program)@, old(program)@),
            r is Ok ==> r.unwrap().value@.residual_resolved(),
            r is Ok ==> final(program)@.has_scope(r.unwrap().body),
            match instantiated(old(self).pass(old(program)@), call@, fuel as nat) {
                Ok((instance, after)) => r is Ok && r.unwrap()@ == instance && final(self).pass(final(program)@) == after,
                Err(problem) => r is Err && r.unwrap_err()@ == problem,
            },
            call@->FuncCall_function.pure() && (fuel == 0 || call_fault(
                old(program)@,
                old(self).table@.current,
                call@,
            ) is Some) ==> r is Err && final(program)@ == old(program)@ && final(self).table@
                == old(self).table@,
        decreases fuel, *call, 0int,
    {
        assert(call@ == Expr::FuncCall {
            function: Box::new((*call->FuncCall_function)@),
            inputs: expressions_view(call->FuncCall_inputs@),
            outputs: expressions_view(call->FuncCall_outputs@),
            position: call->FuncCall_position,
        });
        let (function, inputs, outputs, position) = match call {
            Expression::FuncCall { function, inputs, outputs, position } => (
                function,
                inputs,
                outputs,
                *position,
            ),
            _ => {
                return Err(
                    CompileProblem::new(
                        ProblemKind::UnexpectedExpression,
                        FilePosition::placeholder(),
                    ),
                );
            },
        };
        // The callee.
        let callee = match self.simplify_expression(program, function, fuel) {
            Ok(simplified) => simplified,
            Err(problem) => {
                return Err(problem);
            },
        };
        proof {
            if function@.pure() {
                crate::semantics::lemma_pure_simplified(
                    old(self).pass(old(program)@),
                    function@,
                    fuel as nat,
                );
            }
        }
        let function_data: FunctionData = match callee.content {
            Content::Interpreted(KnownData::Function(data)) => data,
            Content::Interpreted(_) => {
                return Err(
                    CompileProblem::new(ProblemKind::NotFunction, function.clone_position()),
                );
            },
            Content::Modified(_) => {
                return Err(
                    problem_in_context(
                        ProblemKind::VagueFunction,
                        position,
                        function.clone_position(),
                    ),
                );
            },
        };
        let body = function_data.get_body();
        if !program.has_scope(body) {
            return Err(CompileProblem::new(ProblemKind::UnknownId, position));
        }
        // The shape of the call.
        let ghost found = self.pass(program@);
        let input_count: usize = program.borrow_scope(body).borrow_inputs().len();
        if input_count != inputs.len() {
            return Err(
                wrong_number_of_inputs(
                    position,
                    *function_data.get_header(),
                    inputs.len(),
                    input_count,
                ),
            );
        }
        let output_count: usize = program.borrow_scope(body).borrow_outputs().len();
        if output_count != outputs.len() {
            return Err(
                wrong_number_of_outputs(
                    position,
                    *function_data.get_header(),
                    outputs.len(),
                    output_count,
                ),
            );
        }
        let inline_count = count_inline_returns(outputs);
        if inline_count > 1 {
            return Err(
                problem_in_context(
                    ProblemKind::TooManyInlineReturns { count: inline_count },
                    position,
                    *function_data.get_header(),
                ),
            );
        }
        assert(function@.pure() ==> call_fault(old(program)@, old(self).table@.current, call@)
            is None);
        if fuel == 0 {
            return Err(CompileProblem::new(ProblemKind::NestingTooDeep, position));
        }
        // The arguments and the outputs, in the scope of the caller.
        let arguments = match self.simplify_operands(program, inputs, fuel) {
            Ok(arguments) => arguments,
            Err(problem) => {
                return Err(problem);
            },
        };
        let targets = match self.simplify_targets(program, outputs, fuel) {
            Ok(targets) => targets,
            Err(problem) => {
                return Err(problem);
            },
        };
        assert(program@.extends(found.program));
        // The instance.
        let caller = self.current_scope;
        let ghost bound = self.pass(program@);
        let (copy, inline_output) = match prepare_instance(
            program,
            &mut self.table,
            body,
            caller,
            &arguments,
            &targets,
            position,
        ) {
            Ok(prepared) => prepared,
            Err(problem) => {
                return Err(problem);
            },
        };
        // The body.
        let statements = clone_expressions(program.borrow_scope(body).borrow_body());
        self.current_scope = copy;
        let outcome = self.run_statements(program, &statements, (fuel - 1) as usize);
        self.current_scope = caller;
        let residual = match outcome {
            Ok(residual) => residual,
            Err(problem) => {
                return Err(problem);
            },
        };
        // The value.
        let value = match inline_output {
            Some(instance) => {
                match crate::simplifier::read_variable(program, instance, FilePosition::placeholder()) {
                    Ok(value) => value,
                    Err(problem) => {
                        return Err(problem);
                    },
                }
            },
            None => SimplifiedExpression {
                content: Content::Interpreted(KnownData::Void),
                data_type: DataType::Void,
            },
        };
        Ok(Instantiation { body: copy, residual, value })
    }
}

} // verus!
