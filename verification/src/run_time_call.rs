//! What a call with an argument that is not known leaves, proved from the
//! semantics for every function that adds a literal to its one input.

use crate::binding::{prepared, Prepared};
use crate::copier::{convertible, copy_of};
use crate::data_type::DataType;
use crate::expression::Expr;
use crate::ids::{ScopeId, VariableId};
use crate::known_data::Value;
use crate::operator::BinaryOperator;
use crate::position::FilePosition;
use crate::problem::ProblemView;
use crate::program::ProgramView;
use crate::semantics::{called, instantiated, InstanceView, Pass};
use crate::simplified::{ContentView, SimplifiedView};
use crate::table::TableView;
use vstd::prelude::*;

verus! {

/// Whether the scope `body` is the body of a function with the input `x`
/// and the output `y`, both integers without a known value, and with the
/// one statement `y = x + literal;`.
pub open spec fn adds_a_literal(program: ProgramView, body: ScopeId, x: VariableId, y: VariableId) -> bool {
    let scope = program.scope(body);
    &&& program.has_scope(body)
    &&& x != y
    &&& program.has_variable(x)
    &&& program.has_variable(y)
    &&& scope.symbols.len() == 2
    &&& scope.symbols[0].1 == x
    &&& scope.symbols[1].1 == y
    &&& scope.intermediates.len() == 0
    &&& scope.inputs == seq![x]
    &&& scope.outputs == seq![y]
    &&& program.variable(x).data_type == DataType::Int
    &&& program.variable(y).data_type == DataType::Int
    &&& program.variable(x).initial_value == Value::Unknown
    &&& program.variable(y).initial_value == Value::Unknown
    &&& program.variable(x).temporary_value == Value::Unknown
    &&& program.variable(y).temporary_value == Value::Unknown
    &&& scope.body.len() == 1
    &&& scope.body[0] is Assign
    &&& *scope.body[0]->Assign_target is Variable
    &&& scope.body[0]->Assign_target->Variable_0 == y
    &&& *scope.body[0]->Assign_value is BinaryOperation
    &&& *scope.body[0]->Assign_value->BinaryOperation_0 is Variable
    &&& scope.body[0]->Assign_value->BinaryOperation_0->Variable_0 == x
    &&& scope.body[0]->Assign_value->BinaryOperation_1 == BinaryOperator::Add
    &&& *scope.body[0]->Assign_value->BinaryOperation_2 is Literal
    &&& scope.body[0]->Assign_value->BinaryOperation_2->Literal_0 is Int
}

/// The instance of such a function for an argument of which the code
/// `code` is left, and for the inline output: the body is copied, the
/// code stands in the place of the input, and the copy of the output
/// holds the value of the call.
pub proof fn lemma_prepared_for_code(
    program: ProgramView,
    table: TableView,
    body: ScopeId,
    caller: ScopeId,
    x: VariableId,
    y: VariableId,
    code: Expr,
    argument_position: FilePosition,
    output_position: FilePosition,
    call: FilePosition,
)
    requires
        program.wf(),
        adds_a_literal(program, body, x, y),
        program.variables.len() + 2 <= usize::MAX,
        program.scopes.len() < usize::MAX,
        !table.current.conversions.contains_key(x),
        !table.current.conversions.contains_key(y),
    ensures
        ({
            let ids = program.scope(body).own_ids();
            let first = program.variables.len();
            let instances = table.with_instances(ids, first);
            prepared(
                program,
                table,
                body,
                caller,
                seq![
                    (
                        SimplifiedView { content: ContentView::Modified(code), data_type: DataType::Int },
                        argument_position,
                    ),
                ],
                seq![(None::<(Expr, DataType)>, output_position)],
                call,
            ) == Ok::<Prepared, ProblemView>(
                Prepared {
                    program: program.with_copy(body, Some(caller), instances.current),
                    table: instances.with_substitution(x, code, DataType::Int),
                    copy: ScopeId(program.scopes.len() as usize),
                    inline: Some(VariableId((first + 1) as usize)),
                },
            )
        }),
        ({
            let ids = program.scope(body).own_ids();
            let first = program.variables.len();
            let instances = table.with_instances(ids, first);
            let copied = program.with_copy(body, Some(caller), instances.current);
            let copy = ScopeId(program.scopes.len() as usize);
            let out = VariableId((first + 1) as usize);
            &&& instances.current.convert(y) == out
            &&& instances.current.substitutions == table.current.substitutions
            &&& instances.stack == table.stack
            &&& copied.scopes.len() == program.scopes.len() + 1
            &&& copied.variables.len() == first + 2
            &&& copied.variable(out) == program.variable(y)
            &&& copied.scope(copy).body == Seq::<Expr>::empty()
            &&& copied.scope(copy).parent == Some(caller)
            &&& forall|s: int| 0 <= s < program.scopes.len() ==> #[trigger] copied.scopes[s] == program.scopes[s]
            &&& forall|v: int| 0 <= v < first ==> #[trigger] copied.variables[v] == program.variables[v]
        }),
{
    let ids = program.scope(body).own_ids();
    let first = program.variables.len();
    let instances = table.with_instances(ids, first);
    let frame = instances.current;
    let copied = program.with_copy(body, Some(caller), frame);
    let copy = ScopeId(program.scopes.len() as usize);
    let arguments = seq![
        (
            SimplifiedView { content: ContentView::Modified(code), data_type: DataType::Int },
            argument_position,
        ),
    ];
    let outputs = seq![(None::<(Expr, DataType)>, output_position)];
    assert(ids.len() == 2);
    assert(ids[0] == x);
    assert(ids[1] == y);
    assert(ids =~= seq![x, y]);
    assert(convertible(table.current, ids));
    // The conversions of the two parameters.
    assert(ids.contains(x));
    assert(ids.contains(y));
    let at_x = crate::copier::place_of(ids, x);
    let at_y = crate::copier::place_of(ids, y);
    assert(ids[at_x] == x && 0 <= at_x < 2);
    assert(ids[at_y] == y && 0 <= at_y < 2);
    assert(at_x == 0);
    assert(at_y == 1);
    let new_x = VariableId(first as usize);
    let new_y = VariableId((first + 1) as usize);
    assert(frame.convert(x) == new_x);
    assert(frame.convert(y) == new_y);
    // The variables of the copy.
    assert(copied.variables.len() == first + 2);
    assert(copied.variable(new_x) == frame.convert_variable(program.variable(x)));
    assert(copied.variable(new_y) == frame.convert_variable(program.variable(y)));
    assert(copied.variable(new_x) == program.variable(x));
    assert(copied.variable(new_y) == program.variable(y));
    assert(copied.scope(body) == program.scope(body));
    assert(copied.scope(copy) == copy_of(program, body, Some(caller), frame));
    let inputs = copied.scope(body).inputs;
    let results = copied.scope(body).outputs;
    // Nothing is inferred: no parameter names a template parameter.
    assert(crate::binding::inferred_inputs(copied, frame, inputs, arguments, 0, call) == Ok::<
        Map<VariableId, DataType>,
        ProblemView,
    >(Map::empty()));
    assert(crate::binding::inferred_inputs(copied, frame, inputs, arguments, 1, call) == Ok::<
        Map<VariableId, DataType>,
        ProblemView,
    >(Map::empty()));
    assert(crate::binding::inferred_outputs(
        copied,
        frame,
        results,
        outputs,
        0,
        call,
        Map::empty(),
    ) == Ok::<Map<VariableId, DataType>, ProblemView>(Map::empty()));
    assert(crate::binding::inferred_outputs(
        copied,
        frame,
        results,
        outputs,
        1,
        call,
        Map::empty(),
    ) == Ok::<Map<VariableId, DataType>, ProblemView>(Map::empty()));
    let written = copied.with_bindings(Map::empty());
    assert(written.variables =~= copied.variables);
    assert(written == copied);
    // The types are concrete already.
    let own = written.scope(copy).own_ids();
    assert(own.len() == 2);
    assert(own[0] == new_x);
    assert(own[1] == new_y);
    let steps = copied.variables.len();
    assert(copied.resolved_type(DataType::Int, steps) == DataType::Int);
    assert(copied.with_resolved_types(new_x).variables =~= copied.variables);
    assert(copied.with_resolved_types(new_x) == copied);
    assert(copied.with_resolved_types(new_y).variables =~= copied.variables);
    assert(copied.with_resolved_types(new_y) == copied);
    assert(written.after_resolving(own, 0) == copied);
    assert(written.after_resolving(own, 1) == copied);
    assert(written.after_resolving(own, 2) == copied);
    // The input and the output are bound.
    assert(crate::data_type::spec_biggest_type(DataType::Int, DataType::Int) == Some(DataType::Int));
    assert(copied.with_variable(new_x, copied.variable(new_x)).variables =~= copied.variables);
    assert(crate::binding::inputs_bound(copied, instances, inputs, arguments, 0) == Ok::<
        (ProgramView, TableView),
        ProblemView,
    >((copied, instances)));
    assert(crate::binding::inputs_bound(copied, instances, inputs, arguments, 1) == Ok::<
        (ProgramView, TableView),
        ProblemView,
    >((copied, instances.with_substitution(x, code, DataType::Int))));
    let bound_table = instances.with_substitution(x, code, DataType::Int);
    assert(bound_table.current.convert(y) == new_y);
    assert(crate::binding::outputs_bound(bound_table, results, outputs, 0) == (
        bound_table,
        None::<VariableId>,
    ));
    assert(crate::binding::outputs_bound(bound_table, results, outputs, 1) == (
        bound_table,
        Some(new_y),
    ));
}

/// The statement that assigns `code + literal` to the variable `out`.
pub open spec fn residual_sum(
    out: VariableId,
    code: Expr,
    statement: Expr,
) -> Expr {
    let value = *statement->Assign_value;
    Expr::Assign {
        target: Box::new(Expr::Variable(out, statement->Assign_target.position())),
        value: Box::new(
            Expr::BinaryOperation(
                Box::new(code),
                BinaryOperator::Add,
                Box::new(*value->BinaryOperation_2),
                value->BinaryOperation_3,
            ),
        ),
        position: statement->Assign_position,
    }
}

/// Whether the statement is `y = x + literal;` with an integer literal.
pub open spec fn is_sum_statement(statement: Expr, x: VariableId, y: VariableId) -> bool {
    &&& statement is Assign
    &&& *statement->Assign_target is Variable
    &&& statement->Assign_target->Variable_0 == y
    &&& *statement->Assign_value is BinaryOperation
    &&& *statement->Assign_value->BinaryOperation_0 is Variable
    &&& statement->Assign_value->BinaryOperation_0->Variable_0 == x
    &&& statement->Assign_value->BinaryOperation_1 == BinaryOperator::Add
    &&& *statement->Assign_value->BinaryOperation_2 is Literal
    &&& statement->Assign_value->BinaryOperation_2->Literal_0 is Int
}

/// The statement `y = x + literal;` of an instance in which the code
/// `code` stands in the place of `x`: nothing is folded, and the statement
/// is left in the instance with the code in it, assigning to the copy of
/// `y`, whose value is not known afterwards.
pub proof fn lemma_sum_of_code_is_left(
    program: ProgramView,
    table: TableView,
    copy: ScopeId,
    x: VariableId,
    y: VariableId,
    out: VariableId,
    code: Expr,
    statement: Expr,
    fuel: nat,
)
    requires
        is_sum_statement(statement, x, y),
        program.has_scope(copy),
        program.has_variable(out),
        program.variable(out).data_type == DataType::Int,
        table.current.substitutions.contains_key(x),
        table.current.substitutions[x] == (code, DataType::Int),
        !table.current.substitutions.contains_key(y),
        table.current.convert(y) == out,
    ensures
        crate::semantics::ran(
            Pass { program, table, scope: copy },
            seq![statement],
            0,
            fuel,
            false,
        ) == Ok::<(bool, Pass), ProblemView>(
            (
                true,
                Pass {
                    program: program.forgotten(Expr::Variable(out, FilePosition::spec_placeholder())).with_scope(
                        copy,
                        crate::scope::ScopeView {
                            body: program.scope(copy).body.push(residual_sum(out, code, statement)),
                            ..program.scope(copy)
                        },
                    ),
                    table,
                    scope: copy,
                },
            ),
        ),
{
    let state = Pass { program, table, scope: copy };
    let frame = table.current;
    let left = *statement->Assign_target;
    let value = *statement->Assign_value;
    let position = statement->Assign_position;
    let first = *value->BinaryOperation_0;
    let second = *value->BinaryOperation_2;
    assert(statement == Expr::Assign {
        target: Box::new(left),
        value: Box::new(value),
        position,
    });
    assert(value == Expr::BinaryOperation(
        Box::new(first),
        BinaryOperator::Add,
        Box::new(second),
        value->BinaryOperation_3,
    ));
    assert(first.pure());
    assert(second.pure());
    assert(value.pure());
    assert(left.pure_target());
    crate::semantics::lemma_pure_assigned(state, left, value, position, fuel);
    // The target.
    let target_expression = Expr::Variable(out, left.position());
    assert(crate::assign::target_outcome(program, frame, y, left.position()) == Ok::<
        (Expr, DataType),
        ProblemView,
    >((target_expression, DataType::Int)));
    assert(crate::assign::pure_target_outcome(program, frame, left) == Ok::<
        (Expr, DataType),
        ProblemView,
    >((target_expression, DataType::Int)));
    // The value.
    let operand_x = SimplifiedView { content: ContentView::Modified(code), data_type: DataType::Int };
    assert(crate::calls::pure_outcome(program, frame, first) == Ok::<SimplifiedView, ProblemView>(
        operand_x,
    ));
    let number = second->Literal_0;
    let operand_one = SimplifiedView {
        content: ContentView::Interpreted(number),
        data_type: DataType::Int,
    };
    assert(number.data_type() == Some(DataType::Int));
    assert(crate::calls::pure_outcome(program, frame, second) == Ok::<SimplifiedView, ProblemView>(
        operand_one,
    ));
    assert(crate::data_type::spec_biggest_type(DataType::Int, DataType::Int) == Some(DataType::Int));
    assert(number.run_time());
    let sum = Expr::BinaryOperation(
        Box::new(code),
        BinaryOperator::Add,
        Box::new(Expr::Literal(number, second.position())),
        value->BinaryOperation_3,
    );
    assert(second == Expr::Literal(number, second.position()));
    let simplified_sum = SimplifiedView { content: ContentView::Modified(sum), data_type: DataType::Int };
    assert(crate::binary::binary_outcome(
        operand_x,
        first.position(),
        BinaryOperator::Add,
        operand_one,
        second.position(),
        value->BinaryOperation_3,
    ) == Ok::<SimplifiedView, ProblemView>(simplified_sum));
    assert(value.position() == value->BinaryOperation_3);
    assert(crate::calls::pure_outcome(program, frame, value) == Ok::<SimplifiedView, ProblemView>(
        simplified_sum,
    ));
    // The two together.
    let residual = residual_sum(out, code, statement);
    let left_over = SimplifiedView { content: ContentView::Modified(residual), data_type: DataType::Void };
    let after = program.forgotten(target_expression);
    assert(crate::assign::assignment_outcome(
        program,
        target_expression,
        DataType::Int,
        left.position(),
        simplified_sum,
        value.position(),
        position,
    ) == (Ok::<SimplifiedView, ProblemView>(left_over), after));
    assert(crate::assign::pure_assignment_outcome(program, frame, left, value, position) == (
        Ok::<SimplifiedView, ProblemView>(left_over),
        after,
    ));
    assert(after == program.forgotten(Expr::Variable(out, FilePosition::spec_placeholder())));
    let stepped = Pass { program: after, ..state };
    assert(crate::semantics::simplified(state, statement, fuel) == Ok::<
        (SimplifiedView, Pass),
        ProblemView,
    >((left_over, stepped)));
    assert(statement.position() == position);
    let kept = after.with_scope(
        copy,
        crate::scope::ScopeView { body: after.scope(copy).body.push(residual), ..after.scope(copy) },
    );
    assert(after.scope(copy) == program.scope(copy));
    assert(crate::binding::kept_statement(after, copy, left_over, position) == Ok::<
        (crate::binding::Flow, ProgramView),
        ProblemView,
    >((crate::binding::Flow::Kept, kept)));
    let done = Pass { program: kept, ..stepped };
    assert(crate::semantics::ran(done, seq![statement], 1, fuel, true) == Ok::<
        (bool, Pass),
        ProblemView,
    >((true, done)));
}

/// What a call of a function that adds a literal to its input leaves
/// where the argument is not known and the call asks for its value inline.
///
/// Nothing is folded. The body is instantiated: the instance holds the one
/// statement that assigns the sum of the argument's code and the literal
/// to the copy of the output. One call of the instance is added to the
/// scope of the caller. The value of the call is a reference to the copy
/// of the output, of type integer, and the compile-time value of that
/// variable is not known. The table is what it was.
pub proof fn lemma_call_with_an_unknown_argument(
    state: Pass,
    call: Expr,
    data: crate::known_data::FunctionData,
    x: VariableId,
    y: VariableId,
    code: Expr,
    fuel: nat,
)
    requires
        state.program.wf(),
        state.program.has_scope(state.scope),
        state.program.variables.len() + 2 <= usize::MAX,
        state.program.scopes.len() < usize::MAX,
        fuel > 0,
        call is FuncCall,
        call->FuncCall_function.pure(),
        crate::calls::pure_outcome(state.program, state.table.current, *call->FuncCall_function)
            is Ok,
        crate::calls::pure_outcome(
            state.program,
            state.table.current,
            *call->FuncCall_function,
        )->Ok_0.content == ContentView::Interpreted(Value::Function(data)),
        adds_a_literal(state.program, data.body, x, y),
        call->FuncCall_inputs.len() == 1,
        call->FuncCall_inputs[0].pure(),
        crate::calls::pure_outcome(state.program, state.table.current, call->FuncCall_inputs[0])
            == Ok::<SimplifiedView, ProblemView>(
            SimplifiedView { content: ContentView::Modified(code), data_type: DataType::Int },
        ),
        call->FuncCall_outputs.len() == 1,
        call->FuncCall_outputs[0] is InlineReturn,
        !state.table.current.conversions.contains_key(x),
        !state.table.current.conversions.contains_key(y),
        !state.table.current.substitutions.contains_key(x),
        !state.table.current.substitutions.contains_key(y),
    ensures
        ({
            let first = state.program.variables.len();
            let copy = ScopeId(state.program.scopes.len() as usize);
            let out = VariableId((first + 1) as usize);
            let outcome = called(state, call, fuel);
            &&& outcome is Ok
            &&& outcome->Ok_0.0 == (SimplifiedView {
                content: ContentView::Modified(Expr::Variable(out, FilePosition::spec_placeholder())),
                data_type: DataType::Int,
            })
            &&& outcome->Ok_0.1.table == state.table
            &&& outcome->Ok_0.1.scope == state.scope
            &&& outcome->Ok_0.1.program.scopes.len() == state.program.scopes.len() + 1
            &&& outcome->Ok_0.1.program.variables.len() == first + 2
            &&& outcome->Ok_0.1.program.scope(copy).body == seq![
                residual_sum(out, code, state.program.scope(data.body).body[0]),
            ]
            &&& outcome->Ok_0.1.program.scope(state.scope).body == state.program.scope(
                state.scope,
            ).body.push(Expr::Call { body: copy, position: call->FuncCall_position })
            &&& outcome->Ok_0.1.program.variable(out).data_type == DataType::Int
            &&& outcome->Ok_0.1.program.variable(out).temporary_value == Value::Unknown
        }),
{
    let program = state.program;
    let body = data.body;
    let function = *call->FuncCall_function;
    let inputs = call->FuncCall_inputs;
    let outputs = call->FuncCall_outputs;
    let position = call->FuncCall_position;
    let first = program.variables.len();
    let copy = ScopeId(program.scopes.len() as usize);
    let out = VariableId((first + 1) as usize);
    let inside = Pass { table: state.table.pushed(), ..state };
    let frame = inside.table.current;
    assert(frame == state.table.current);
    // The callee and the shape of the call.
    crate::semantics::lemma_pure_simplified(inside, function, fuel);
    assert(crate::instantiate::inline_returns(outputs, 0) == 0);
    assert(crate::instantiate::inline_returns(outputs, 1) == 1);
    // The argument and the output.
    let argument = SimplifiedView { content: ContentView::Modified(code), data_type: DataType::Int };
    let arguments = seq![(argument, inputs[0].position())];
    assert forall|i: int| 0 <= i < inputs.len() implies (#[trigger] inputs[i]).pure() by {
        assert(i == 0);
    }
    crate::semantics::lemma_pure_operands(inside, inputs, 1, fuel);
    assert(crate::calls::pure_indexes(program, frame, inputs, 0) == Ok::<
        Seq<(SimplifiedView, FilePosition)>,
        ProblemView,
    >(Seq::empty()));
    assert(Seq::<(SimplifiedView, FilePosition)>::empty().push((argument, inputs[0].position()))
        =~= arguments);
    assert(crate::calls::pure_indexes(program, frame, inputs, 1) == Ok::<
        Seq<(SimplifiedView, FilePosition)>,
        ProblemView,
    >(arguments));
    let wanted = seq![(None::<(Expr, DataType)>, outputs[0].position())];
    assert(crate::semantics::targets(inside, outputs, 0, fuel) == Ok::<
        (Seq<(Option<(Expr, DataType)>, FilePosition)>, Pass),
        ProblemView,
    >((Seq::empty(), inside)));
    assert(Seq::<(Option<(Expr, DataType)>, FilePosition)>::empty().push(
        (None::<(Expr, DataType)>, outputs[0].position()),
    ) =~= wanted);
    assert(crate::semantics::targets(inside, outputs, 1, fuel) == Ok::<
        (Seq<(Option<(Expr, DataType)>, FilePosition)>, Pass),
        ProblemView,
    >((wanted, inside)));
    // The instance.
    lemma_prepared_for_code(
        program,
        inside.table,
        body,
        state.scope,
        x,
        y,
        code,
        inputs[0].position(),
        outputs[0].position(),
        position,
    );
    let ids = program.scope(body).own_ids();
    let instances = inside.table.with_instances(ids, first);
    let copied = program.with_copy(body, Some(state.scope), instances.current);
    let bound_table = instances.with_substitution(x, code, DataType::Int);
    assert(copied.scope(body) == program.scope(body));
    let statement = program.scope(body).body[0];
    assert(copied.scope(body).body =~= seq![statement]);
    // The body.
    lemma_sum_of_code_is_left(
        copied,
        bound_table,
        copy,
        x,
        y,
        out,
        code,
        statement,
        (fuel - 1) as nat,
    );
    let forgotten = copied.forgotten(Expr::Variable(out, FilePosition::spec_placeholder()));
    let residual = residual_sum(out, code, statement);
    let ran_program = forgotten.with_scope(
        copy,
        crate::scope::ScopeView {
            body: copied.scope(copy).body.push(residual),
            ..copied.scope(copy)
        },
    );
    assert(copied.scope(copy).body.push(residual) =~= seq![residual]);
    // The value of the call.
    assert(ran_program.variable(out).temporary_value == Value::Unknown);
    assert(ran_program.variable(out).data_type == DataType::Int);
    assert(!Value::Unknown.concrete());
    assert(crate::simplifier::variable_outcome(
        ran_program,
        crate::table::FrameView::empty(),
        out,
        FilePosition::spec_placeholder(),
    ) == Ok::<SimplifiedView, ProblemView>(
        SimplifiedView {
            content: ContentView::Modified(Expr::Variable(out, FilePosition::spec_placeholder())),
            data_type: DataType::Int,
        },
    ));
    let done = Pass { program: ran_program, table: bound_table, scope: copy };
    let value = SimplifiedView {
        content: ContentView::Modified(Expr::Variable(out, FilePosition::spec_placeholder())),
        data_type: DataType::Int,
    };
    assert(instantiated(inside, call, fuel) == Ok::<(InstanceView, Pass), ProblemView>(
        (InstanceView { body: copy, residual: true, value }, Pass { scope: state.scope, ..done }),
    ));
    crate::table::lemma_push_pop_round_trip(state.table, bound_table);
    assert(call.position() == position);
    if state.scope == copy {
        assert(false);
    }
}

} // verus!
