use waveguide::binding::prepare_instance;
use waveguide::builtins::add_builtins;
use waveguide::data_type::DataType;
use waveguide::driver::simplify_scope;
use waveguide::emit::{add_casts, emit_call, hold_outputs, pass_inputs, pin_outputs};
use waveguide::expression::Expression;
use waveguide::func_call::{FuncCall, VarAccess};
use waveguide::ids::{ScopeId, VariableId};
use waveguide::known_data::{FunctionData, KnownData};
use waveguide::operator::BinaryOperator;
use waveguide::position::FilePosition;
use waveguide::problem::ProblemKind;
use waveguide::program::Program;
use waveguide::resolution::{bound_types, read_types, unify_types};
use waveguide::resolver::{builtin_types, ScopeResolver};
use waveguide::simplified::{Content, SimplifiedExpression};
use waveguide::simplifier::ScopeSimplifier;
use waveguide::table::ResolverTable;
use waveguide::template::{write_bindings, TypeTable};
use waveguide::variable::Variable;

fn span(start: usize, end: usize) -> FilePosition {
    FilePosition::from_bounds(start, end)
}

fn number(value: i64, start: usize) -> Expression {
    Expression::Literal(KnownData::Int(value), span(start, start + 1))
}

fn named(id: VariableId, start: usize) -> Expression {
    Expression::Variable(id, span(start, start + 1))
}

fn sum(left: Expression, right: Expression, position: FilePosition) -> Expression {
    Expression::BinaryOperation(Box::new(left), BinaryOperator::Add, Box::new(right), position)
}

fn assign(target: Expression, value: Expression, position: FilePosition) -> Expression {
    Expression::Assign { target: Box::new(target), value: Box::new(value), position }
}

fn shown<T: std::fmt::Debug>(value: &T) -> String {
    format!("{:?}", value)
}

fn triple() -> DataType {
    DataType::Array(3, Box::new(DataType::Int))
}

fn declare(program: &mut Program, scope: ScopeId, name: &str, data_type: DataType) -> VariableId {
    program.adopt_and_define_symbol(scope, name, Variable::variable(span(0, 1), data_type, None))
}

/// Declares `fn twice(Int x):(Int y) { y = x + x; }` in the root scope.
fn declare_twice(program: &mut Program) -> (VariableId, ScopeId, VariableId, VariableId) {
    let root = program.get_entry_point();
    let body = program.create_child_scope(root);
    let x = declare(program, body, "x", DataType::Int);
    let y = declare(program, body, "y", DataType::Int);
    program.add_input(body, x);
    program.add_output(body, y);
    program.add_expression(body, assign(named(y, 30), sum(named(x, 34), named(x, 38), span(34, 39)), span(30, 40)));
    let function = program.adopt_and_define_symbol(
        root,
        "twice",
        Variable::function_def(FunctionData::new(body, span(20, 29))),
    );
    (function, body, x, y)
}

fn call_of(function: VariableId, inputs: Vec<Expression>, outputs: Vec<Expression>, position: FilePosition) -> Expression {
    Expression::FuncCall { function: Box::new(named(function, position.get_start())), inputs, outputs, position }
}

#[test]
fn an_operand_must_have_a_value() {
    let mut program = Program::new();
    let scope = program.get_entry_point();
    let a = declare(&mut program, scope, "a", DataType::Int);
    let mut simplifier = ScopeSimplifier::new(scope);
    let value = simplifier.simplify_operand(&mut program, &number(4, 0), 4).unwrap();
    assert!(matches!(value.content, Content::Interpreted(KnownData::Int(4))));
    let statement = assign(named(a, 0), number(1, 4), span(0, 5));
    let problem = simplifier.simplify_operand(&mut program, &statement, 4).unwrap_err();
    assert_eq!(problem.get_kind(), ProblemKind::InvalidOperands);
    assert_eq!(problem.borrow_descriptors()[0].position, span(0, 5));
}

#[test]
fn operands_are_simplified_in_their_order() {
    let mut program = Program::new();
    let scope = program.get_entry_point();
    let a = declare(&mut program, scope, "a", DataType::Int);
    let mut simplifier = ScopeSimplifier::new(scope);
    let list = vec![sum(number(1, 0), number(2, 4), span(0, 5)), named(a, 7)];
    let operands = simplifier.simplify_operands(&mut program, &list, 4).unwrap();
    assert_eq!(operands.len(), 2);
    assert!(matches!(operands[0].0.content, Content::Interpreted(KnownData::Int(3))));
    assert_eq!(operands[0].1, span(0, 5));
    assert_eq!(shown(&operands[1].0.content), shown(&Content::Modified(named(a, 7))));
    assert_eq!(operands[1].1, span(7, 8));
    let failing = vec![named(VariableId(99), 0), number(1, 2)];
    assert_eq!(
        simplifier.simplify_operands(&mut program, &failing, 4).unwrap_err().get_kind(),
        ProblemKind::UnknownId
    );
}

#[test]
fn an_access_and_an_operation_simplify_as_expressions_do() {
    let mut program = Program::new();
    let scope = program.get_entry_point();
    let list = program.adopt_and_define_symbol(
        scope,
        "list",
        Variable::variable(
            span(0, 4),
            triple(),
            Some(KnownData::Array(vec![KnownData::Int(4), KnownData::Int(5), KnownData::Int(6)])),
        ),
    );
    let mut simplifier = ScopeSimplifier::new(scope);
    let access = Expression::Access {
        base: Box::new(named(list, 0)),
        indexes: vec![number(2, 5)],
        position: span(0, 7),
    };
    let item = simplifier.simplify_access(&mut program, &access, 4).unwrap();
    assert_eq!(item.data_type, DataType::Int);
    assert!(matches!(item.content, Content::Interpreted(KnownData::Int(6))));
    let operation = sum(access, number(10, 10), span(0, 12));
    let total = simplifier.simplify_binary(&mut program, &operation, 4).unwrap();
    assert!(matches!(total.content, Content::Interpreted(KnownData::Int(16))));
}

#[test]
fn the_target_of_an_assignment_is_converted_and_its_indexes_simplified() {
    let mut program = Program::new();
    let scope = program.get_entry_point();
    let list = declare(&mut program, scope, "list", triple());
    let copy = declare(&mut program, scope, "copy", triple());
    let mut simplifier = ScopeSimplifier::new(scope);
    simplifier.table.add_conversion(list, copy);
    let target = Expression::Access {
        base: Box::new(named(list, 0)),
        indexes: vec![sum(number(1, 5), number(1, 9), span(5, 10))],
        position: span(0, 11),
    };
    let (expression, data_type) =
        simplifier.simplify_assignment_access_expression(&mut program, &target, 4).unwrap();
    assert_eq!(data_type, DataType::Int);
    match expression {
        Expression::Access { base, indexes, position } => {
            assert!(matches!(*base, Expression::Variable(id, _) if id == copy));
            assert_eq!(indexes.len(), 1);
            assert!(matches!(indexes[0], Expression::Literal(KnownData::Int(2), _)));
            assert_eq!(position, span(0, 11));
        },
        other => panic!("expected an access, found {:?}", other),
    }
    let too_deep = Expression::Access {
        base: Box::new(named(list, 0)),
        indexes: vec![number(0, 5), number(0, 8)],
        position: span(0, 10),
    };
    assert_eq!(
        simplifier.simplify_assignment_access_expression(&mut program, &too_deep, 4).unwrap_err().get_kind(),
        ProblemKind::TooManyIndexes { provided: 2, available: 1 }
    );
    assert_eq!(
        simplifier.simplify_assignment_access_expression(&mut program, &number(1, 0), 4).unwrap_err().get_kind(),
        ProblemKind::NotAssignable
    );
}

#[test]
fn an_assignment_statement_stores_what_is_known() {
    let mut program = Program::new();
    let scope = program.get_entry_point();
    let a = program.adopt_and_define_symbol(scope, "a", Variable::automatic(span(0, 1)));
    let mut simplifier = ScopeSimplifier::new(scope);
    let statement = assign(named(a, 0), sum(number(2, 4), number(3, 8), span(4, 9)), span(0, 10));
    let done = simplifier.simplify_assign_statement(&mut program, &statement, 4).unwrap();
    assert_eq!(done.data_type, DataType::Void);
    assert!(matches!(done.content, Content::Interpreted(KnownData::Void)));
    assert!(matches!(program.borrow_temporary_value(a), KnownData::Int(5)));
    assert_eq!(*program.borrow_variable(a).borrow_data_type(), DataType::Int);
}

#[test]
fn statements_run_up_to_a_return() {
    let mut program = Program::new();
    let scope = program.get_entry_point();
    let a = declare(&mut program, scope, "a", DataType::Int);
    let b = declare(&mut program, scope, "b", DataType::Int);
    let output = program.create_child_scope(scope);
    let mut simplifier = ScopeSimplifier::new(output);
    let statements = vec![
        assign(named(a, 0), number(1, 4), span(0, 5)),
        assign(named(b, 6), named(a, 10), span(6, 11)),
        Expression::Return(span(12, 18)),
        assign(named(a, 19), number(7, 23), span(19, 24)),
    ];
    let residual = simplifier.run_statements(&mut program, &statements, 4).unwrap();
    assert!(!residual);
    assert_eq!(program.borrow_scope(output).borrow_body().len(), 0);
    assert!(matches!(program.borrow_temporary_value(a), KnownData::Int(1)));
    assert!(matches!(program.borrow_temporary_value(b), KnownData::Int(1)));
}

#[test]
fn statements_that_cannot_be_done_are_kept() {
    let mut program = Program::new();
    let scope = program.get_entry_point();
    let a = declare(&mut program, scope, "a", DataType::Int);
    let b = declare(&mut program, scope, "b", DataType::Int);
    let output = program.create_child_scope(scope);
    let mut simplifier = ScopeSimplifier::new(output);
    let statements = vec![
        assign(named(b, 0), sum(named(a, 4), number(1, 8), span(4, 9)), span(0, 10)),
        number(3, 11),
    ];
    let problem = simplifier.run_statements(&mut program, &statements, 4).unwrap_err();
    assert_eq!(problem.get_kind(), ProblemKind::DanglingValue);
    assert_eq!(problem.borrow_descriptors()[0].position, span(11, 12));
    let other = program.create_child_scope(scope);
    let mut simplifier = ScopeSimplifier::new(other);
    let kept = vec![assign(named(b, 0), sum(named(a, 4), number(1, 8), span(4, 9)), span(0, 10))];
    let residual = simplifier.run_statements(&mut program, &kept, 4).unwrap();
    assert!(residual);
    assert_eq!(program.borrow_scope(other).borrow_body().len(), 1);
    assert_eq!(shown(&program.borrow_scope(other).borrow_body()[0]), shown(&kept[0]));
}

#[test]
fn a_scope_is_simplified_into_a_copy_under_a_table_of_its_own() {
    let mut program = Program::new();
    let scope = program.get_entry_point();
    let a = program.adopt_and_define_symbol(scope, "a", Variable::automatic(span(0, 1)));
    let r = declare(&mut program, scope, "r", DataType::Int);
    program.add_expression(scope, assign(named(a, 0), sum(named(r, 4), number(3, 8), span(4, 9)), span(0, 10)));
    let scopes_before = 1;
    let (copy, table) = simplify_scope(&mut program, scope, 8).unwrap();
    assert_eq!(copy, ScopeId(scopes_before));
    assert_eq!(table.depth(), 0);
    let copied_a = program.lookup_symbol(copy, "a").unwrap();
    let copied_r = program.lookup_symbol(copy, "r").unwrap();
    assert_ne!(copied_a, a);
    assert_eq!(table.convert(a), copied_a);
    assert_eq!(table.convert(r), copied_r);
    assert_eq!(program.borrow_scope(copy).borrow_body().len(), 1);
    match &program.borrow_scope(copy).borrow_body()[0] {
        Expression::Assign { target, value, .. } => {
            assert!(matches!(**target, Expression::Variable(id, _) if id == copied_a));
            match &**value {
                Expression::BinaryOperation(left, BinaryOperator::Add, right, _) => {
                    assert!(matches!(**left, Expression::Variable(id, _) if id == copied_r));
                    assert!(matches!(**right, Expression::Literal(KnownData::Int(3), _)));
                },
                other => panic!("expected a sum, found {:?}", other),
            }
        },
        other => panic!("expected an assignment, found {:?}", other),
    }
    assert_eq!(*program.borrow_variable(copied_a).borrow_data_type(), DataType::Int);
    assert_eq!(program.borrow_scope(scope).borrow_body().len(), 1);
    assert_eq!(*program.borrow_variable(a).borrow_data_type(), DataType::Automatic);
}

#[test]
fn a_call_with_known_arguments_leaves_nothing() {
    let mut program = Program::new();
    let scope = program.get_entry_point();
    let (function, body, x, _) = declare_twice(&mut program);
    let mut simplifier = ScopeSimplifier::new(scope);
    let call = call_of(function, vec![number(21, 6)], vec![Expression::InlineReturn(span(10, 11))], span(0, 12));
    simplifier.table.push_table();
    let instance = simplifier.instantiate(&mut program, &call, 4).unwrap();
    assert_ne!(instance.body, body);
    assert!(!instance.residual);
    assert_eq!(instance.value.data_type, DataType::Int);
    assert!(matches!(instance.value.content, Content::Interpreted(KnownData::Int(42))));
    assert_eq!(simplifier.table.depth(), 1);
    assert!(simplifier.table.is_converted(x));
    simplifier.table.pop_table();
    assert!(!simplifier.table.is_converted(x));
    let value = simplifier.simplify_func_call(&mut program, &call, 4).unwrap();
    assert!(matches!(value.content, Content::Interpreted(KnownData::Int(42))));
    assert_eq!(program.borrow_scope(scope).borrow_body().len(), 0);
}

#[test]
fn a_call_with_an_unknown_argument_leaves_a_call_of_its_instance() {
    let mut program = Program::new();
    let scope = program.get_entry_point();
    let (function, body, _, _) = declare_twice(&mut program);
    let n = declare(&mut program, scope, "n", DataType::Int);
    let m = declare(&mut program, scope, "m", DataType::Int);
    let mut simplifier = ScopeSimplifier::new(scope);
    let call = call_of(function, vec![named(n, 6)], vec![named(m, 10)], span(0, 12));
    let value = simplifier.simplify_func_call(&mut program, &call, 4).unwrap();
    assert_eq!(value.data_type, DataType::Void);
    let statements = program.borrow_scope(scope).borrow_body();
    assert_eq!(statements.len(), 1);
    match &statements[0] {
        Expression::Call { body: instance, position } => {
            assert_ne!(*instance, body);
            assert_eq!(*position, span(0, 12));
            let inner = program.borrow_scope(*instance).borrow_body();
            assert_eq!(inner.len(), 1);
            match &inner[0] {
                Expression::Assign { target, value, .. } => {
                    assert!(matches!(**target, Expression::Variable(id, _) if id == m));
                    match &**value {
                        Expression::BinaryOperation(left, BinaryOperator::Add, right, _) => {
                            assert!(matches!(**left, Expression::Variable(id, _) if id == n));
                            assert!(matches!(**right, Expression::Variable(id, _) if id == n));
                        },
                        other => panic!("expected a sum, found {:?}", other),
                    }
                },
                other => panic!("expected an assignment, found {:?}", other),
            }
        },
        other => panic!("expected a call of the instance, found {:?}", other),
    }
    assert_eq!(simplifier.table.depth(), 0);
}

#[test]
fn the_targets_of_a_call_are_nothing_for_the_inline_output() {
    let mut program = Program::new();
    let scope = program.get_entry_point();
    let m = declare(&mut program, scope, "m", DataType::Int);
    let mut simplifier = ScopeSimplifier::new(scope);
    let outputs = vec![Expression::InlineReturn(span(0, 1)), named(m, 3)];
    let targets = simplifier.simplify_targets(&mut program, &outputs, 4).unwrap();
    assert_eq!(targets.len(), 2);
    assert!(targets[0].0.is_none());
    assert_eq!(targets[0].1, span(0, 1));
    let (expression, data_type) = targets[1].0.as_ref().unwrap();
    assert!(matches!(expression, Expression::Variable(id, _) if *id == m));
    assert_eq!(*data_type, DataType::Int);
    assert_eq!(targets[1].1, span(3, 4));
    let unfit = vec![number(1, 0)];
    assert_eq!(
        simplifier.simplify_targets(&mut program, &unfit, 4).unwrap_err().get_kind(),
        ProblemKind::NotAssignable
    );
}

#[test]
fn an_instance_is_prepared_with_its_arguments_bound() {
    let mut program = Program::new();
    let scope = program.get_entry_point();
    let (_, body, x, y) = declare_twice(&mut program);
    let mut table = ResolverTable::new();
    let arguments =
        vec![(SimplifiedExpression { content: Content::Interpreted(KnownData::Int(8)), data_type: DataType::Int }, span(6, 7))];
    let outputs = vec![(None, span(10, 11))];
    let (copy, inline) = prepare_instance(&mut program, &mut table, body, scope, &arguments, &outputs, span(0, 12)).unwrap();
    assert_ne!(copy, body);
    assert_eq!(program.borrow_scope(copy).get_parent(), Some(scope));
    let instance_x = table.convert(x);
    let instance_y = table.convert(y);
    assert_ne!(instance_x, x);
    assert_ne!(instance_y, y);
    assert_eq!(inline, Some(instance_y));
    assert!(matches!(program.borrow_temporary_value(instance_x), KnownData::Int(8)));
    assert!(matches!(program.borrow_temporary_value(x), KnownData::Unknown));
    assert_eq!(program.lookup_symbol(copy, "x"), Some(instance_x));
}

#[test]
fn outputs_of_automatic_type_take_the_types_of_their_parameters() {
    let mut program = Program::new();
    let scope = program.get_entry_point();
    let open = program.adopt_and_define_symbol(scope, "open", Variable::automatic(span(0, 4)));
    let fixed = declare(&mut program, scope, "fixed", DataType::Float);
    let outputs = vec![VarAccess::new(open), VarAccess::new(fixed)];
    pin_outputs(&mut program, &outputs, &vec![DataType::Int, DataType::Int]);
    assert_eq!(*program.borrow_variable(open).borrow_data_type(), DataType::Int);
    assert_eq!(*program.borrow_variable(fixed).borrow_data_type(), DataType::Float);
    let resolver = ScopeResolver::new();
    resolver.resolve_automatic_type(&mut program, &VarAccess::new(fixed), DataType::Bool);
    assert_eq!(*program.borrow_variable(fixed).borrow_data_type(), DataType::Bool);
}

#[test]
fn an_input_of_another_type_is_cast_before_the_call() {
    let mut program = Program::new();
    add_builtins(&mut program);
    let copy_function = program.get_builtins().unwrap().copy_func;
    let scope = program.create_child_scope(program.get_entry_point());
    let narrow = declare(&mut program, scope, "narrow", DataType::Int);
    let wide = declare(&mut program, scope, "wide", triple());
    let inputs = vec![VarAccess::new(narrow), VarAccess::new(wide)];
    let passed = pass_inputs(&mut program, scope, &inputs, &vec![triple(), triple()], span(0, 9)).unwrap();
    assert_eq!(passed.len(), 2);
    let holder = passed[0].get_base();
    assert_ne!(holder, narrow);
    assert_eq!(*program.borrow_variable(holder).borrow_data_type(), triple());
    assert_eq!(program.borrow_scope(scope).borrow_intermediates(), &vec![holder]);
    assert_eq!(passed[1], VarAccess::new(wide));
    let calls = program.borrow_scope(scope).borrow_calls();
    assert_eq!(calls.len(), 1);
    assert_eq!(calls[0].get_function(), copy_function);
    assert_eq!(calls[0].borrow_inputs(), &vec![VarAccess::new(narrow)]);
    assert_eq!(calls[0].borrow_outputs(), &vec![VarAccess::new(holder)]);
    assert_eq!(*calls[0].get_position(), span(0, 9));
}

#[test]
fn an_output_of_another_type_is_cast_after_the_call() {
    let mut program = Program::new();
    add_builtins(&mut program);
    let copy_function = program.get_builtins().unwrap().copy_func;
    let scope = program.create_child_scope(program.get_entry_point());
    let wide = declare(&mut program, scope, "wide", triple());
    let (passed, casts) =
        hold_outputs(&mut program, scope, &vec![VarAccess::new(wide)], &vec![DataType::Int], span(0, 9)).unwrap();
    assert_eq!(passed.len(), 1);
    let holder = passed[0].get_base();
    assert_eq!(*program.borrow_variable(holder).borrow_data_type(), DataType::Int);
    assert_eq!(casts, vec![(VarAccess::new(holder), VarAccess::new(wide))]);
    assert_eq!(program.borrow_scope(scope).borrow_calls().len(), 0);
    add_casts(&mut program, scope, &casts, span(0, 9)).unwrap();
    let calls = program.borrow_scope(scope).borrow_calls();
    assert_eq!(calls.len(), 1);
    assert_eq!(calls[0].get_function(), copy_function);
    assert_eq!(calls[0].borrow_inputs(), &vec![VarAccess::new(holder)]);
    assert_eq!(calls[0].borrow_outputs(), &vec![VarAccess::new(wide)]);
}

#[test]
fn a_cast_needs_the_builtins() {
    let mut program = Program::new();
    let scope = program.get_entry_point();
    let narrow = declare(&mut program, scope, "narrow", DataType::Int);
    let problem =
        pass_inputs(&mut program, scope, &vec![VarAccess::new(narrow)], &vec![triple()], span(0, 9)).unwrap_err();
    assert_eq!(problem.get_kind(), ProblemKind::MissingBuiltin);
    let missing =
        pass_inputs(&mut program, scope, &vec![VarAccess::new(VariableId(500))], &vec![triple()], span(0, 9))
            .unwrap_err();
    assert_eq!(missing.get_kind(), ProblemKind::UnknownId);
}

#[test]
fn a_call_is_emitted_between_the_casts_that_it_needs() {
    let mut program = Program::new();
    add_builtins(&mut program);
    let copy_function = program.get_builtins().unwrap().copy_func;
    let scope = program.create_child_scope(program.get_entry_point());
    let function = VariableId(0);
    let narrow = declare(&mut program, scope, "narrow", DataType::Int);
    let wide = declare(&mut program, scope, "wide", triple());
    let open = program.adopt_and_define_symbol(scope, "open", Variable::automatic(span(0, 4)));
    let mut call = FuncCall::new(VariableId(77), span(3, 30));
    call.add_input(VarAccess::new(narrow));
    call.add_output(VarAccess::new(wide));
    call.add_output(VarAccess::new(open));
    emit_call(&mut program, scope, function, &call, &vec![triple()], &vec![DataType::Int, DataType::Bool]).unwrap();
    assert_eq!(*program.borrow_variable(open).borrow_data_type(), DataType::Bool);
    let intermediates = program.borrow_scope(scope).borrow_intermediates();
    assert_eq!(intermediates.len(), 2);
    let input_holder = intermediates[0];
    let output_holder = intermediates[1];
    assert_eq!(*program.borrow_variable(input_holder).borrow_data_type(), triple());
    assert_eq!(*program.borrow_variable(output_holder).borrow_data_type(), DataType::Int);
    let calls = program.borrow_scope(scope).borrow_calls();
    assert_eq!(calls.len(), 3);
    assert_eq!(calls[0].get_function(), copy_function);
    assert_eq!(calls[0].borrow_inputs(), &vec![VarAccess::new(narrow)]);
    assert_eq!(calls[0].borrow_outputs(), &vec![VarAccess::new(input_holder)]);
    assert_eq!(calls[1].get_function(), function);
    assert_eq!(*calls[1].get_position(), span(3, 30));
    assert_eq!(calls[1].borrow_inputs(), &vec![VarAccess::new(input_holder)]);
    assert_eq!(calls[1].borrow_outputs(), &vec![VarAccess::new(output_holder), VarAccess::new(open)]);
    assert_eq!(calls[2].get_function(), copy_function);
    assert_eq!(calls[2].borrow_inputs(), &vec![VarAccess::new(output_holder)]);
    assert_eq!(calls[2].borrow_outputs(), &vec![VarAccess::new(wide)]);
}

#[test]
fn the_types_of_arguments_bind_template_parameters() {
    let mut program = Program::new();
    let scope = program.get_entry_point();
    let template = program.adopt_and_define_symbol(scope, "T", Variable::data_type(span(0, 1), DataType::Automatic));
    let first = declare(&mut program, scope, "a", DataType::LoadTemplateParameter(template));
    let second = declare(&mut program, scope, "b", DataType::LoadTemplateParameter(template));
    let plain = declare(&mut program, scope, "c", DataType::Bool);
    let narrow = declare(&mut program, scope, "narrow", DataType::Int);
    let wide = declare(&mut program, scope, "wide", triple());
    let parameters = vec![first, second];
    assert_eq!(
        read_types(&program, &vec![first, plain]),
        vec![DataType::LoadTemplateParameter(template), DataType::Bool]
    );
    let mut bindings = TypeTable::new();
    let arguments = vec![VarAccess::new(narrow), VarAccess::new(wide)];
    unify_types(&program, &parameters, &arguments, span(0, 9), &mut bindings).unwrap();
    assert_eq!(bindings.get(template), Some(&triple()));
    assert_eq!(
        bound_types(&program, &vec![first, plain, second], &bindings, span(0, 9)).unwrap(),
        vec![triple(), DataType::Bool, triple()]
    );
    let unbound = TypeTable::new();
    assert_eq!(
        bound_types(&program, &parameters, &unbound, span(0, 9)).unwrap_err().get_kind(),
        ProblemKind::UnresolvedTemplateParameter
    );
    write_bindings(&mut program, &bindings);
    assert_eq!(shown(program.borrow_variable(template).borrow_initial_value()), shown(&KnownData::DataType(triple())));
    assert_eq!(shown(program.borrow_temporary_value(template)), shown(&KnownData::DataType(triple())));
    assert!(matches!(program.borrow_temporary_value(narrow), KnownData::Unknown));
}

#[test]
fn arguments_that_do_not_unify_are_refused() {
    let mut program = Program::new();
    let scope = program.get_entry_point();
    let template = program.adopt_and_define_symbol(scope, "T", Variable::data_type(span(0, 1), DataType::Automatic));
    let first = declare(&mut program, scope, "a", DataType::LoadTemplateParameter(template));
    let second = declare(&mut program, scope, "b", DataType::LoadTemplateParameter(template));
    let three = declare(&mut program, scope, "three", triple());
    let five = declare(&mut program, scope, "five", DataType::Array(5, Box::new(DataType::Int)));
    let mut bindings = TypeTable::new();
    let arguments = vec![VarAccess::new(three), VarAccess::new(five)];
    let problem = unify_types(&program, &vec![first, second], &arguments, span(0, 9), &mut bindings).unwrap_err();
    assert_eq!(problem.get_kind(), ProblemKind::NoBct);
    let unknown = vec![VarAccess::new(VariableId(400)), VarAccess::new(five)];
    let mut fresh = TypeTable::new();
    assert_eq!(
        unify_types(&program, &vec![first, second], &unknown, span(0, 9), &mut fresh).unwrap_err().get_kind(),
        ProblemKind::UnknownId
    );
}

#[test]
fn a_table_of_types_keeps_the_latest_binding() {
    let mut table = TypeTable::new();
    assert_eq!(table.get(VariableId(1)), None);
    table.insert(VariableId(1), DataType::Int);
    table.insert(VariableId(2), DataType::Bool);
    assert_eq!(table.get(VariableId(1)), Some(&DataType::Int));
    table.insert(VariableId(1), DataType::Float);
    assert_eq!(table.get(VariableId(1)), Some(&DataType::Float));
    assert_eq!(table.get(VariableId(2)), Some(&DataType::Bool));
    assert_eq!(table.get(VariableId(3)), None);
}

#[test]
fn the_types_of_a_builtin_follow_its_arguments() {
    let mut program = Program::new();
    let builtins = add_builtins(&mut program);
    let scope = program.create_child_scope(program.get_entry_point());
    let narrow = declare(&mut program, scope, "narrow", DataType::Int);
    let wide = declare(&mut program, scope, "wide", triple());
    let open = program.adopt_and_define_symbol(scope, "open", Variable::automatic(span(0, 4)));
    let body = program.borrow_variable(builtins.add_func).borrow_initial_value().require_function().get_body();
    let mut call = FuncCall::new(builtins.add_func, span(0, 9));
    call.add_input(VarAccess::new(narrow));
    call.add_input(VarAccess::new(wide));
    call.add_output(VarAccess::new(open));
    let (inputs, outputs) = builtin_types(&program, body, &call, span(0, 9)).unwrap();
    assert_eq!(inputs, vec![triple(), triple()]);
    assert_eq!(outputs, vec![triple()]);
    let compared = program.borrow_variable(builtins.lt_func).borrow_initial_value().require_function().get_body();
    let (inputs, outputs) = builtin_types(&program, compared, &call, span(0, 9)).unwrap();
    assert_eq!(inputs, vec![triple(), triple()]);
    assert_eq!(outputs, vec![DataType::Bool]);
}

#[test]
fn the_calls_of_a_scope_are_resolved_into_another() {
    let mut program = Program::new();
    let builtins = add_builtins(&mut program);
    let source = program.create_child_scope(program.get_entry_point());
    let destination = program.create_child_scope(program.get_entry_point());
    let narrow = declare(&mut program, source, "narrow", DataType::Int);
    let wide = declare(&mut program, source, "wide", triple());
    let open = program.adopt_and_define_symbol(source, "open", Variable::automatic(span(0, 4)));
    let mut call = FuncCall::new(builtins.add_func, span(0, 9));
    call.add_input(VarAccess::new(narrow));
    call.add_input(VarAccess::new(wide));
    call.add_output(VarAccess::new(open));
    program.add_func_call(source, call);
    let mut resolver = ScopeResolver::new();
    resolver.resolve_body(&mut program, source, destination, 8).unwrap();
    assert_eq!(*program.borrow_variable(open).borrow_data_type(), triple());
    let calls = program.borrow_scope(destination).borrow_calls();
    assert_eq!(calls.len(), 2);
    assert_eq!(calls[0].get_function(), builtins.copy_func);
    assert_eq!(calls[0].borrow_inputs(), &vec![VarAccess::new(narrow)]);
    let holder = calls[0].borrow_outputs()[0].get_base();
    assert_eq!(calls[1].get_function(), builtins.add_func);
    assert_eq!(calls[1].borrow_inputs(), &vec![VarAccess::new(holder), VarAccess::new(wide)]);
    assert_eq!(calls[1].borrow_outputs(), &vec![VarAccess::new(open)]);
    assert_eq!(program.borrow_scope(source).borrow_calls().len(), 1);
}

#[test]
fn a_function_is_instantiated_for_a_call() {
    let mut program = Program::new();
    let builtins = add_builtins(&mut program);
    let root = program.get_entry_point();
    let body = program.create_child_scope(root);
    let template = program.adopt_and_define_symbol(body, "T", Variable::data_type(span(0, 1), DataType::Automatic));
    let x = declare(&mut program, body, "x", DataType::LoadTemplateParameter(template));
    let y = declare(&mut program, body, "y", DataType::LoadTemplateParameter(template));
    program.add_input(body, x);
    program.add_output(body, y);
    let mut inner = FuncCall::new(builtins.copy_func, span(40, 49));
    inner.add_input(VarAccess::new(x));
    inner.add_output(VarAccess::new(y));
    program.add_func_call(body, inner);
    let function = FunctionData::new(body, span(20, 29));
    let output = program.create_child_scope(root);
    let from = declare(&mut program, output, "from", DataType::Int);
    let to = declare(&mut program, output, "to", DataType::Int);
    let mut call = FuncCall::new(VariableId(0), span(50, 60));
    call.add_input(VarAccess::new(from));
    call.add_output(VarAccess::new(to));
    let mut resolver = ScopeResolver::new();
    resolver.instantiate_function(&mut program, &call, function, output, 8).unwrap();
    assert_eq!(resolver.table.depth(), 0);
    let calls = program.borrow_scope(output).borrow_calls();
    assert_eq!(calls.len(), 1);
    assert_eq!(calls[0].borrow_inputs(), &vec![VarAccess::new(from)]);
    assert_eq!(calls[0].borrow_outputs(), &vec![VarAccess::new(to)]);
    let instance = program.borrow_variable(calls[0].get_function()).borrow_initial_value().require_function().get_body();
    assert_ne!(instance, body);
    assert_eq!(program.borrow_scope(instance).get_parent(), None);
    let instance_x = program.lookup_symbol(instance, "x").unwrap();
    assert_ne!(instance_x, x);
    assert_eq!(*program.borrow_variable(instance_x).borrow_data_type(), DataType::Int);
    assert_eq!(*program.borrow_variable(x).borrow_data_type(), DataType::LoadTemplateParameter(template));
    let instance_calls = program.borrow_scope(instance).borrow_calls();
    assert_eq!(instance_calls.len(), 1);
    assert_eq!(instance_calls[0].get_function(), builtins.copy_func);
    assert_eq!(instance_calls[0].borrow_inputs(), &vec![VarAccess::new(instance_x)]);
}
