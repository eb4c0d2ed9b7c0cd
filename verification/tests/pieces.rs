use waveguide::access::{check_index, rank_of, resolve_index, simplify_access_expression};
use waveguide::assign::{assign_unknown_to_expression, assign_value_to_expression, simplify_assignment};
use waveguide::binary::{operator_admits, resolve_operand, simplify_binary_expression};
use waveguide::binding::{bind_input, bind_output, keep_statement, Flow};
use waveguide::copier::{convert_type, convert_value};
use waveguide::data_type::DataType;
use waveguide::expression::{clone_expressions, Expression};
use waveguide::func_call::{clone_accesses, FuncCall, VarAccess};
use waveguide::ids::VariableId;
use waveguide::instantiate::count_inline_returns;
use waveguide::known_data::KnownData;
use waveguide::operator::BinaryOperator;
use waveguide::position::FilePosition;
use waveguide::problem::{ProblemKind, ProblemType};
use waveguide::program::Program;
use waveguide::resolver::clone_calls;
use waveguide::simplified::{inflate, Content, SimplifiedExpression};
use waveguide::simplifier::{read_variable, ScopeSimplifier};
use waveguide::table::ResolverTable;
use waveguide::variable::Variable;

fn at(start: usize, end: usize) -> FilePosition {
    FilePosition::from_bounds(start, end)
}

fn literal(value: i64, start: usize) -> Expression {
    Expression::Literal(KnownData::Int(value), at(start, start + 1))
}

fn reference(id: VariableId, start: usize) -> Expression {
    Expression::Variable(id, at(start, start + 1))
}

fn known(value: KnownData, data_type: DataType) -> SimplifiedExpression {
    SimplifiedExpression { content: Content::Interpreted(value), data_type }
}

fn left_over(expression: Expression, data_type: DataType) -> SimplifiedExpression {
    SimplifiedExpression { content: Content::Modified(expression), data_type }
}

fn text<T: std::fmt::Debug>(value: &T) -> String {
    format!("{:?}", value)
}

fn list_of_three() -> KnownData {
    KnownData::Array(vec![KnownData::Int(1), KnownData::Int(2), KnownData::Int(3)])
}

fn list_type() -> DataType {
    DataType::Array(3, Box::new(DataType::Int))
}

#[test]
fn the_rank_counts_array_layers() {
    assert_eq!(rank_of(&DataType::Int), 0);
    assert_eq!(rank_of(&list_type()), 1);
    assert_eq!(rank_of(&DataType::Array(2, Box::new(list_type()))), 2);
    assert!(list_type().is_array());
    assert!(!DataType::Float.is_array());
}

#[test]
fn an_index_is_a_known_natural_number_or_run_time_code() {
    assert_eq!(check_index(&known(KnownData::Int(0), DataType::Int)), None);
    assert_eq!(check_index(&known(KnownData::Int(7), DataType::Int)), None);
    assert_eq!(
        check_index(&known(KnownData::Int(-1), DataType::Int)),
        Some(ProblemKind::ArrayIndexLessThanZero { value: -1 })
    );
    assert_eq!(
        check_index(&known(KnownData::Bool(true), DataType::Bool)),
        Some(ProblemKind::ArrayIndexNotInt)
    );
    assert_eq!(check_index(&left_over(reference(VariableId(0), 0), DataType::Int)), None);
    assert_eq!(
        check_index(&left_over(reference(VariableId(0), 0), DataType::Float)),
        Some(ProblemKind::ArrayIndexNotInt)
    );
}

#[test]
fn an_index_becomes_a_literal_or_stays_code() {
    let from_value = resolve_index(&(known(KnownData::Int(4), DataType::Int), at(3, 4)));
    assert_eq!(text(&from_value), text(&Expression::Literal(KnownData::Int(4), at(3, 4))));
    let code = reference(VariableId(9), 5);
    let from_code = resolve_index(&(left_over(reference(VariableId(9), 5), DataType::Int), at(0, 9)));
    assert_eq!(text(&from_code), text(&code));
}

#[test]
fn a_known_index_selects_from_a_known_list() {
    let picked = simplify_access_expression(
        known(list_of_three(), list_type()),
        at(0, 7),
        vec![(known(KnownData::Int(1), DataType::Int), at(8, 9))],
        at(0, 10),
    )
    .unwrap();
    assert_eq!(picked.data_type, DataType::Int);
    assert!(matches!(picked.content, Content::Interpreted(KnownData::Int(2))));
}

#[test]
fn an_index_past_the_end_is_reported_with_the_size() {
    let problem = simplify_access_expression(
        known(list_of_three(), list_type()),
        at(0, 7),
        vec![(known(KnownData::Int(3), DataType::Int), at(8, 9))],
        at(0, 10),
    )
    .unwrap_err();
    assert_eq!(problem.get_kind(), ProblemKind::ArrayIndexTooBig { index: 3, size: 3 });
}

#[test]
fn a_run_time_index_leaves_an_access() {
    let base = VariableId(2);
    let index = VariableId(5);
    let picked = simplify_access_expression(
        left_over(reference(base, 0), list_type()),
        at(0, 1),
        vec![(left_over(reference(index, 2), DataType::Int), at(2, 3))],
        at(0, 4),
    )
    .unwrap();
    assert_eq!(picked.data_type, DataType::Int);
    match picked.content {
        Content::Modified(Expression::Access { base: inner, indexes, position }) => {
            assert!(matches!(*inner, Expression::Variable(id, _) if id == base));
            assert_eq!(indexes.len(), 1);
            assert!(matches!(indexes[0], Expression::Variable(id, _) if id == index));
            assert_eq!(position, at(0, 4));
        },
        other => panic!("expected an access, found {:?}", other),
    }
}

#[test]
fn operators_take_the_scalars_they_are_made_for() {
    assert!(operator_admits(BinaryOperator::Add, &DataType::Int));
    assert!(operator_admits(BinaryOperator::Add, &DataType::Float));
    assert!(!operator_admits(BinaryOperator::Add, &DataType::Bool));
    assert!(operator_admits(BinaryOperator::And, &DataType::Bool));
    assert!(!operator_admits(BinaryOperator::And, &DataType::Int));
    assert!(operator_admits(BinaryOperator::BXor, &DataType::Int));
    assert!(!operator_admits(BinaryOperator::BXor, &DataType::Float));
    assert!(operator_admits(BinaryOperator::Equal, &DataType::DataType_));
    assert!(!operator_admits(BinaryOperator::LessThan, &DataType::DataType_));
    assert!(BinaryOperator::LessThan.is_comparison());
    assert!(BinaryOperator::NotEqual.is_comparison());
    assert!(!BinaryOperator::Subtract.is_comparison());
}

#[test]
fn a_known_operand_is_a_literal_at_run_time() {
    let value = resolve_operand(Content::Interpreted(KnownData::Int(6)), at(1, 2)).unwrap();
    assert_eq!(text(&value), text(&Expression::Literal(KnownData::Int(6), at(1, 2))));
    assert!(resolve_operand(Content::Interpreted(KnownData::DataType(DataType::Int)), at(1, 2)).is_none());
    let code = resolve_operand(Content::Modified(reference(VariableId(3), 4)), at(1, 2)).unwrap();
    assert_eq!(text(&code), text(&reference(VariableId(3), 4)));
}

#[test]
fn two_known_operands_are_folded() {
    let product = simplify_binary_expression(
        known(KnownData::Int(6), DataType::Int),
        at(0, 1),
        BinaryOperator::Multiply,
        known(KnownData::Int(7), DataType::Int),
        at(4, 5),
        at(0, 5),
    )
    .unwrap();
    assert_eq!(product.data_type, DataType::Int);
    assert!(matches!(product.content, Content::Interpreted(KnownData::Int(42))));
    let order = simplify_binary_expression(
        known(KnownData::Int(6), DataType::Int),
        at(0, 1),
        BinaryOperator::LessThan,
        known(KnownData::Int(7), DataType::Int),
        at(4, 5),
        at(0, 5),
    )
    .unwrap();
    assert_eq!(order.data_type, DataType::Bool);
    assert!(matches!(order.content, Content::Interpreted(KnownData::Bool(true))));
}

#[test]
fn an_unknown_operand_leaves_an_operation_on_widened_operands() {
    let list = VariableId(4);
    let sum = simplify_binary_expression(
        known(KnownData::Int(1), DataType::Int),
        at(0, 1),
        BinaryOperator::Add,
        left_over(reference(list, 4), list_type()),
        at(4, 5),
        at(0, 5),
    )
    .unwrap();
    assert_eq!(sum.data_type, list_type());
    match sum.content {
        Content::Modified(Expression::BinaryOperation(left, BinaryOperator::Add, right, position)) => {
            match *left {
                Expression::Inflate { value, data_type, position } => {
                    assert!(matches!(*value, Expression::Literal(KnownData::Int(1), _)));
                    assert_eq!(data_type, list_type());
                    assert_eq!(position, at(0, 1));
                },
                other => panic!("expected an inflation, found {:?}", other),
            }
            assert!(matches!(*right, Expression::Variable(id, _) if id == list));
            assert_eq!(position, at(0, 5));
        },
        other => panic!("expected an operation, found {:?}", other),
    }
}

#[test]
fn operands_without_a_common_type_are_reported_with_both_places() {
    let problem = simplify_binary_expression(
        known(KnownData::new_array(3), list_type()),
        at(0, 1),
        BinaryOperator::Add,
        left_over(reference(VariableId(1), 4), DataType::Array(5, Box::new(DataType::Int))),
        at(4, 5),
        at(0, 5),
    )
    .unwrap_err();
    assert_eq!(problem.get_kind(), ProblemKind::NoBct);
    let descriptors = problem.borrow_descriptors();
    assert_eq!(descriptors.len(), 3);
    assert_eq!(descriptors[0].ptype, ProblemType::Error);
    assert_eq!(descriptors[0].position, at(0, 5));
    assert_eq!(descriptors[1].ptype, ProblemType::Hint);
    assert_eq!(descriptors[1].position, at(0, 1));
    assert_eq!(descriptors[2].position, at(4, 5));
}

#[test]
fn widening_to_the_same_type_changes_nothing() {
    let same = inflate(reference(VariableId(1), 2), &DataType::Int, &DataType::Int);
    assert_eq!(text(&same), text(&reference(VariableId(1), 2)));
    let widened = inflate(reference(VariableId(1), 2), &DataType::Int, &list_type());
    match widened {
        Expression::Inflate { value, data_type, position } => {
            assert_eq!(text(&*value), text(&reference(VariableId(1), 2)));
            assert_eq!(data_type, list_type());
            assert_eq!(position, at(2, 3));
        },
        other => panic!("expected an inflation, found {:?}", other),
    }
}

#[test]
fn a_variable_is_read_as_its_value_or_as_a_reference() {
    let mut program = Program::new();
    let scope = program.get_entry_point();
    let fixed = program.adopt_and_define_symbol(scope, "fixed", Variable::int_literal(at(0, 5), 12));
    let open = program.adopt_and_define_symbol(scope, "open", Variable::variable(at(6, 10), DataType::Int, None));
    let vague = program.adopt_and_define_symbol(scope, "vague", Variable::automatic(at(11, 16)));
    let value = read_variable(&program, fixed, at(20, 25)).unwrap();
    assert_eq!(value.data_type, DataType::Int);
    assert!(matches!(value.content, Content::Interpreted(KnownData::Int(12))));
    let code = read_variable(&program, open, at(20, 24)).unwrap();
    assert_eq!(code.data_type, DataType::Int);
    assert_eq!(text(&code.content), text(&Content::Modified(Expression::Variable(open, at(20, 24)))));
    assert_eq!(
        read_variable(&program, vague, at(20, 25)).unwrap_err().get_kind(),
        ProblemKind::UnresolvedAutoVar
    );
    assert_eq!(
        read_variable(&program, VariableId(77), at(20, 25)).unwrap_err().get_kind(),
        ProblemKind::UnknownId
    );
    let simplifier = ScopeSimplifier::new(scope);
    let through = simplifier.simplify_variable(&program, fixed, at(20, 25)).unwrap();
    assert!(matches!(through.content, Content::Interpreted(KnownData::Int(12))));
}

#[test]
fn a_parameter_reads_as_what_stands_in_its_place() {
    let mut program = Program::new();
    let scope = program.get_entry_point();
    let parameter = program.adopt_and_define_symbol(scope, "p", Variable::variable(at(0, 1), DataType::Int, None));
    let argument = program.adopt_and_define_symbol(scope, "q", Variable::variable(at(2, 3), DataType::Int, None));
    let mut simplifier = ScopeSimplifier::new(scope);
    simplifier.table.add_substitution(parameter, reference(argument, 9), DataType::Int);
    let read = simplifier.simplify_variable(&program, parameter, at(20, 21)).unwrap();
    assert_eq!(read.data_type, DataType::Int);
    assert_eq!(text(&read.content), text(&Content::Modified(reference(argument, 9))));
    let (target, target_type) = simplifier.resolve_target_variable(&program, parameter, at(20, 21)).unwrap();
    assert_eq!(text(&target), text(&reference(argument, 9)));
    assert_eq!(target_type, DataType::Int);
}

#[test]
fn a_known_value_is_stored_at_compile_time() {
    let mut program = Program::new();
    let scope = program.get_entry_point();
    let a = program.adopt_and_define_symbol(scope, "a", Variable::variable(at(0, 1), DataType::Int, None));
    assert!(assign_value_to_expression(&mut program, &reference(a, 0), &KnownData::Int(5)));
    assert!(matches!(program.borrow_temporary_value(a), KnownData::Int(5)));
    assert!(!assign_value_to_expression(&mut program, &reference(VariableId(50), 0), &KnownData::Int(5)));
    assert!(!assign_value_to_expression(&mut program, &literal(3, 0), &KnownData::Int(5)));
    assign_unknown_to_expression(&mut program, &reference(a, 0));
    assert!(matches!(program.borrow_temporary_value(a), KnownData::Unknown));
}

#[test]
fn a_known_item_is_stored_in_a_known_list() {
    let mut program = Program::new();
    let scope = program.get_entry_point();
    let list = program.adopt_and_define_symbol(
        scope,
        "list",
        Variable::variable(at(0, 4), list_type(), Some(list_of_three())),
    );
    let item = Expression::Access {
        base: Box::new(reference(list, 0)),
        indexes: vec![literal(2, 5)],
        position: at(0, 7),
    };
    assert_eq!(item.root_variable(), Some(list));
    assert_eq!(literal(1, 0).root_variable(), None);
    assert!(assign_value_to_expression(&mut program, &item, &KnownData::Int(9)));
    assert_eq!(
        text(program.borrow_temporary_value(list)),
        text(&KnownData::Array(vec![KnownData::Int(1), KnownData::Int(2), KnownData::Int(9)]))
    );
    let outside = Expression::Access {
        base: Box::new(reference(list, 0)),
        indexes: vec![literal(3, 5)],
        position: at(0, 7),
    };
    assert!(!assign_value_to_expression(&mut program, &outside, &KnownData::Int(9)));
    assign_unknown_to_expression(&mut program, &item);
    assert!(matches!(program.borrow_temporary_value(list), KnownData::Unknown));
}

#[test]
fn an_assignment_of_a_known_value_leaves_nothing() {
    let mut program = Program::new();
    let scope = program.get_entry_point();
    let a = program.adopt_and_define_symbol(scope, "a", Variable::automatic(at(0, 1)));
    let done = simplify_assignment(
        &mut program,
        reference(a, 0),
        DataType::Automatic,
        at(0, 1),
        known(KnownData::Int(5), DataType::Int),
        at(4, 5),
        at(0, 6),
    )
    .unwrap();
    assert_eq!(done.data_type, DataType::Void);
    assert!(matches!(done.content, Content::Interpreted(KnownData::Void)));
    assert_eq!(*program.borrow_variable(a).borrow_data_type(), DataType::Int);
    assert!(matches!(program.borrow_temporary_value(a), KnownData::Int(5)));
}

#[test]
fn an_assignment_of_code_is_left_and_the_value_forgotten() {
    let mut program = Program::new();
    let scope = program.get_entry_point();
    let a = program.adopt_and_define_symbol(
        scope,
        "a",
        Variable::variable(at(0, 1), DataType::Int, Some(KnownData::Int(1))),
    );
    let b = program.adopt_and_define_symbol(scope, "b", Variable::variable(at(2, 3), DataType::Int, None));
    let left = simplify_assignment(
        &mut program,
        reference(a, 0),
        DataType::Int,
        at(0, 1),
        left_over(reference(b, 4), DataType::Int),
        at(4, 5),
        at(0, 6),
    )
    .unwrap();
    assert_eq!(left.data_type, DataType::Void);
    match left.content {
        Content::Modified(Expression::Assign { target, value, position }) => {
            assert_eq!(text(&*target), text(&reference(a, 0)));
            assert_eq!(text(&*value), text(&reference(b, 4)));
            assert_eq!(position, at(0, 6));
        },
        other => panic!("expected an assignment, found {:?}", other),
    }
    assert!(matches!(program.borrow_temporary_value(a), KnownData::Unknown));
}

#[test]
fn an_assignment_of_another_type_is_reported_with_both_sides() {
    let mut program = Program::new();
    let scope = program.get_entry_point();
    let a = program.adopt_and_define_symbol(scope, "a", Variable::variable(at(0, 1), DataType::Int, None));
    let problem = simplify_assignment(
        &mut program,
        reference(a, 0),
        DataType::Int,
        at(0, 1),
        known(KnownData::Bool(true), DataType::Bool),
        at(4, 8),
        at(0, 9),
    )
    .unwrap_err();
    assert_eq!(problem.get_kind(), ProblemKind::MismatchedAssign);
    let descriptors = problem.borrow_descriptors();
    assert_eq!(descriptors.len(), 3);
    assert_eq!(descriptors[0].position, at(0, 9));
    assert_eq!(descriptors[1].position, at(4, 8));
    assert_eq!(descriptors[2].position, at(0, 1));
    assert!(matches!(program.borrow_temporary_value(a), KnownData::Unknown));
}

#[test]
fn a_known_argument_becomes_the_value_of_the_parameter() {
    let mut program = Program::new();
    let scope = program.get_entry_point();
    let parameter = program.adopt_and_define_symbol(scope, "x", Variable::automatic(at(0, 1)));
    let mut table = ResolverTable::new();
    bind_input(&mut program, &mut table, parameter, &known(KnownData::Int(3), DataType::Int), at(9, 10)).unwrap();
    assert_eq!(*program.borrow_variable(parameter).borrow_data_type(), DataType::Int);
    assert!(matches!(program.borrow_temporary_value(parameter), KnownData::Int(3)));
    assert!(table.substitution(parameter).is_none());
}

#[test]
fn an_unknown_argument_is_put_in_the_place_of_the_parameter() {
    let mut program = Program::new();
    let scope = program.get_entry_point();
    let parameter = program.adopt_and_define_symbol(scope, "x", Variable::variable(at(0, 1), list_type(), None));
    let argument = program.adopt_and_define_symbol(scope, "n", Variable::variable(at(2, 3), DataType::Int, None));
    let mut table = ResolverTable::new();
    bind_input(
        &mut program,
        &mut table,
        parameter,
        &left_over(reference(argument, 9), DataType::Int),
        at(9, 10),
    )
    .unwrap();
    let (expression, data_type) = table.substitution(parameter).unwrap();
    assert_eq!(data_type, list_type());
    match expression {
        Expression::Inflate { value, data_type, .. } => {
            assert_eq!(text(&*value), text(&reference(argument, 9)));
            assert_eq!(data_type, list_type());
        },
        other => panic!("expected an inflation, found {:?}", other),
    }
}

#[test]
fn an_argument_that_does_not_widen_to_the_parameter_is_refused() {
    let mut program = Program::new();
    let scope = program.get_entry_point();
    let parameter = program.adopt_and_define_symbol(scope, "x", Variable::variable(at(0, 1), DataType::Int, None));
    let mut table = ResolverTable::new();
    let problem = bind_input(
        &mut program,
        &mut table,
        parameter,
        &known(list_of_three(), list_type()),
        at(9, 10),
    )
    .unwrap_err();
    assert_eq!(problem.get_kind(), ProblemKind::MismatchedAssign);
    assert_eq!(problem.borrow_descriptors()[0].position, at(9, 10));
    assert!(matches!(program.borrow_temporary_value(parameter), KnownData::Unknown));
    let missing = bind_input(
        &mut program,
        &mut table,
        VariableId(40),
        &known(KnownData::Int(3), DataType::Int),
        at(9, 10),
    )
    .unwrap_err();
    assert_eq!(missing.get_kind(), ProblemKind::UnknownId);
}

#[test]
fn an_output_is_written_to_directly_unless_it_is_the_value_of_the_call() {
    let mut table = ResolverTable::new();
    table.add_conversion(VariableId(1), VariableId(8));
    assert_eq!(bind_output(&mut table, VariableId(1), &None), Some(VariableId(8)));
    assert!(table.substitution(VariableId(1)).is_none());
    let target = Some((reference(VariableId(3), 0), DataType::Int));
    assert_eq!(bind_output(&mut table, VariableId(2), &target), None);
    let (expression, data_type) = table.substitution(VariableId(2)).unwrap();
    assert_eq!(text(&expression), text(&reference(VariableId(3), 0)));
    assert_eq!(data_type, DataType::Int);
}

#[test]
fn a_statement_is_dropped_kept_or_stops_the_scope() {
    let mut program = Program::new();
    let scope = program.get_entry_point();
    let done = keep_statement(&mut program, scope, known(KnownData::Void, DataType::Void), at(0, 1));
    assert_eq!(done.unwrap(), Flow::Dropped);
    assert_eq!(program.borrow_scope(scope).borrow_body().len(), 0);
    let statement = Expression::Assign {
        target: Box::new(reference(VariableId(0), 0)),
        value: Box::new(reference(VariableId(1), 4)),
        position: at(0, 6),
    };
    let kept = keep_statement(&mut program, scope, left_over(statement, DataType::Void), at(0, 6));
    assert_eq!(kept.unwrap(), Flow::Kept);
    assert_eq!(program.borrow_scope(scope).borrow_body().len(), 1);
    assert!(matches!(program.borrow_scope(scope).borrow_body()[0], Expression::Assign { .. }));
    let stopped = keep_statement(
        &mut program,
        scope,
        left_over(Expression::Return(at(7, 13)), DataType::Void),
        at(7, 13),
    );
    assert_eq!(stopped.unwrap(), Flow::Stopped);
    assert_eq!(program.borrow_scope(scope).borrow_body().len(), 1);
    let dangling = keep_statement(&mut program, scope, known(KnownData::Int(1), DataType::Int), at(14, 15));
    assert_eq!(dangling.unwrap_err().get_kind(), ProblemKind::DanglingValue);
    assert_eq!(program.borrow_scope(scope).borrow_body().len(), 1);
}

#[test]
fn a_deferred_type_follows_the_variable_it_defers_to() {
    let mut table = ResolverTable::new();
    table.add_conversion(VariableId(1), VariableId(6));
    assert_eq!(convert_type(&table, &DataType::Dynamic(VariableId(1))), DataType::Dynamic(VariableId(6)));
    assert_eq!(
        convert_type(&table, &DataType::LoadTemplateParameter(VariableId(1))),
        DataType::LoadTemplateParameter(VariableId(6))
    );
    assert_eq!(
        convert_type(&table, &DataType::Array(2, Box::new(DataType::Dynamic(VariableId(1))))),
        DataType::Array(2, Box::new(DataType::Dynamic(VariableId(6))))
    );
    assert_eq!(convert_type(&table, &DataType::Dynamic(VariableId(2))), DataType::Dynamic(VariableId(2)));
    assert_eq!(convert_type(&table, &DataType::Int), DataType::Int);
    assert_eq!(
        text(&convert_value(&table, &KnownData::DataType(DataType::Dynamic(VariableId(1))))),
        text(&KnownData::DataType(DataType::Dynamic(VariableId(6))))
    );
    assert_eq!(text(&convert_value(&table, &KnownData::Int(1))), text(&KnownData::Int(1)));
}

#[test]
fn copies_of_lists_are_equal_to_the_lists() {
    let statements = vec![literal(1, 0), reference(VariableId(2), 3), Expression::Return(at(5, 11))];
    assert_eq!(text(&clone_expressions(&statements)), text(&statements));
    assert_eq!(statements[2].clone_position(), at(5, 11));
    let mut indexed = VarAccess::new(VariableId(1));
    indexed.add_index(VariableId(2));
    let accesses = vec![VarAccess::new(VariableId(0)), indexed];
    assert_eq!(clone_accesses(&accesses), accesses);
    let mut call = FuncCall::new(VariableId(5), at(0, 9));
    call.add_input(VarAccess::new(VariableId(0)));
    call.add_output(VarAccess::new(VariableId(1)));
    let calls = vec![call];
    assert_eq!(text(&clone_calls(&calls)), text(&calls));
}

#[test]
fn inline_returns_are_counted() {
    let none = vec![reference(VariableId(1), 0)];
    assert_eq!(count_inline_returns(&none), 0);
    let two = vec![
        Expression::InlineReturn(at(0, 1)),
        reference(VariableId(1), 2),
        Expression::InlineReturn(at(4, 5)),
    ];
    assert_eq!(count_inline_returns(&two), 2);
    assert_eq!(count_inline_returns(&Vec::new()), 0);
}
