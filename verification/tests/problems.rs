use waveguide::data_type::DataType;
use waveguide::driver::resolve_scope;
use waveguide::expression::Expression;
use waveguide::ids::{ScopeId, VariableId};
use waveguide::known_data::{FunctionData, KnownData};
use waveguide::operator::BinaryOperator;
use waveguide::position::FilePosition;
use waveguide::problem::{
    no_bct, problem_in_context, wrong_number_of_inputs, wrong_number_of_outputs, Category,
    CompileProblem, ProblemKind, ProblemType,
};
use waveguide::program::Program;
use waveguide::simplified::Content;
use waveguide::simplifier::ScopeSimplifier;
use waveguide::variable::Variable;

fn pos(start: usize, end: usize) -> FilePosition {
    FilePosition::from_bounds(start, end)
}

fn num(value: i64, at: usize) -> Expression {
    Expression::Literal(KnownData::Int(value), pos(at, at + 1))
}

fn truth(at: usize) -> Expression {
    Expression::Literal(KnownData::Bool(true), pos(at, at + 1))
}

fn var(id: VariableId, at: usize) -> Expression {
    Expression::Variable(id, pos(at, at + 1))
}

fn binary(left: Expression, operator: BinaryOperator, right: Expression) -> Expression {
    Expression::BinaryOperation(Box::new(left), operator, Box::new(right), pos(100, 110))
}

fn assign(target: Expression, value: Expression) -> Expression {
    Expression::Assign { target: Box::new(target), value: Box::new(value), position: pos(200, 210) }
}

fn call(function: Expression, inputs: Vec<Expression>, outputs: Vec<Expression>) -> Expression {
    Expression::FuncCall { function: Box::new(function), inputs, outputs, position: pos(300, 310) }
}

fn simplify(program: &mut Program, expression: &Expression) -> Result<Content, CompileProblem> {
    let scope = program.get_entry_point();
    let mut simplifier = ScopeSimplifier::new(scope);
    let before = simplifier.table.depth();
    let outcome = simplifier.simplify_expression(program, expression, 8);
    assert_eq!(simplifier.table.depth(), before);
    assert_eq!(simplifier.current_scope, scope);
    outcome.map(|simplified| simplified.content)
}

fn kind_of(program: &mut Program, expression: &Expression) -> ProblemKind {
    simplify(program, expression).unwrap_err().get_kind()
}

/// Declares a function with the given numbers of integer parameters and the given statements.
fn declare(program: &mut Program, inputs: usize, outputs: usize, body: Vec<Expression>) -> (VariableId, ScopeId) {
    let root = program.get_entry_point();
    let scope = program.create_child_scope(root);
    for index in 0..inputs {
        let id = program.adopt_and_define_symbol(
            scope,
            &format!("in{}", index),
            Variable::variable(pos(1, 2), DataType::Int, None),
        );
        program.add_input(scope, id);
    }
    for index in 0..outputs {
        let id = program.adopt_and_define_symbol(
            scope,
            &format!("out{}", index),
            Variable::variable(pos(3, 4), DataType::Int, None),
        );
        program.add_output(scope, id);
    }
    for statement in body {
        program.add_expression(scope, statement);
    }
    let function = program.adopt_and_define_intermediate(
        root,
        Variable::function_def(FunctionData::new(scope, pos(0, 9))),
    );
    (function, scope)
}

#[test]
fn operands_need_a_common_type() {
    let mut program = Program::new();
    let problem = simplify(&mut program, &binary(num(1, 0), BinaryOperator::Add, truth(4))).unwrap_err();
    assert_eq!(problem.get_kind(), ProblemKind::NoBct);
    assert_eq!(problem.category(), Category::TypeMismatch);
    let descriptors = problem.borrow_descriptors();
    assert_eq!(descriptors.len(), 3);
    assert_eq!((descriptors[0].position, descriptors[0].ptype), (pos(100, 110), ProblemType::Error));
    assert_eq!((descriptors[1].position, descriptors[1].ptype), (pos(0, 1), ProblemType::Hint));
    assert_eq!((descriptors[2].position, descriptors[2].ptype), (pos(4, 5), ProblemType::Hint));
}

#[test]
fn operators_take_operands_of_their_kind() {
    let mut program = Program::new();
    assert_eq!(kind_of(&mut program, &binary(truth(0), BinaryOperator::Add, truth(4))), ProblemKind::InvalidOperands);
    assert_eq!(kind_of(&mut program, &binary(num(1, 0), BinaryOperator::And, num(2, 4))), ProblemKind::InvalidOperands);
    assert_eq!(kind_of(&mut program, &binary(truth(0), BinaryOperator::BXor, truth(4))), ProblemKind::InvalidOperands);
    assert_eq!(kind_of(&mut program, &binary(truth(0), BinaryOperator::LessThan, truth(4))), ProblemKind::InvalidOperands);
    assert_eq!(ProblemKind::InvalidOperands.category(), Category::TypeMismatch);
}

#[test]
fn comparisons_have_boolean_type() {
    let mut program = Program::new();
    let scope = program.get_entry_point();
    let r = program.adopt_and_define_symbol(scope, "r", Variable::variable(pos(0, 1), DataType::Int, None));
    let mut simplifier = ScopeSimplifier::new(scope);
    let comparison = binary(var(r, 0), BinaryOperator::LessThan, num(3, 4));
    let simplified = simplifier.simplify_expression(&mut program, &comparison, 1).unwrap();
    assert_eq!(simplified.data_type, DataType::Bool);
    match simplified.content {
        Content::Modified(Expression::BinaryOperation(left, BinaryOperator::LessThan, right, at)) => {
            assert!(matches!(*left, Expression::Variable(id, _) if id == r));
            assert!(matches!(*right, Expression::Literal(KnownData::Int(3), _)));
            assert_eq!(at, pos(100, 110));
        }
        other => panic!("expected a comparison for run time, found {:?}", other),
    }
}

#[test]
fn a_scalar_beside_an_array_is_inflated() {
    let mut program = Program::new();
    let scope = program.get_entry_point();
    let list_type = DataType::Array(3, Box::new(DataType::Int));
    let list = program.adopt_and_define_symbol(scope, "l", Variable::variable(pos(0, 1), list_type.clone(), None));
    let mut simplifier = ScopeSimplifier::new(scope);
    let sum = binary(num(1, 0), BinaryOperator::Add, var(list, 4));
    let simplified = simplifier.simplify_expression(&mut program, &sum, 1).unwrap();
    assert_eq!(simplified.data_type, list_type);
    match simplified.content {
        Content::Modified(Expression::BinaryOperation(left, BinaryOperator::Add, right, _)) => {
            match *left {
                Expression::Inflate { value, data_type, position } => {
                    assert!(matches!(*value, Expression::Literal(KnownData::Int(1), _)));
                    assert_eq!(data_type, list_type);
                    assert_eq!(position, pos(0, 1));
                }
                other => panic!("expected an inflation, found {:?}", other),
            }
            assert!(matches!(*right, Expression::Variable(id, _) if id == list));
        }
        other => panic!("expected an operation for run time, found {:?}", other),
    }
}

#[test]
fn overflow_is_left_to_run_time() {
    let mut program = Program::new();
    let sum = binary(num(i64::MAX, 0), BinaryOperator::Add, num(1, 4));
    match simplify(&mut program, &sum).unwrap() {
        Content::Modified(Expression::BinaryOperation(left, BinaryOperator::Add, right, _)) => {
            assert!(matches!(*left, Expression::Literal(KnownData::Int(i64::MAX), _)));
            assert!(matches!(*right, Expression::Literal(KnownData::Int(1), _)));
        }
        other => panic!("expected an operation for run time, found {:?}", other),
    }
}

#[test]
fn indexes_are_checked() {
    let mut program = Program::new();
    let list = Expression::Literal(
        KnownData::Array(vec![KnownData::Int(1), KnownData::Int(2)]),
        pos(0, 5),
    );
    let indexed = |index: Expression| Expression::Access {
        base: Box::new(list.clone()),
        indexes: vec![index],
        position: pos(0, 9),
    };
    assert_eq!(kind_of(&mut program, &indexed(truth(6))), ProblemKind::ArrayIndexNotInt);
    assert_eq!(kind_of(&mut program, &indexed(num(-1, 6))), ProblemKind::ArrayIndexLessThanZero { value: -1 });
    assert_eq!(kind_of(&mut program, &indexed(num(2, 6))), ProblemKind::ArrayIndexTooBig { index: 2, size: 2 });
    assert_eq!(ProblemKind::ArrayIndexTooBig { index: 2, size: 2 }.category(), Category::OutOfBoundsIndex);
    assert_eq!(ProblemKind::ArrayIndexLessThanZero { value: -1 }.category(), Category::OutOfBoundsIndex);
    let twice = Expression::Access {
        base: Box::new(list.clone()),
        indexes: vec![num(0, 6), num(0, 8)],
        position: pos(0, 9),
    };
    assert_eq!(kind_of(&mut program, &twice), ProblemKind::TooManyIndexes { provided: 2, available: 1 });
    let scalar = Expression::Access { base: Box::new(num(4, 0)), indexes: vec![num(0, 6)], position: pos(0, 9) };
    assert_eq!(kind_of(&mut program, &scalar), ProblemKind::TooManyIndexes { provided: 1, available: 0 });
}

#[test]
fn a_known_prefix_of_indexes_selects_a_part() {
    let mut program = Program::new();
    let scope = program.get_entry_point();
    let i = program.adopt_and_define_symbol(scope, "i", Variable::variable(pos(0, 1), DataType::Int, None));
    let grid = Expression::Literal(
        KnownData::Array(vec![
            KnownData::Array(vec![KnownData::Int(1), KnownData::Int(2)]),
            KnownData::Array(vec![KnownData::Int(3), KnownData::Int(4)]),
        ]),
        pos(10, 20),
    );
    let slice = Expression::Access { base: Box::new(grid.clone()), indexes: vec![num(1, 21)], position: pos(10, 23) };
    match simplify(&mut program, &slice).unwrap() {
        Content::Interpreted(value) => {
            assert!(value.equals(&KnownData::Array(vec![KnownData::Int(3), KnownData::Int(4)])))
        }
        other => panic!("expected a known part, found {:?}", other),
    }
    let mixed = Expression::Access {
        base: Box::new(grid.clone()),
        indexes: vec![num(1, 21), var(i, 24)],
        position: pos(10, 26),
    };
    match simplify(&mut program, &mixed).unwrap() {
        Content::Modified(Expression::Access { base, indexes, position }) => {
            match *base {
                Expression::Literal(part, covered) => {
                    assert!(part.equals(&KnownData::Array(vec![KnownData::Int(3), KnownData::Int(4)])));
                    assert_eq!(covered, pos(10, 22));
                }
                other => panic!("expected a literal, found {:?}", other),
            }
            assert_eq!(indexes.len(), 1);
            assert!(matches!(indexes[0], Expression::Variable(id, _) if id == i));
            assert_eq!(position, pos(10, 26));
        }
        other => panic!("expected an access for run time, found {:?}", other),
    }
    let late = Expression::Access {
        base: Box::new(grid),
        indexes: vec![var(i, 21), num(1, 24)],
        position: pos(10, 26),
    };
    match simplify(&mut program, &late).unwrap() {
        Content::Modified(Expression::Access { base, indexes, .. }) => {
            assert!(matches!(*base, Expression::Literal(KnownData::Array(_), at) if at == pos(10, 20)));
            assert_eq!(indexes.len(), 2);
            assert!(matches!(indexes[0], Expression::Variable(id, _) if id == i));
            assert!(matches!(indexes[1], Expression::Literal(KnownData::Int(1), _)));
        }
        other => panic!("expected an access for run time, found {:?}", other),
    }
}

#[test]
fn variables_are_read_as_far_as_they_are_known() {
    let mut program = Program::new();
    let scope = program.get_entry_point();
    let known = program.adopt_and_define_symbol(scope, "k", Variable::int_literal(pos(0, 1), 8));
    let auto = program.adopt_and_define_symbol(scope, "a", Variable::automatic(pos(2, 3)));
    let function = program.adopt_and_define_symbol(scope, "f", Variable::variable(pos(4, 5), DataType::Function_, None));
    match simplify(&mut program, &var(known, 10)).unwrap() {
        Content::Interpreted(value) => assert!(value.equals(&KnownData::Int(8))),
        other => panic!("expected a known value, found {:?}", other),
    }
    let problem = simplify(&mut program, &var(auto, 10)).unwrap_err();
    assert_eq!(problem.get_kind(), ProblemKind::UnresolvedAutoVar);
    assert_eq!(problem.category(), Category::UnresolvedAutomaticType);
    assert_eq!(problem.borrow_descriptors()[0].position, pos(10, 11));
    assert_eq!(problem.borrow_descriptors()[1].position, pos(2, 3));
    assert_eq!(kind_of(&mut program, &var(function, 10)), ProblemKind::ValueNotRunTimeCompatible);
    assert_eq!(kind_of(&mut program, &var(VariableId(50), 10)), ProblemKind::UnknownId);
    assert_eq!(ProblemKind::UnknownId.category(), Category::Internal);
}

#[test]
fn literals_need_a_type() {
    let mut program = Program::new();
    let nothing = Expression::Literal(KnownData::Unknown, pos(0, 1));
    assert_eq!(kind_of(&mut program, &nothing), ProblemKind::UntypedLiteral);
    let empty = Expression::Literal(KnownData::Array(vec![]), pos(0, 2));
    assert_eq!(kind_of(&mut program, &empty), ProblemKind::UntypedLiteral);
}

#[test]
fn nodes_of_the_residual_program_are_not_simplified_again() {
    let mut program = Program::new();
    assert_eq!(kind_of(&mut program, &Expression::InlineReturn(pos(0, 1))), ProblemKind::UnexpectedExpression);
    assert_eq!(
        kind_of(&mut program, &Expression::Call { body: ScopeId(0), position: pos(0, 1) }),
        ProblemKind::UnexpectedExpression
    );
    assert_eq!(
        kind_of(
            &mut program,
            &Expression::Inflate { value: Box::new(num(1, 0)), data_type: DataType::Int, position: pos(0, 1) }
        ),
        ProblemKind::UnexpectedExpression
    );
    match simplify(&mut program, &Expression::Return(pos(4, 5))).unwrap() {
        Content::Modified(Expression::Return(at)) => assert_eq!(at, pos(4, 5)),
        other => panic!("expected a return, found {:?}", other),
    }
}

#[test]
fn assignments_are_checked() {
    let mut program = Program::new();
    let scope = program.get_entry_point();
    let flag = program.adopt_and_define_symbol(scope, "b", Variable::variable(pos(0, 1), DataType::Bool, None));
    let auto = program.adopt_and_define_symbol(scope, "a", Variable::automatic(pos(2, 3)));
    let problem = simplify(&mut program, &assign(var(flag, 10), num(1, 14))).unwrap_err();
    assert_eq!(problem.get_kind(), ProblemKind::MismatchedAssign);
    assert_eq!(problem.category(), Category::TypeMismatch);
    assert_eq!(problem.borrow_descriptors().len(), 3);
    assert_eq!(kind_of(&mut program, &assign(num(1, 10), num(1, 14))), ProblemKind::NotAssignable);
    assert_eq!(
        kind_of(
            &mut program,
            &assign(
                Expression::Access { base: Box::new(var(auto, 10)), indexes: vec![num(0, 12)], position: pos(10, 14) },
                num(1, 16)
            )
        ),
        ProblemKind::UnresolvedAutoVar
    );
    assert_eq!(
        kind_of(
            &mut program,
            &assign(
                Expression::Access { base: Box::new(var(flag, 10)), indexes: vec![num(0, 12)], position: pos(10, 14) },
                num(1, 16)
            )
        ),
        ProblemKind::TooManyIndexes { provided: 1, available: 0 }
    );
}

#[test]
fn an_automatic_type_is_fixed_by_the_first_assignment() {
    let mut program = Program::new();
    let scope = program.get_entry_point();
    let auto = program.adopt_and_define_symbol(scope, "a", Variable::automatic(pos(2, 3)));
    assert!(matches!(
        simplify(&mut program, &assign(var(auto, 10), num(1, 14))).unwrap(),
        Content::Interpreted(KnownData::Void)
    ));
    assert_eq!(*program.borrow_variable(auto).borrow_data_type(), DataType::Int);
    assert!(program.borrow_temporary_value(auto).equals(&KnownData::Int(1)));
    assert_eq!(kind_of(&mut program, &assign(var(auto, 20), truth(24))), ProblemKind::MismatchedAssign);
    assert_eq!(*program.borrow_variable(auto).borrow_data_type(), DataType::Int);
    assert!(program.borrow_temporary_value(auto).equals(&KnownData::Int(1)));
}

#[test]
fn a_known_item_is_assigned_at_compile_time() {
    let mut program = Program::new();
    let scope = program.get_entry_point();
    let list_type = DataType::Array(3, Box::new(DataType::Int));
    let list = program.adopt_and_define_symbol(scope, "l", Variable::variable(pos(0, 1), list_type, None));
    assert!(matches!(
        simplify(&mut program, &assign(var(list, 10), num(7, 14))).unwrap(),
        Content::Interpreted(KnownData::Void)
    ));
    assert!(program
        .borrow_temporary_value(list)
        .equals(&KnownData::Array(vec![KnownData::Int(7), KnownData::Int(7), KnownData::Int(7)])));
    let item = Expression::Access { base: Box::new(var(list, 20)), indexes: vec![num(1, 22)], position: pos(20, 24) };
    assert!(matches!(
        simplify(&mut program, &assign(item, num(9, 26))).unwrap(),
        Content::Interpreted(KnownData::Void)
    ));
    assert!(program
        .borrow_temporary_value(list)
        .equals(&KnownData::Array(vec![KnownData::Int(7), KnownData::Int(9), KnownData::Int(7)])));
}

#[test]
fn callees_must_be_known_functions() {
    let mut program = Program::new();
    let scope = program.get_entry_point();
    let r = program.adopt_and_define_symbol(scope, "r", Variable::variable(pos(0, 1), DataType::Int, None));
    let problem = simplify(&mut program, &call(var(r, 20), vec![], vec![])).unwrap_err();
    assert_eq!(problem.get_kind(), ProblemKind::VagueFunction);
    assert_eq!(problem.category(), Category::IndeterminateCallee);
    let problem = simplify(&mut program, &call(num(3, 20), vec![], vec![])).unwrap_err();
    assert_eq!(problem.get_kind(), ProblemKind::NotFunction);
    assert_eq!(problem.category(), Category::NotCallable);
    assert_eq!(problem.borrow_descriptors()[0].position, pos(20, 21));
}

#[test]
fn calls_must_match_the_declaration() {
    let mut program = Program::new();
    let (f, _) = declare(&mut program, 1, 2, vec![]);
    let problem = simplify(&mut program, &call(var(f, 20), vec![num(1, 22)], vec![Expression::InlineReturn(pos(24, 25))]))
        .unwrap_err();
    assert_eq!(problem.get_kind(), ProblemKind::WrongNumberOfOutputs { expected: 2, provided: 1 });
    assert_eq!(problem.category(), Category::ArityMismatch);
    assert_eq!(problem.borrow_descriptors()[1].position, pos(0, 9));
    let problem = simplify(
        &mut program,
        &call(
            var(f, 20),
            vec![num(1, 22)],
            vec![Expression::InlineReturn(pos(24, 25)), Expression::InlineReturn(pos(26, 27))],
        ),
    )
    .unwrap_err();
    assert_eq!(problem.get_kind(), ProblemKind::TooManyInlineReturns { count: 2 });
    assert_eq!(problem.category(), Category::TooManyInlineReturns);
    assert_eq!(
        kind_of(&mut program, &call(var(f, 20), vec![], vec![])),
        ProblemKind::WrongNumberOfInputs { expected: 1, provided: 0 }
    );
}

#[test]
fn a_call_used_as_a_value_needs_an_inline_return() {
    let mut program = Program::new();
    let (f, _) = declare(&mut program, 0, 0, vec![]);
    let problem = simplify(&mut program, &binary(call(var(f, 20), vec![], vec![]), BinaryOperator::Add, num(1, 30)))
        .unwrap_err();
    assert_eq!(problem.get_kind(), ProblemKind::MissingInlineReturn);
    assert_eq!(problem.category(), Category::MissingInlineReturn);
    assert_eq!(problem.borrow_descriptors()[0].position, pos(300, 310));
}

#[test]
fn a_statement_may_not_leave_a_value_behind() {
    let mut program = Program::new();
    let scope = program.get_entry_point();
    program.add_expression(scope, binary(num(1, 0), BinaryOperator::Add, num(2, 4)));
    let problem = resolve_scope(&mut program, scope).unwrap_err();
    assert_eq!(problem.get_kind(), ProblemKind::DanglingValue);
    assert_eq!(problem.category(), Category::DanglingValue);
    assert_eq!(problem.borrow_descriptors()[0].position, pos(100, 110));
    let mut program = Program::new();
    let (f, _) = declare(&mut program, 0, 0, vec![num(3, 40)]);
    assert_eq!(kind_of(&mut program, &call(var(f, 20), vec![], vec![])), ProblemKind::DanglingValue);
}

#[test]
fn the_table_survives_a_failing_call() {
    let mut program = Program::new();
    let scope = program.get_entry_point();
    let outer = program.adopt_and_define_symbol(scope, "o", Variable::int_literal(pos(0, 1), 4));
    let (f, body) = declare(&mut program, 1, 0, vec![binary(truth(40), BinaryOperator::Add, truth(44))]);
    let parameter = program.borrow_scope(body).get_input(0);
    let mut simplifier = ScopeSimplifier::new(scope);
    simplifier.table.add_conversion(outer, outer);
    simplifier.table.push_table();
    simplifier.table.add_conversion(VariableId(1000), outer);
    let failing = call(var(f, 20), vec![num(1, 22)], vec![]);
    let problem = simplifier.simplify_expression(&mut program, &failing, 8).unwrap_err();
    assert_eq!(problem.get_kind(), ProblemKind::InvalidOperands);
    assert_eq!(simplifier.table.depth(), 1);
    assert!(!simplifier.table.is_converted(parameter));
    assert!(simplifier.table.is_converted(VariableId(1000)));
    assert_eq!(simplifier.current_scope, scope);
    simplifier.table.pop_table();
    assert!(!simplifier.table.is_converted(VariableId(1000)));
    assert!(simplifier.table.is_converted(outer));
}

#[test]
fn calls_are_followed_to_a_limit() {
    let mut program = Program::new();
    let root = program.get_entry_point();
    let scope = program.create_child_scope(root);
    let function = program.adopt_and_define_intermediate(
        root,
        Variable::function_def(FunctionData::new(scope, pos(0, 9))),
    );
    program.add_expression(scope, call(var(function, 20), vec![], vec![]));
    let mut simplifier = ScopeSimplifier::new(root);
    let outcome = simplifier.simplify_expression(&mut program, &call(var(function, 20), vec![], vec![]), 5);
    assert_eq!(outcome.unwrap_err().get_kind(), ProblemKind::NestingTooDeep);
    assert_eq!(simplifier.table.depth(), 0);
    let outcome = simplifier.simplify_expression(&mut program, &call(var(function, 20), vec![], vec![]), 0);
    assert_eq!(outcome.unwrap_err().get_kind(), ProblemKind::NestingTooDeep);
    assert_eq!(ProblemKind::NestingTooDeep.category(), Category::Internal);
}

#[test]
fn a_return_ends_the_body() {
    let mut program = Program::new();
    let scope = program.get_entry_point();
    let r = program.adopt_and_define_symbol(scope, "r", Variable::variable(pos(0, 1), DataType::Int, None));
    let s = program.adopt_and_define_symbol(scope, "s", Variable::variable(pos(2, 3), DataType::Int, None));
    program.add_expression(scope, assign(var(s, 10), var(r, 14)));
    program.add_expression(scope, Expression::Return(pos(20, 26)));
    program.add_expression(scope, assign(var(s, 30), binary(truth(34), BinaryOperator::Add, truth(38))));
    let copy = resolve_scope(&mut program, scope).unwrap();
    assert_eq!(program.borrow_scope(copy).borrow_body().len(), 1);
}

#[test]
fn an_output_that_is_not_inline_is_written_in_place() {
    let mut program = Program::new();
    let root = program.get_entry_point();
    let target = program.adopt_and_define_symbol(root, "t", Variable::automatic(pos(0, 1)));
    let body = program.create_child_scope(root);
    let y = program.adopt_and_define_symbol(body, "y", Variable::variable(pos(3, 4), DataType::Int, None));
    program.add_output(body, y);
    program.add_expression(body, assign(var(y, 40), num(12, 44)));
    let f = program.adopt_and_define_intermediate(root, Variable::function_def(FunctionData::new(body, pos(0, 9))));
    assert!(matches!(
        simplify(&mut program, &call(var(f, 20), vec![], vec![var(target, 24)])).unwrap(),
        Content::Interpreted(KnownData::Void)
    ));
    assert!(program.borrow_temporary_value(target).equals(&KnownData::Int(12)));
    assert_eq!(*program.borrow_variable(target).borrow_data_type(), DataType::Int);
    assert!(program.borrow_temporary_value(y).equals(&KnownData::Unknown));
    assert_eq!(program.borrow_scope(root).borrow_body().len(), 0);
}

#[test]
fn problems_point_at_their_places() {
    let call_pos = pos(1, 2);
    let header = pos(3, 4);
    let inputs = wrong_number_of_inputs(call_pos, header, 1, 2);
    assert_eq!(inputs.get_kind(), ProblemKind::WrongNumberOfInputs { expected: 2, provided: 1 });
    assert_eq!(inputs.borrow_descriptors().len(), 2);
    assert_eq!(inputs.borrow_descriptors()[0].ptype, ProblemType::Error);
    assert_eq!(inputs.borrow_descriptors()[1].ptype, ProblemType::Hint);
    let outputs = wrong_number_of_outputs(call_pos, header, 3, 0);
    assert_eq!(outputs.get_kind(), ProblemKind::WrongNumberOfOutputs { expected: 0, provided: 3 });
    assert_eq!(no_bct(call_pos, header, header).borrow_descriptors().len(), 3);
    let mut problem = problem_in_context(ProblemKind::NoEntityWithName, call_pos, header);
    assert_eq!(problem.category(), Category::UnresolvedName);
    problem.add_hint(pos(9, 9));
    assert_eq!(problem.borrow_descriptors().len(), 3);
    assert_eq!(problem.borrow_descriptors()[2].position, pos(9, 9));
    assert_eq!(CompileProblem::new(ProblemKind::DanglingValue, call_pos).category(), Category::DanglingValue);
    assert_eq!(ProblemKind::UnresolvedTemplateParameter.category(), Category::UnresolvedAutomaticType);
    assert_eq!(ProblemKind::MissingBuiltin.category(), Category::Internal);
    assert_eq!(ProblemKind::NotAssignable.category(), Category::TypeMismatch);
    assert_eq!(ProblemKind::UntypedLiteral.category(), Category::TypeMismatch);
    assert_eq!(ProblemKind::UnexpectedExpression.category(), Category::Internal);
    assert_eq!(ProblemKind::DuplicateConversion.category(), Category::Internal);
    assert_eq!(ProblemKind::ValueNotRunTimeCompatible.category(), Category::TypeMismatch);
    assert_eq!(ProblemKind::ArrayIndexNotInt.category(), Category::TypeMismatch);
    assert_eq!(ProblemKind::TooManyIndexes { provided: 1, available: 0 }.category(), Category::TypeMismatch);
}
