use waveguide::builtins::{add_builtin, add_builtins};
use waveguide::data_type::DataType;
use waveguide::driver::resolve_scope;
use waveguide::expression::Expression;
use waveguide::func_call::{FuncCall, VarAccess};
use waveguide::ids::{ScopeId, VariableId};
use waveguide::known_data::{BuiltinFunction, FunctionData, KnownData};
use waveguide::operator::BinaryOperator;
use waveguide::position::FilePosition;
use waveguide::precedence::{op_str_to_operator, operator, operator_to_op_fn, parse_dec_int, ADD, OR, POWER, SENTINEL};
use waveguide::problem::{Category, ProblemKind};
use waveguide::program::Program;
use waveguide::resolver::{access_type, create_cast, ScopeResolver};
use waveguide::simplified::Content;
use waveguide::simplifier::ScopeSimplifier;
use waveguide::template::{
    combine_type_into_table, resolve_dynamic_data_type, resolve_dynamic_data_types,
    resolve_template_parameters, resolve_templated_type, TypeTable,
};
use waveguide::variable::Variable;

fn here() -> FilePosition {
    FilePosition::placeholder()
}

fn array(len: usize, base: DataType) -> DataType {
    DataType::Array(len, Box::new(base))
}

fn plain(program: &mut Program, name: &str, data_type: DataType) -> VariableId {
    let root = program.get_entry_point();
    program.adopt_and_define_symbol(root, name, Variable::variable(here(), data_type, None))
}

fn call_of(function: VariableId, inputs: &[VariableId], outputs: &[VariableId]) -> FuncCall {
    let mut call = FuncCall::new(function, FilePosition::from_bounds(5, 9));
    for input in inputs {
        call.add_input(VarAccess::new(*input));
    }
    for output in outputs {
        call.add_output(VarAccess::new(*output));
    }
    call
}

fn bases(accesses: &Vec<VarAccess>) -> Vec<VariableId> {
    accesses.iter().map(|access| access.get_base()).collect()
}

#[test]
fn the_types_of_all_arguments_of_a_parameter_are_unified() {
    let t = VariableId(1);
    let u = VariableId(2);
    let mut table = TypeTable::new();
    assert!(combine_type_into_table(t, &DataType::Int, &mut table));
    assert_eq!(table.get(t), Some(&DataType::Int));
    assert!(combine_type_into_table(t, &array(3, DataType::Int), &mut table));
    assert_eq!(table.get(t), Some(&array(3, DataType::Int)));
    assert!(combine_type_into_table(t, &DataType::Automatic, &mut table));
    assert_eq!(table.get(t), Some(&array(3, DataType::Int)));
    assert!(!combine_type_into_table(t, &DataType::Bool, &mut table));
    assert_eq!(table.get(t), Some(&array(3, DataType::Int)));
    assert_eq!(table.get(u), None);
    assert!(resolve_template_parameters(&DataType::LoadTemplateParameter(u), &DataType::Float, &mut table));
    assert!(resolve_template_parameters(&DataType::Int, &DataType::Bool, &mut table));
    assert!(resolve_template_parameters(&DataType::Dynamic(t), &DataType::Bool, &mut table));
    assert_eq!(table.get(u), Some(&DataType::Float));
    assert_eq!(table.get(t), Some(&array(3, DataType::Int)));
    assert_eq!(resolve_templated_type(&DataType::LoadTemplateParameter(u), &table), Some(DataType::Float));
    assert_eq!(resolve_templated_type(&DataType::Dynamic(t), &table), Some(array(3, DataType::Int)));
    assert_eq!(resolve_templated_type(&DataType::Bool, &table), Some(DataType::Bool));
    assert_eq!(resolve_templated_type(&DataType::Dynamic(VariableId(9)), &table), None);
}

#[test]
fn chains_of_types_are_followed_to_their_end() {
    let mut program = Program::new();
    let root = program.get_entry_point();
    let end = program.adopt_and_define_symbol(root, "A", Variable::data_type(here(), DataType::Float));
    let middle = program.adopt_and_define_symbol(root, "B", Variable::data_type(here(), DataType::Dynamic(end)));
    let start = program.adopt_and_define_symbol(
        root,
        "C",
        Variable::data_type(here(), array(2, DataType::LoadTemplateParameter(middle))),
    );
    let loose = program.adopt_and_define_symbol(root, "D", Variable::variable(here(), DataType::DataType_, None));
    let circle = program.adopt_variable(Variable::data_type(here(), DataType::Automatic));
    program.set_initial_value(circle, KnownData::DataType(DataType::Dynamic(circle)));
    assert_eq!(resolve_dynamic_data_type(&program, &DataType::Dynamic(start)), array(2, DataType::Float));
    assert_eq!(resolve_dynamic_data_type(&program, &DataType::Dynamic(middle)), DataType::Float);
    assert_eq!(resolve_dynamic_data_type(&program, &DataType::Int), DataType::Int);
    assert_eq!(resolve_dynamic_data_type(&program, &DataType::Dynamic(loose)), DataType::Dynamic(loose));
    assert_eq!(resolve_dynamic_data_type(&program, &DataType::Dynamic(VariableId(99))), DataType::Dynamic(VariableId(99)));
    assert_eq!(resolve_dynamic_data_type(&program, &DataType::Dynamic(circle)), DataType::Dynamic(circle));
    let user = program.adopt_and_define_symbol(root, "x", Variable::variable(here(), DataType::Dynamic(start), None));
    resolve_dynamic_data_types(&mut program, root);
    assert_eq!(*program.borrow_variable(user).borrow_data_type(), array(2, DataType::Float));
    assert!(program.borrow_variable(middle).borrow_initial_value().equals(&KnownData::DataType(DataType::Float)));
    assert!(program
        .borrow_variable(start)
        .borrow_initial_value()
        .equals(&KnownData::DataType(array(2, DataType::Float))));
}

#[test]
fn every_builtin_is_added() {
    let mut program = Program::new();
    let builtins = add_builtins(&mut program);
    assert_eq!(*program.get_builtins(), Some(builtins));
    let root = program.get_entry_point();
    assert_eq!(program.lookup_symbol(root, "!ADD"), Some(builtins.add_func));
    assert_eq!(program.lookup_symbol(root, "!COPY"), Some(builtins.copy_func));
    for (id, kind, inputs) in [
        (builtins.add_func, BuiltinFunction::Add, 2),
        (builtins.sub_func, BuiltinFunction::Subtract, 2),
        (builtins.mul_func, BuiltinFunction::Multiply, 2),
        (builtins.div_func, BuiltinFunction::Divide, 2),
        (builtins.int_div_func, BuiltinFunction::IntDiv, 2),
        (builtins.mod_func, BuiltinFunction::Modulo, 2),
        (builtins.pow_func, BuiltinFunction::Power, 2),
        (builtins.lte_func, BuiltinFunction::LessThanOrEqual, 2),
        (builtins.lt_func, BuiltinFunction::LessThan, 2),
        (builtins.gte_func, BuiltinFunction::GreaterThanOrEqual, 2),
        (builtins.gt_func, BuiltinFunction::GreaterThan, 2),
        (builtins.eq_func, BuiltinFunction::Equal, 2),
        (builtins.neq_func, BuiltinFunction::NotEqual, 2),
        (builtins.band_func, BuiltinFunction::BAnd, 2),
        (builtins.bxor_func, BuiltinFunction::BXor, 2),
        (builtins.bor_func, BuiltinFunction::BOr, 2),
        (builtins.and_func, BuiltinFunction::And, 2),
        (builtins.xor_func, BuiltinFunction::Xor, 2),
        (builtins.or_func, BuiltinFunction::Or, 2),
        (builtins.copy_func, BuiltinFunction::Copy, 1),
    ] {
        let variable = program.borrow_variable(id);
        assert!(variable.is_permanent());
        let function = *variable.borrow_initial_value().require_function();
        assert_eq!(*function.get_builtin(), Some(kind));
        let body = program.borrow_scope(function.get_body());
        assert_eq!(body.borrow_inputs().len(), inputs);
        assert_eq!(body.borrow_outputs().len(), 1);
        assert_eq!(body.get_parent(), Some(root));
        assert_eq!(program.find_parent_function(function.get_body()), Some(id));
    }
    let lt = program.borrow_variable(builtins.lt_func).borrow_initial_value().require_function().get_body();
    let output = program.borrow_scope(lt).get_output(0);
    assert_eq!(*program.borrow_variable(output).borrow_data_type(), DataType::Bool);
    let extra = add_builtin(&mut program, "!TWICE", BuiltinFunction::Add, false, false);
    assert_eq!(program.lookup_symbol(root, "!TWICE"), Some(extra));
    assert_eq!(*program.get_builtins(), Some(builtins));
}

#[test]
fn a_builtin_call_casts_what_does_not_fit() {
    let mut program = Program::new();
    let builtins = add_builtins(&mut program);
    let root = program.get_entry_point();
    let output = program.create_child_scope(root);
    let a = plain(&mut program, "a", DataType::Int);
    let b = plain(&mut program, "b", array(3, DataType::Int));
    let x = program.adopt_and_define_symbol(root, "x", Variable::automatic(here()));
    let mut resolver = ScopeResolver::new();
    resolver
        .resolve_function_call(&mut program, &call_of(builtins.add_func, &[a, b], &[x]), output, 4)
        .unwrap();
    let calls = program.borrow_scope(output).borrow_calls();
    assert_eq!(calls.len(), 2);
    assert_eq!(calls[0].get_function(), builtins.copy_func);
    assert_eq!(bases(calls[0].borrow_inputs()), vec![a]);
    let casted = calls[0].borrow_outputs()[0].get_base();
    assert_eq!(*program.borrow_variable(casted).borrow_data_type(), array(3, DataType::Int));
    assert_eq!(program.borrow_scope(output).borrow_intermediates(), &vec![casted]);
    assert_eq!(calls[1].get_function(), builtins.add_func);
    assert_eq!(bases(calls[1].borrow_inputs()), vec![casted, b]);
    assert_eq!(bases(calls[1].borrow_outputs()), vec![x]);
    assert_eq!(*calls[1].get_position(), FilePosition::from_bounds(5, 9));
    assert_eq!(*program.borrow_variable(x).borrow_data_type(), array(3, DataType::Int));
    assert_eq!(resolver.table.depth(), 0);
}

#[test]
fn an_output_is_cast_after_the_call() {
    let mut program = Program::new();
    let builtins = add_builtins(&mut program);
    let root = program.get_entry_point();
    let a = plain(&mut program, "a", DataType::Int);
    let b = plain(&mut program, "b", DataType::Int);
    let flags = plain(&mut program, "f", array(2, DataType::Bool));
    let mut resolver = ScopeResolver::new();
    resolver
        .resolve_function_call(&mut program, &call_of(builtins.lt_func, &[a, b], &[flags]), root, 4)
        .unwrap();
    let calls = program.borrow_scope(root).borrow_calls();
    assert_eq!(calls.len(), 2);
    assert_eq!(calls[0].get_function(), builtins.lt_func);
    assert_eq!(bases(calls[0].borrow_inputs()), vec![a, b]);
    let holder = calls[0].borrow_outputs()[0].get_base();
    assert_ne!(holder, flags);
    assert_eq!(*program.borrow_variable(holder).borrow_data_type(), DataType::Bool);
    assert_eq!(calls[1].get_function(), builtins.copy_func);
    assert_eq!(bases(calls[1].borrow_inputs()), vec![holder]);
    assert_eq!(bases(calls[1].borrow_outputs()), vec![flags]);
}

#[test]
fn arguments_that_fit_are_passed_as_they_are() {
    let mut program = Program::new();
    let builtins = add_builtins(&mut program);
    let root = program.get_entry_point();
    let a = plain(&mut program, "a", DataType::Float);
    let b = plain(&mut program, "b", DataType::Float);
    let x = plain(&mut program, "x", DataType::Float);
    let mut resolver = ScopeResolver::new();
    resolver
        .resolve_function_call(&mut program, &call_of(builtins.mul_func, &[a, b], &[x]), root, 0)
        .unwrap();
    let calls = program.borrow_scope(root).borrow_calls();
    assert_eq!(calls.len(), 1);
    assert_eq!(bases(calls[0].borrow_inputs()), vec![a, b]);
    assert_eq!(bases(calls[0].borrow_outputs()), vec![x]);
}

#[test]
fn arguments_of_one_parameter_must_unify() {
    let mut program = Program::new();
    let builtins = add_builtins(&mut program);
    let root = program.get_entry_point();
    let a = plain(&mut program, "a", DataType::Int);
    let b = plain(&mut program, "b", DataType::Bool);
    let x = plain(&mut program, "x", DataType::Int);
    let mut resolver = ScopeResolver::new();
    let problem = resolver
        .resolve_function_call(&mut program, &call_of(builtins.add_func, &[a, b], &[x]), root, 4)
        .unwrap_err();
    assert_eq!(problem.get_kind(), ProblemKind::NoBct);
    assert_eq!(program.borrow_scope(root).borrow_calls().len(), 0);
}

#[test]
fn resolved_calls_are_checked_against_the_function() {
    let mut program = Program::new();
    let builtins = add_builtins(&mut program);
    let root = program.get_entry_point();
    let a = plain(&mut program, "a", DataType::Int);
    let mut resolver = ScopeResolver::new();
    let problem = resolver
        .resolve_function_call(&mut program, &call_of(builtins.add_func, &[a], &[a]), root, 4)
        .unwrap_err();
    assert_eq!(problem.get_kind(), ProblemKind::WrongNumberOfInputs { expected: 2, provided: 1 });
    assert_eq!(problem.category(), Category::ArityMismatch);
    let problem = resolver
        .resolve_function_call(&mut program, &call_of(builtins.add_func, &[a, a], &[]), root, 4)
        .unwrap_err();
    assert_eq!(problem.get_kind(), ProblemKind::WrongNumberOfOutputs { expected: 1, provided: 0 });
    let problem = resolver.resolve_function_call(&mut program, &call_of(a, &[], &[]), root, 4).unwrap_err();
    assert_eq!(problem.get_kind(), ProblemKind::VagueFunction);
    assert_eq!(problem.borrow_descriptors()[0].position, FilePosition::from_bounds(5, 9));
    let problem = resolver
        .resolve_function_call(&mut program, &call_of(VariableId(5000), &[], &[]), root, 4)
        .unwrap_err();
    assert_eq!(problem.get_kind(), ProblemKind::UnknownId);
    assert_eq!(program.borrow_scope(root).borrow_calls().len(), 0);
}

/// Declares `fn same(T a):(T x) { copy(a):(x); }` and returns the function and its body.
fn declare_same(program: &mut Program, copy_func: VariableId) -> (VariableId, ScopeId) {
    let root = program.get_entry_point();
    let body = program.create_child_scope(root);
    let t = program.adopt_and_define_symbol(body, "T", Variable::data_type(here(), DataType::Automatic));
    let a = program.adopt_and_define_symbol(
        body,
        "a",
        Variable::variable(here(), DataType::LoadTemplateParameter(t), None),
    );
    let x = program.adopt_and_define_symbol(body, "x", Variable::variable(here(), DataType::Dynamic(t), None));
    program.add_input(body, a);
    program.add_output(body, x);
    program.add_func_call(body, call_of(copy_func, &[a], &[x]));
    let function = program.adopt_and_define_symbol(
        root,
        "same",
        Variable::function_def(FunctionData::new(body, FilePosition::from_bounds(1, 4))),
    );
    (function, body)
}

#[test]
fn a_generic_function_is_instantiated_for_its_arguments() {
    let mut program = Program::new();
    let builtins = add_builtins(&mut program);
    let root = program.get_entry_point();
    let (same, body) = declare_same(&mut program, builtins.copy_func);
    let n = plain(&mut program, "n", array(2, DataType::Int));
    let m = program.adopt_and_define_symbol(root, "m", Variable::automatic(here()));
    let output = program.create_child_scope(root);
    let mut resolver = ScopeResolver::new();
    resolver.resolve_function_call(&mut program, &call_of(same, &[n], &[m]), output, 4).unwrap();
    assert_eq!(resolver.table.depth(), 0);
    assert!(!resolver.table.is_converted(program.borrow_scope(body).get_input(0)));
    let calls = program.borrow_scope(output).borrow_calls();
    assert_eq!(calls.len(), 1);
    let instance = calls[0].get_function();
    assert_ne!(instance, same);
    assert_eq!(bases(calls[0].borrow_inputs()), vec![n]);
    assert_eq!(bases(calls[0].borrow_outputs()), vec![m]);
    assert_eq!(*program.borrow_variable(m).borrow_data_type(), array(2, DataType::Int));
    let function = *program.borrow_variable(instance).borrow_initial_value().require_function();
    assert_eq!(*function.get_header(), FilePosition::from_bounds(1, 4));
    let copy = function.get_body();
    assert_ne!(copy, body);
    let scope = program.borrow_scope(copy);
    let a = scope.get_input(0);
    let x = scope.get_output(0);
    assert_eq!(*program.borrow_variable(a).borrow_data_type(), array(2, DataType::Int));
    assert_eq!(*program.borrow_variable(x).borrow_data_type(), array(2, DataType::Int));
    assert_eq!(scope.borrow_calls().len(), 1);
    assert_eq!(scope.borrow_calls()[0].get_function(), builtins.copy_func);
    assert_eq!(bases(scope.borrow_calls()[0].borrow_inputs()), vec![a]);
    assert_eq!(bases(scope.borrow_calls()[0].borrow_outputs()), vec![x]);
    let declared = program.borrow_scope(body);
    assert_eq!(declared.borrow_calls().len(), 1);
    assert_eq!(
        *program.borrow_variable(declared.get_input(0)).borrow_data_type(),
        DataType::LoadTemplateParameter(program.lookup_symbol(body, "T").unwrap())
    );
    let bool_in = plain(&mut program, "p", DataType::Bool);
    let bool_out = plain(&mut program, "q", DataType::Bool);
    resolver.resolve_function_call(&mut program, &call_of(same, &[bool_in], &[bool_out]), output, 4).unwrap();
    let calls = program.borrow_scope(output).borrow_calls();
    assert_eq!(calls.len(), 2);
    let second = program.borrow_variable(calls[1].get_function()).borrow_initial_value().require_function().get_body();
    assert_ne!(second, copy);
    assert_eq!(
        *program.borrow_variable(program.borrow_scope(second).get_input(0)).borrow_data_type(),
        DataType::Bool
    );
    assert_eq!(*program.borrow_variable(a).borrow_data_type(), array(2, DataType::Int));
}

#[test]
fn a_generic_function_is_inlined_for_its_arguments() {
    let mut program = Program::new();
    let root = program.get_entry_point();
    let body = program.create_child_scope(root);
    let t = program.adopt_and_define_symbol(body, "T", Variable::data_type(here(), DataType::Automatic));
    let a = program.adopt_and_define_symbol(
        body,
        "a",
        Variable::variable(here(), DataType::LoadTemplateParameter(t), None),
    );
    let x = program.adopt_and_define_symbol(body, "x", Variable::variable(here(), DataType::Dynamic(t), None));
    program.add_input(body, a);
    program.add_output(body, x);
    program.add_expression(
        body,
        Expression::Assign {
            target: Box::new(Expression::Variable(x, here())),
            value: Box::new(Expression::BinaryOperation(
                Box::new(Expression::Variable(a, here())),
                BinaryOperator::Add,
                Box::new(Expression::Variable(a, here())),
                here(),
            )),
            position: here(),
        },
    );
    let double = program.adopt_and_define_symbol(root, "double", Variable::function_def(FunctionData::new(body, here())));
    let mut simplifier = ScopeSimplifier::new(root);
    let call = |argument: KnownData| Expression::FuncCall {
        function: Box::new(Expression::Variable(double, here())),
        inputs: vec![Expression::Literal(argument, here())],
        outputs: vec![Expression::InlineReturn(here())],
        position: here(),
    };
    let simplified = simplifier.simplify_expression(&mut program, &call(KnownData::Int(21)), 4).unwrap();
    assert_eq!(simplified.data_type, DataType::Int);
    assert!(matches!(simplified.content, Content::Interpreted(KnownData::Int(42))));
    let list = KnownData::Array(vec![KnownData::Int(1), KnownData::Int(2)]);
    let simplified = simplifier.simplify_expression(&mut program, &call(list), 4).unwrap();
    assert_eq!(simplified.data_type, array(2, DataType::Int));
    match simplified.content {
        Content::Interpreted(value) => {
            assert!(value.equals(&KnownData::Array(vec![KnownData::Int(2), KnownData::Int(4)])))
        }
        other => panic!("expected a known value, found {:?}", other),
    }
    assert_eq!(*program.borrow_variable(a).borrow_data_type(), DataType::LoadTemplateParameter(t));
    assert!(program.borrow_variable(t).borrow_initial_value().equals(&KnownData::DataType(DataType::Automatic)));
}

#[test]
fn the_calls_of_a_scope_are_resolved_in_order() {
    let mut program = Program::new();
    let builtins = add_builtins(&mut program);
    let root = program.get_entry_point();
    let a = plain(&mut program, "a", DataType::Int);
    let b = plain(&mut program, "b", DataType::Int);
    let c = program.adopt_and_define_symbol(root, "c", Variable::automatic(here()));
    let d = program.adopt_and_define_symbol(root, "d", Variable::automatic(here()));
    program.add_func_call(root, call_of(builtins.add_func, &[a, b], &[c]));
    program.add_func_call(root, call_of(builtins.mul_func, &[c, b], &[d]));
    let copy = resolve_scope(&mut program, root).unwrap();
    let converted = |name: &str| program.lookup_symbol(copy, name).unwrap();
    let calls = program.borrow_scope(copy).borrow_calls();
    assert_eq!(calls.len(), 2);
    assert_eq!(calls[0].get_function(), converted("!ADD"));
    assert_ne!(calls[0].get_function(), builtins.add_func);
    assert_eq!(
        *program.borrow_variable(calls[0].get_function()).borrow_initial_value().require_function().get_builtin(),
        Some(BuiltinFunction::Add)
    );
    assert_eq!(bases(calls[0].borrow_inputs()), vec![converted("a"), converted("b")]);
    assert_eq!(bases(calls[0].borrow_outputs()), vec![converted("c")]);
    assert_eq!(calls[1].get_function(), converted("!MUL"));
    assert_eq!(bases(calls[1].borrow_inputs()), vec![converted("c"), converted("b")]);
    assert_eq!(bases(calls[1].borrow_outputs()), vec![converted("d")]);
    assert_eq!(*program.borrow_variable(converted("d")).borrow_data_type(), DataType::Int);
    assert_eq!(*program.borrow_variable(d).borrow_data_type(), DataType::Automatic);
    assert_eq!(program.borrow_scope(root).borrow_calls().len(), 2);
    let mut resolver = ScopeResolver::new();
    let again = resolver.entry_point(&mut program, root, 4).unwrap();
    assert_ne!(again, copy);
    assert_eq!(program.borrow_scope(again).borrow_calls().len(), 2);
}

#[test]
fn casts_need_the_builtins() {
    let mut program = Program::new();
    let root = program.get_entry_point();
    let a = plain(&mut program, "a", DataType::Int);
    let b = plain(&mut program, "b", array(2, DataType::Int));
    let problem = create_cast(&mut program, root, VarAccess::new(a), VarAccess::new(b), here()).unwrap_err();
    assert_eq!(problem.get_kind(), ProblemKind::MissingBuiltin);
    assert_eq!(program.borrow_scope(root).borrow_calls().len(), 0);
    let builtins = add_builtins(&mut program);
    create_cast(&mut program, root, VarAccess::new(a), VarAccess::new(b), here()).unwrap();
    let calls = program.borrow_scope(root).borrow_calls();
    assert_eq!(calls.len(), 1);
    assert_eq!(calls[0].get_function(), builtins.copy_func);
    let mut item = VarAccess::new(b);
    item.add_index(a);
    assert_eq!(access_type(&program, &item), Some(DataType::Int));
    assert_eq!(access_type(&program, &VarAccess::new(b)), Some(array(2, DataType::Int)));
    assert_eq!(access_type(&program, &VarAccess::new(VariableId(999))), None);
}

#[test]
fn calls_are_converted_with_the_table() {
    let mut resolver = ScopeResolver::new();
    resolver.add_conversion(VariableId(1), VariableId(11));
    resolver.add_conversion(VariableId(2), VariableId(12));
    let mut access = VarAccess::new(VariableId(1));
    access.add_index(VariableId(2));
    access.add_index(VariableId(3));
    let converted = resolver.convert_var_access(&access);
    assert_eq!(converted.get_base(), VariableId(11));
    assert_eq!(converted.borrow_indexes(), &vec![VariableId(12), VariableId(3)]);
    let mut call = call_of(VariableId(2), &[VariableId(1), VariableId(4)], &[VariableId(2)]);
    call.add_output(access);
    let converted = resolver.convert_func_call(&call);
    assert_eq!(converted.get_function(), VariableId(12));
    assert_eq!(bases(converted.borrow_inputs()), vec![VariableId(11), VariableId(4)]);
    assert_eq!(bases(converted.borrow_outputs()), vec![VariableId(12), VariableId(11)]);
    assert_eq!(converted.borrow_outputs()[1].borrow_indexes(), &vec![VariableId(12), VariableId(3)]);
    assert_eq!(*converted.get_position(), FilePosition::from_bounds(5, 9));
    resolver.push_table();
    resolver.add_conversion(VariableId(4), VariableId(14));
    assert_eq!(resolver.convert(VariableId(4)), VariableId(14));
    resolver.pop_table();
    assert_eq!(resolver.convert(VariableId(4)), VariableId(4));
    assert_eq!(resolver.convert(VariableId(1)), VariableId(11));
}

#[test]
fn types_that_defer_are_equivalent_by_their_values() {
    let mut program = Program::new();
    let root = program.get_entry_point();
    let a = program.adopt_and_define_symbol(root, "A", Variable::data_type(here(), DataType::Int));
    let b = program.adopt_and_define_symbol(root, "B", Variable::data_type(here(), DataType::Int));
    let c = program.adopt_and_define_symbol(root, "C", Variable::data_type(here(), DataType::Float));
    let unknown = program.adopt_and_define_symbol(root, "U", Variable::variable(here(), DataType::DataType_, None));
    assert!(DataType::Dynamic(a).equivalent(&DataType::LoadTemplateParameter(b), &program));
    assert!(!DataType::Dynamic(a).equivalent(&DataType::Dynamic(c), &program));
    assert!(!DataType::Dynamic(unknown).equivalent(&DataType::Dynamic(unknown), &program));
    assert!(!DataType::Dynamic(a).equivalent(&DataType::Int, &program));
    assert!(!DataType::Int.equivalent(&DataType::Dynamic(a), &program));
    assert!(!DataType::Dynamic(VariableId(77)).equivalent(&DataType::Dynamic(a), &program));
    assert!(DataType::Int.equivalent(&DataType::Int, &program));
    assert!(!DataType::Int.equivalent(&DataType::Float, &program));
    assert!(array(2, DataType::Dynamic(a)).equivalent(&array(2, DataType::Dynamic(b)), &program));
    assert!(!array(2, DataType::Dynamic(a)).equivalent(&array(3, DataType::Dynamic(b)), &program));
    assert!(!array(2, DataType::Int).equivalent(&DataType::Int, &program));
}

#[test]
fn operators_bind_as_the_table_says() {
    let expected: [(&str, u32, u32, bool); 19] = [
        ("+", 1, 1, true),
        ("-", 2, 1, true),
        ("*", 3, 2, true),
        ("/", 4, 2, true),
        ("//", 5, 2, true),
        ("%", 6, 2, true),
        ("**", 7, 3, false),
        ("<=", 8, 4, true),
        ("<", 9, 4, true),
        (">=", 10, 4, true),
        (">", 11, 4, true),
        ("==", 12, 5, true),
        ("!=", 13, 5, true),
        ("band", 14, 6, true),
        ("bxor", 15, 7, true),
        ("bor", 16, 8, true),
        ("and", 17, 9, true),
        ("xor", 18, 10, true),
        ("or", 19, 11, true),
    ];
    for (token, id, precedence, left_assoc) in expected {
        let found = op_str_to_operator(token).unwrap();
        assert_eq!((found.id, found.precedence, found.left_assoc), (id, precedence, left_assoc));
        assert_eq!(found, operator(id));
    }
    assert_eq!(op_str_to_operator("nand"), None);
    assert_eq!(op_str_to_operator(""), None);
    assert_eq!(op_str_to_operator("+ "), None);
    assert_eq!(operator(SENTINEL).precedence, 0);
    assert_eq!(operator(ADD).id, 1);
    assert_eq!(operator(POWER).precedence, 3);
    assert_eq!(operator(OR).precedence, 11);
    let mut program = Program::new();
    let builtins = add_builtins(&mut program);
    assert_eq!(operator_to_op_fn(&operator(ADD), &builtins), Some(builtins.add_func));
    assert_eq!(operator_to_op_fn(&op_str_to_operator("//").unwrap(), &builtins), Some(builtins.int_div_func));
    assert_eq!(operator_to_op_fn(&op_str_to_operator("**").unwrap(), &builtins), Some(builtins.pow_func));
    assert_eq!(operator_to_op_fn(&op_str_to_operator("bxor").unwrap(), &builtins), Some(builtins.bxor_func));
    assert_eq!(operator_to_op_fn(&operator(OR), &builtins), Some(builtins.or_func));
    assert_eq!(operator_to_op_fn(&operator(SENTINEL), &builtins), None);
    assert_eq!(operator_to_op_fn(&operator(20), &builtins), None);
}

#[test]
fn decimal_literals_are_read_without_their_underscores() {
    assert_eq!(parse_dec_int("40189"), Some(40189));
    assert_eq!(parse_dec_int("01_234567"), Some(1234567));
    assert_eq!(parse_dec_int("1__0_"), Some(10));
    assert_eq!(parse_dec_int("_7"), Some(7));
    assert_eq!(parse_dec_int("0"), Some(0));
    assert_eq!(parse_dec_int("9223372036854775807"), Some(i64::MAX));
    assert_eq!(parse_dec_int("9223372036854775808"), None);
    assert_eq!(parse_dec_int("92233720368547758070"), None);
    assert_eq!(parse_dec_int("99999999999999999999x"), None);
    assert_eq!(parse_dec_int(""), None);
    assert_eq!(parse_dec_int("_"), None);
    assert_eq!(parse_dec_int("-4"), None);
    assert_eq!(parse_dec_int("12a"), None);
    assert_eq!(parse_dec_int(" 12"), None);
    assert_eq!(parse_dec_int("١٢"), None);
}
