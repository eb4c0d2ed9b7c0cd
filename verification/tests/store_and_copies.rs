use waveguide::copier::{convert_deferred_types, copy_scope, instantiate_scope};
use waveguide::data_type::DataType;
use waveguide::expression::Expression;
use waveguide::func_call::{FuncCall, VarAccess};
use waveguide::ids::{ScopeId, VariableId};
use waveguide::known_data::{FunctionData, KnownData};
use waveguide::position::FilePosition;
use waveguide::problem::{Category, ProblemKind};
use waveguide::program::Program;
use waveguide::scope::{Scope, Symbol};
use waveguide::table::ResolverTable;
use waveguide::variable::Variable;

fn here() -> FilePosition {
    FilePosition::placeholder()
}

fn int_variable() -> Variable {
    Variable::variable(here(), DataType::Int, None)
}

#[test]
fn symbols_are_found_through_the_parent_chain() {
    let mut program = Program::new();
    let root = program.get_entry_point();
    let child = program.create_child_scope(root);
    let grandchild = program.create_child_scope(child);
    let lonely = program.create_scope();
    let a = program.adopt_and_define_symbol(root, "a", int_variable());
    let b = program.adopt_and_define_symbol(child, "b", int_variable());
    let shadow = program.adopt_and_define_symbol(grandchild, "a", int_variable());
    assert_eq!(program.lookup_symbol(root, "a"), Some(a));
    assert_eq!(program.lookup_symbol(child, "a"), Some(a));
    assert_eq!(program.lookup_symbol(grandchild, "a"), Some(shadow));
    assert_eq!(program.lookup_symbol(grandchild, "b"), Some(b));
    assert_eq!(program.lookup_symbol(root, "b"), None);
    assert_eq!(program.lookup_symbol(lonely, "a"), None);
    assert_eq!(program.lookup_symbol(grandchild, "c"), None);
    assert_eq!(program.borrow_scope(grandchild).get_parent(), Some(child));
    assert_eq!(program.borrow_scope(lonely).get_parent(), None);
}

#[test]
fn a_name_is_defined_once_in_a_scope() {
    let mut program = Program::new();
    let root = program.get_entry_point();
    let first = program.adopt_and_define_symbol(root, "x", int_variable());
    let other = program.adopt_and_define_symbol(root, "y", int_variable());
    let second = program.adopt_and_define_symbol(root, "x", int_variable());
    assert_ne!(first, second);
    assert_eq!(program.lookup_symbol(root, "x"), Some(second));
    assert_eq!(program.lookup_symbol(root, "y"), Some(other));
    let symbols = program.borrow_scope(root).borrow_symbols();
    assert_eq!(symbols.len(), 2);
    assert_eq!(symbols[0].name, "x");
    assert_eq!(symbols[0].id, second);
    assert_eq!(symbols[1].name, "y");
}

#[test]
fn ids_are_handed_out_in_order_and_stay_valid() {
    let mut program = Program::new();
    let root = program.get_entry_point();
    assert_eq!(root, ScopeId(0));
    assert_eq!(program.create_scope(), ScopeId(1));
    assert_eq!(program.create_child_scope(root), ScopeId(2));
    assert_eq!(program.adopt_variable(int_variable()), VariableId(0));
    assert_eq!(program.adopt_and_define_intermediate(root, int_variable()), VariableId(1));
    assert_eq!(program.make_intermediate_auto_var(root, here()), VariableId(2));
    assert!(program.has_scope(ScopeId(2)));
    assert!(!program.has_scope(ScopeId(3)));
    assert!(program.has_variable(VariableId(2)));
    assert!(!program.has_variable(VariableId(3)));
    assert_eq!(program.borrow_scope(root).borrow_intermediates(), &vec![VariableId(1), VariableId(2)]);
    assert_eq!(*program.borrow_variable(VariableId(2)).borrow_data_type(), DataType::Automatic);
    program.set_entry_point(ScopeId(1));
    assert_eq!(program.get_entry_point(), ScopeId(1));
    assert!(program.get_builtins().is_none());
}

#[test]
fn variables_are_changed_only_on_request() {
    let mut program = Program::new();
    let root = program.get_entry_point();
    let a = program.adopt_and_define_symbol(root, "a", Variable::int_literal(here(), 4));
    let b = program.adopt_and_define_symbol(root, "b", Variable::automatic(here()));
    assert!(program.is_permanent(a));
    assert!(!program.is_permanent(b));
    program.set_temporary_value(a, KnownData::Int(9));
    program.set_temporary_value(b, KnownData::Bool(true));
    program.set_data_type(b, DataType::Bool);
    assert!(program.borrow_temporary_value(a).equals(&KnownData::Int(9)));
    assert!(program.borrow_variable(a).borrow_initial_value().equals(&KnownData::Int(4)));
    program.reset_all_temporary_value();
    assert!(program.borrow_temporary_value(a).equals(&KnownData::Int(4)));
    assert!(program.borrow_temporary_value(b).equals(&KnownData::Unknown));
    assert_eq!(*program.borrow_variable(b).borrow_data_type(), DataType::Bool);
    program.set_initial_value(b, KnownData::Bool(false));
    assert!(program.borrow_variable(b).borrow_initial_value().equals(&KnownData::Bool(false)));
    program.modify_variable(b, Variable::void(FilePosition::from_bounds(1, 2)));
    assert_eq!(*program.borrow_variable(b).borrow_data_type(), DataType::Void);
    assert_eq!(*program.borrow_variable(b).get_definition(), FilePosition::from_bounds(1, 2));
    program.set_temporary_value(a, KnownData::Array(vec![KnownData::Int(1), KnownData::Int(2)]));
    assert!(program.set_temporary_item(a, &vec![1], KnownData::Int(5)));
    assert!(!program.set_temporary_item(a, &vec![2], KnownData::Int(5)));
    assert!(program
        .borrow_temporary_value(a)
        .equals(&KnownData::Array(vec![KnownData::Int(1), KnownData::Int(5)])));
}

#[test]
fn variables_are_made_as_declared() {
    let at = FilePosition::from_bounds(3, 4);
    let constant = Variable::constant(at, DataType::Int, KnownData::Int(3));
    assert!(constant.is_permanent());
    assert!(constant.borrow_initial_value().equals(&KnownData::Int(3)));
    assert!(constant.borrow_temporary_value().equals(&KnownData::Int(3)));
    let plain = Variable::variable(at, DataType::Bool, Some(KnownData::Bool(true)));
    assert!(!plain.is_permanent());
    assert!(plain.borrow_temporary_value().equals(&KnownData::Bool(true)));
    let function = FunctionData::new(ScopeId(1), at);
    let named = Variable::function_def(function);
    assert!(named.is_permanent());
    assert_eq!(*named.borrow_data_type(), DataType::Function_);
    assert_eq!(*named.get_definition(), at);
    let held = Variable::data_type(at, DataType::Float);
    assert_eq!(*held.borrow_data_type(), DataType::DataType_);
    assert!(held.borrow_initial_value().equals(&KnownData::DataType(DataType::Float)));
    assert!(Variable::bool_literal(at, true).borrow_initial_value().equals(&KnownData::Bool(true)));
    assert!(Variable::float_literal(at, 2.5f64.to_bits())
        .borrow_initial_value()
        .equals(&KnownData::Float(2.5f64.to_bits())));
    assert_eq!(*Variable::void(at).borrow_data_type(), DataType::Void);
    let mut changed = Variable::automatic(at);
    changed.set_definition(here());
    changed.set_data_type(DataType::Int);
    changed.set_initial_value(KnownData::Int(1));
    changed.set_temporary_value(KnownData::Int(2));
    changed.mark_as_permanent();
    assert!(changed.is_permanent());
    changed.reset_temporary_value();
    assert!(changed.borrow_temporary_value().equals(&KnownData::Int(1)));
    assert_eq!(*changed.get_definition(), here());
}

#[test]
fn the_function_of_a_body_is_found() {
    let mut program = Program::new();
    let root = program.get_entry_point();
    let body = program.create_child_scope(root);
    let other = program.create_child_scope(root);
    program.adopt_and_define_symbol(root, "n", Variable::int_literal(here(), 4));
    let header = FilePosition::from_bounds(2, 6);
    let f = program.adopt_and_define_symbol(root, "f", Variable::function_def(FunctionData::new(body, header)));
    assert_eq!(program.find_parent_function(body), Some(f));
    assert_eq!(program.find_parent_function(other), None);
    let found = program.lookup_and_clone_parent_function(body).unwrap();
    assert_eq!(found.get_body(), body);
    assert_eq!(*found.get_header(), header);
    assert!(program.lookup_and_clone_parent_function(other).is_none());
}

#[test]
fn a_popped_table_is_what_was_pushed() {
    let mut table = ResolverTable::new();
    table.add_conversion(VariableId(1), VariableId(10));
    table.push_table();
    assert_eq!(table.depth(), 1);
    assert_eq!(table.convert(VariableId(1)), VariableId(10));
    table.add_conversion(VariableId(2), VariableId(20));
    table.add_substitution(VariableId(3), Expression::Return(here()), DataType::Void);
    table.push_table();
    table.add_conversion(VariableId(4), VariableId(40));
    assert_eq!(table.convert(VariableId(4)), VariableId(40));
    assert_eq!(table.convert(VariableId(2)), VariableId(20));
    table.pop_table();
    assert_eq!(table.convert(VariableId(4)), VariableId(4));
    assert!(table.is_converted(VariableId(2)));
    assert!(table.substitution(VariableId(3)).is_some());
    table.pop_table();
    assert_eq!(table.depth(), 0);
    assert_eq!(table.convert(VariableId(1)), VariableId(10));
    assert_eq!(table.convert(VariableId(2)), VariableId(2));
    assert!(!table.is_converted(VariableId(2)));
    assert!(table.substitution(VariableId(3)).is_none());
}

#[test]
fn unconverted_ids_pass_through() {
    let table = ResolverTable::new();
    assert_eq!(table.convert(VariableId(77)), VariableId(77));
    assert!(!table.is_converted(VariableId(77)));
}

fn generic_scope(program: &mut Program) -> (ScopeId, VariableId, VariableId, VariableId) {
    let root = program.get_entry_point();
    let source = program.create_child_scope(root);
    let x = program.adopt_and_define_symbol(source, "x", Variable::variable(here(), DataType::Int, Some(KnownData::Int(1))));
    let y = program.adopt_and_define_symbol(source, "y", int_variable());
    let hidden = program.adopt_and_define_intermediate(source, Variable::automatic(here()));
    program.add_input(source, y);
    program.add_input(source, x);
    program.add_output(source, hidden);
    program.add_expression(source, Expression::Return(here()));
    (source, x, y, hidden)
}

#[test]
fn a_copy_has_variables_of_its_own() {
    let mut program = Program::new();
    let (source, x, y, hidden) = generic_scope(&mut program);
    let mut first_table = ResolverTable::new();
    let first = copy_scope(&mut program, &mut first_table, source, None).unwrap();
    let mut second_table = ResolverTable::new();
    let second = copy_scope(&mut program, &mut second_table, source, Some(source)).unwrap();
    assert_ne!(first, source);
    assert_ne!(second, source);
    assert_ne!(first, second);
    assert_eq!(program.borrow_scope(first).get_parent(), None);
    assert_eq!(program.borrow_scope(second).get_parent(), Some(source));
    let mut seen = vec![x, y, hidden];
    for copy in [first, second] {
        let scope = program.borrow_scope(copy);
        assert_eq!(scope.borrow_symbols().len(), 2);
        assert_eq!(scope.borrow_intermediates().len(), 1);
        assert_eq!(scope.borrow_body().len(), 0);
        for id in scope.borrow_symbols().iter().map(|symbol| symbol.id).chain(scope.borrow_intermediates().iter().copied()) {
            assert!(!seen.contains(&id));
            seen.push(id);
        }
    }
    let first_x = program.lookup_symbol(first, "x").unwrap();
    let second_x = program.lookup_symbol(second, "x").unwrap();
    assert_eq!(first_table.convert(x), first_x);
    assert_eq!(second_table.convert(x), second_x);
    assert!(program.borrow_temporary_value(first_x).equals(&KnownData::Int(1)));
    program.set_temporary_value(first_x, KnownData::Int(99));
    assert!(program.borrow_temporary_value(second_x).equals(&KnownData::Int(1)));
    assert!(program.borrow_temporary_value(x).equals(&KnownData::Int(1)));
    program.set_temporary_value(second_x, KnownData::Int(-1));
    assert!(program.borrow_temporary_value(first_x).equals(&KnownData::Int(99)));
}

#[test]
fn a_copy_keeps_the_order_of_the_parameters() {
    let mut program = Program::new();
    let (source, x, y, hidden) = generic_scope(&mut program);
    let mut table = ResolverTable::new();
    let copy = copy_scope(&mut program, &mut table, source, None).unwrap();
    let scope = program.borrow_scope(copy);
    assert_eq!(scope.borrow_inputs(), &vec![table.convert(y), table.convert(x)]);
    assert_eq!(scope.borrow_outputs(), &vec![table.convert(hidden)]);
    assert_eq!(scope.get_input(0), program.lookup_symbol(copy, "y").unwrap());
    assert_eq!(scope.get_input(1), program.lookup_symbol(copy, "x").unwrap());
    assert_eq!(scope.get_output(0), scope.borrow_intermediates()[0]);
}

/// Declares a scope with a template parameter `T`, `a` of type `[2]T`, `b` whose type
/// defers to a variable outside the scope, and `c` that holds a type deferring to `T`.
fn declare_templated(program: &mut Program) -> (ScopeId, VariableId, VariableId) {
    let root = program.get_entry_point();
    let outside = program.adopt_and_define_symbol(root, "U", Variable::data_type(here(), DataType::Int));
    let source = program.create_child_scope(root);
    let t = program.adopt_and_define_symbol(source, "T", Variable::data_type(here(), DataType::Automatic));
    program.adopt_and_define_symbol(
        source,
        "a",
        Variable::variable(here(), DataType::Array(2, Box::new(DataType::LoadTemplateParameter(t))), None),
    );
    program.adopt_and_define_symbol(source, "b", Variable::variable(here(), DataType::Dynamic(outside), None));
    program.adopt_and_define_symbol(source, "c", Variable::data_type(here(), DataType::Dynamic(t)));
    (source, t, outside)
}

#[test]
fn a_copy_holds_each_variable_as_it_is() {
    let mut program = Program::new();
    let (source, t, outside) = declare_templated(&mut program);
    let source_a = program.lookup_symbol(source, "a").unwrap();
    program.set_temporary_value(source_a, KnownData::Int(3));
    let mut table = ResolverTable::new();
    let copy = copy_scope(&mut program, &mut table, source, None).unwrap();
    let copied_t = program.lookup_symbol(copy, "T").unwrap();
    let a = program.lookup_symbol(copy, "a").unwrap();
    let b = program.lookup_symbol(copy, "b").unwrap();
    let c = program.lookup_symbol(copy, "c").unwrap();
    assert_ne!(copied_t, t);
    assert_eq!(table.convert(t), copied_t);
    assert_eq!(
        *program.borrow_variable(a).borrow_data_type(),
        DataType::Array(2, Box::new(DataType::LoadTemplateParameter(t)))
    );
    assert!(program.borrow_temporary_value(a).equals(&KnownData::Int(3)));
    assert!(!program.is_permanent(a));
    assert_eq!(*program.borrow_variable(b).borrow_data_type(), DataType::Dynamic(outside));
    assert!(program.borrow_variable(c).borrow_initial_value().equals(&KnownData::DataType(DataType::Dynamic(t))));
    assert!(program.is_permanent(c));
    assert!(program.is_permanent(copied_t));
}

#[test]
fn converting_makes_the_types_of_a_copy_speak_of_the_copy() {
    let mut program = Program::new();
    let (source, t, outside) = declare_templated(&mut program);
    let mut table = ResolverTable::new();
    let copy = copy_scope(&mut program, &mut table, source, None).unwrap();
    convert_deferred_types(&mut program, &table, copy);
    let copied_t = program.lookup_symbol(copy, "T").unwrap();
    let a = program.lookup_symbol(copy, "a").unwrap();
    let b = program.lookup_symbol(copy, "b").unwrap();
    let c = program.lookup_symbol(copy, "c").unwrap();
    assert_eq!(
        *program.borrow_variable(a).borrow_data_type(),
        DataType::Array(2, Box::new(DataType::LoadTemplateParameter(copied_t)))
    );
    assert_eq!(*program.borrow_variable(b).borrow_data_type(), DataType::Dynamic(outside));
    assert!(program
        .borrow_variable(c)
        .borrow_initial_value()
        .equals(&KnownData::DataType(DataType::Dynamic(copied_t))));
    let source_a = program.lookup_symbol(source, "a").unwrap();
    assert_eq!(
        *program.borrow_variable(source_a).borrow_data_type(),
        DataType::Array(2, Box::new(DataType::LoadTemplateParameter(t)))
    );
}

#[test]
fn an_instance_is_a_copy_with_its_types_converted() {
    let mut program = Program::new();
    let (source, t, outside) = declare_templated(&mut program);
    let mut table = ResolverTable::new();
    let instance = instantiate_scope(&mut program, &mut table, source, None).unwrap();
    assert_ne!(instance, source);
    let copied_t = program.lookup_symbol(instance, "T").unwrap();
    let a = program.lookup_symbol(instance, "a").unwrap();
    let b = program.lookup_symbol(instance, "b").unwrap();
    assert_ne!(copied_t, t);
    assert_eq!(
        *program.borrow_variable(a).borrow_data_type(),
        DataType::Array(2, Box::new(DataType::LoadTemplateParameter(copied_t)))
    );
    assert_eq!(*program.borrow_variable(b).borrow_data_type(), DataType::Dynamic(outside));
    let again = instantiate_scope(&mut program, &mut table, source, None).unwrap_err();
    assert_eq!(again.get_kind(), ProblemKind::DuplicateConversion);
}

#[test]
fn a_variable_is_converted_once() {
    let mut program = Program::new();
    let (source, x, _y, _hidden) = generic_scope(&mut program);
    let mut table = ResolverTable::new();
    table.push_table();
    table.add_conversion(x, VariableId(0));
    let problem = copy_scope(&mut program, &mut table, source, None).unwrap_err();
    assert_eq!(problem.get_kind(), ProblemKind::DuplicateConversion);
    assert_eq!(problem.category(), Category::Internal);
    assert_eq!(table.depth(), 1);
    table.pop_table();
    assert!(!table.is_converted(x));
    let again = copy_scope(&mut program, &mut table, source, None);
    assert!(again.is_ok());
    let twice = copy_scope(&mut program, &mut table, source, None);
    assert_eq!(twice.unwrap_err().get_kind(), ProblemKind::DuplicateConversion);
}

#[test]
fn scopes_collect_what_is_added() {
    let mut scope = Scope::from_parent(ScopeId(0));
    scope.define_symbol("a", VariableId(1));
    scope.define_intermediate(VariableId(2));
    scope.add_input(VariableId(1));
    scope.add_output(VariableId(2));
    scope.add_expression(Expression::Return(here()));
    scope.add_func_call(FuncCall::new(VariableId(1), here()));
    assert_eq!(scope.lookup("a"), Some(VariableId(1)));
    assert_eq!(scope.lookup("b"), None);
    assert_eq!(scope.borrow_body().len(), 1);
    assert_eq!(scope.borrow_calls().len(), 1);
    assert_eq!(Scope::new().get_parent(), None);
}

#[test]
fn calls_collect_their_arguments_in_order() {
    let mut access = VarAccess::new(VariableId(5));
    access.add_index(VariableId(6));
    access.add_index(VariableId(7));
    assert_eq!(access.get_base(), VariableId(5));
    assert_eq!(access.borrow_indexes(), &vec![VariableId(6), VariableId(7)]);
    assert_eq!(access.iterate_over_indexes().copied().collect::<Vec<_>>(), vec![VariableId(6), VariableId(7)]);
    let at = FilePosition::from_bounds(1, 9);
    let mut call = FuncCall::new(VariableId(1), at);
    call.add_input(VarAccess::new(VariableId(2)));
    call.add_input(access.clone());
    call.add_output(VarAccess::new(VariableId(3)));
    assert_eq!(call.get_function(), VariableId(1));
    assert_eq!(*call.get_position(), at);
    assert_eq!(call.borrow_inputs().len(), 2);
    assert_eq!(call.borrow_inputs()[1], access);
    assert_eq!(call.borrow_outputs(), &vec![VarAccess::new(VariableId(3))]);
    assert_eq!(call.iterate_over_inputs().count(), 2);
    assert_eq!(call.iterate_over_outputs().next().unwrap().get_base(), VariableId(3));
    call.set_function(VariableId(8));
    call.set_position(here());
    assert_eq!(call.get_function(), VariableId(8));
    assert_eq!(*call.get_position(), here());
}

#[test]
fn a_program_built_by_its_own_methods_is_well_formed() {
    let mut program = Program::new();
    assert!(program.is_well_formed());
    let root = program.get_entry_point();
    let inner = program.create_child_scope(root);
    let a = program.adopt_and_define_symbol(inner, "a", Variable::automatic(FilePosition::from_bounds(0, 1)));
    program.adopt_and_define_symbol(inner, "b", Variable::automatic(FilePosition::from_bounds(2, 3)));
    program.add_input(inner, a);
    assert!(program.is_well_formed());
    assert!(program.borrow_scope(inner).has_distinct_names());
    assert!(program.borrow_scope(inner).has_ids_below(2));
    assert!(!program.borrow_scope(inner).has_ids_below(1));
}

#[test]
fn a_program_put_together_wrongly_is_not_well_formed() {
    let mut without_entry = Program::new();
    without_entry.entry_point = ScopeId(1);
    assert!(!without_entry.is_well_formed());

    let mut own_parent = Program::new();
    own_parent.scopes[0].parent = Some(ScopeId(0));
    assert!(!own_parent.is_well_formed());

    let mut missing_variable = Program::new();
    missing_variable.scopes[0].outputs.push(VariableId(0));
    assert!(!missing_variable.is_well_formed());

    let mut twice = Program::new();
    let root = twice.get_entry_point();
    let a = twice.adopt_and_define_symbol(root, "a", Variable::automatic(FilePosition::from_bounds(0, 1)));
    twice.scopes[0].symbols.push(Symbol { name: String::from("a"), id: a });
    assert!(!twice.borrow_scope(root).has_distinct_names());
    assert!(!twice.is_well_formed());
}

#[test]
fn a_name_that_nothing_visible_has_is_a_problem() {
    let mut program = Program::new();
    let root = program.get_entry_point();
    let inner = program.create_child_scope(root);
    let sibling = program.create_child_scope(root);
    let outer = program.adopt_and_define_symbol(root, "outer", int_variable());
    let hidden = program.adopt_and_define_symbol(sibling, "hidden", int_variable());
    let at = FilePosition::from_bounds(7, 13);
    assert_eq!(program.require_symbol(inner, "outer", at).unwrap(), outer);
    assert_eq!(program.require_symbol(sibling, "hidden", at).unwrap(), hidden);
    let problem = program.require_symbol(inner, "hidden", at).unwrap_err();
    assert_eq!(problem.get_kind(), ProblemKind::NoEntityWithName);
    assert_eq!(problem.category(), Category::UnresolvedName);
    assert_eq!(problem.borrow_descriptors().len(), 1);
    assert_eq!(problem.borrow_descriptors()[0].position, at);
}

#[test]
fn no_two_variables_of_a_source_share_an_instance() {
    let mut program = Program::new();
    let root = program.get_entry_point();
    let source = program.create_child_scope(root);
    let a = program.adopt_and_define_symbol(source, "a", int_variable());
    let b = program.adopt_and_define_symbol(source, "b", int_variable());
    let c = program.adopt_and_define_intermediate(source, int_variable());
    let mut table = ResolverTable::new();
    copy_scope(&mut program, &mut table, source, Some(root)).unwrap();
    let images = [table.convert(a), table.convert(b), table.convert(c)];
    assert_ne!(images[0], images[1]);
    assert_ne!(images[0], images[2]);
    assert_ne!(images[1], images[2]);
    for image in images {
        assert!(image != a && image != b && image != c);
        assert!(program.has_variable(image));
    }
}
