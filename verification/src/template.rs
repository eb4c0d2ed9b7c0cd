//! Inference of template parameters and resolution of the types that depend on them.

use crate::data_type::{biggest_type, DataType, spec_biggest_type};
use crate::ids::{ScopeId, VariableId};
use crate::known_data::{KnownData, Value};
use crate::program::{Program, ProgramView};
use crate::variable::VariableView;
use std::collections::HashMap;
use vstd::prelude::*;
use vstd::std_specs::hash::*;

verus! {

/// The types that were inferred for template parameters so far: a map
/// from the parameters to their types.
#[derive(Debug)]
pub struct TypeTable {
    bindings: HashMap<usize, DataType>,
}

impl View for TypeTable {
    type V = Map<VariableId, DataType>;

    closed spec fn view(&self) -> Map<VariableId, DataType> {
        Map::new(
            |key: VariableId| self.bindings@.contains_key(key.0),
            |key: VariableId| self.bindings@[key.0],
        )
    }
}

impl TypeTable {
    /// The table without bindings: no parameter is bound.
    pub fn new() -> (r: TypeTable)
        ensures
            r@ == Map::<VariableId, DataType>::empty(),
    {
        let r = TypeTable { bindings: HashMap::new() };
        assert(r@ =~= Map::<VariableId, DataType>::empty());
        r
    }

    /// The type that `parameter` is bound to.
    pub fn get(&self, parameter: VariableId) -> (r: Option<&DataType>)
        ensures
            r is Some == self@.contains_key(parameter),
            r is Some ==> *r.unwrap() == self@[parameter],
    {
        broadcast use group_hash_axioms;

        self.bindings.get(&parameter.0)
    }

    /// Binds `parameter` to `data_type`, in place of what it was bound to.
    pub fn insert(&mut self, parameter: VariableId, data_type: DataType)
        ensures
            final(self)@ == old(self)@.insert(parameter, data_type),
    {
        broadcast use group_hash_axioms;

        self.bindings.insert(parameter.0, data_type);
        proof {
            assert(self@ =~= old(self)@.insert(parameter, data_type));
        }
    }
}

/// The table after the type `value` of an argument was combined into the
/// template parameter: the first type stands as it is, each later one is
/// unified with what is there. `None` where they do not unify.
pub open spec fn combined(
    table: Map<VariableId, DataType>,
    template_parameter: VariableId,
    value: DataType,
) -> Option<Map<VariableId, DataType>> {
    if table.contains_key(template_parameter) {
        match spec_biggest_type(table[template_parameter], value) {
            Some(common) => Some(table.insert(template_parameter, common)),
            None => None,
        }
    } else {
        Some(table.insert(template_parameter, value))
    }
}

/// Combines the type of one argument into what is known of a template
/// parameter. Where the types do not unify, the table stays as it is, and
/// the result is `false`.
pub fn combine_type_into_table(template_parameter: VariableId, value: &DataType, table: &mut TypeTable) -> (done:
    bool)
    ensures
        match combined(old(table)@, template_parameter, *value) {
            Some(after) => done && final(table)@ == after,
            None => !done && final(table)@ == old(table)@,
        },
{
    let combined = match table.get(template_parameter) {
        Some(present) => biggest_type(present, value),
        None => Some(value.clone()),
    };
    match combined {
        Some(data_type) => {
            table.insert(template_parameter, data_type);
            true
        },
        None => false,
    }
}

/// The table after one pair of a parameter type and an argument type was
/// taken into account: a parameter whose type is a template parameter
/// constrains it, any other constrains nothing.
pub open spec fn constrained(
    table: Map<VariableId, DataType>,
    parameter_type: DataType,
    argument_type: DataType,
) -> Option<Map<VariableId, DataType>> {
    match parameter_type {
        DataType::LoadTemplateParameter(type_var) => combined(table, type_var, argument_type),
        _ => Some(table),
    }
}

/// Takes one pair of a parameter type and an argument type into account.
pub fn resolve_template_parameters(
    parameter_type: &DataType,
    argument_type: &DataType,
    type_parameters: &mut TypeTable,
) -> (done: bool)
    ensures
        match constrained(old(type_parameters)@, *parameter_type, *argument_type) {
            Some(after) => done && final(type_parameters)@ == after,
            None => !done && final(type_parameters)@ == old(type_parameters)@,
        },
{
    match parameter_type {
        DataType::LoadTemplateParameter(type_var) => combine_type_into_table(
            *type_var,
            argument_type,
            type_parameters,
        ),
        _ => true,
    }
}

/// The type with the template parameter that it names replaced by its
/// binding; `None` where it names one that has none.
pub open spec fn templated(data_type: DataType, type_params: Map<VariableId, DataType>) -> Option<
    DataType,
> {
    match data_type {
        DataType::Dynamic(target) | DataType::LoadTemplateParameter(target) => if type_params.contains_key(
            target,
        ) {
            Some(type_params[target])
        } else {
            None
        },
        _ => Some(data_type),
    }
}

/// Replaces the template parameter that a type names by its binding.
pub fn resolve_templated_type(data_type: &DataType, type_params: &TypeTable) -> (r: Option<DataType>)
    ensures
        r == templated(*data_type, type_params@),
{
    match data_type {
        DataType::Dynamic(target) | DataType::LoadTemplateParameter(target) => {
            match type_params.get(*target) {
                Some(bound) => Some(bound.clone()),
                None => None,
            }
        },
        _ => Some(data_type.clone()),
    }
}

impl ProgramView {
    /// The program in which each template parameter that has a binding
    /// holds the type that it is bound to, from the start and now.
    pub open spec fn with_bindings(self, bindings: Map<VariableId, DataType>) -> ProgramView {
        ProgramView {
            variables: Seq::new(
                self.variables.len(),
                |v: int|
                    if bindings.contains_key(VariableId(v as usize)) {
                        VariableView {
                            initial_value: Value::DataType(bindings[VariableId(v as usize)]),
                            temporary_value: Value::DataType(bindings[VariableId(v as usize)]),
                            ..self.variables[v]
                        }
                    } else {
                        self.variables[v]
                    },
            ),
            ..self
        }
    }

    /// The type that `data_type` stands for: a type that defers to a
    /// permanent variable holding a data type stands for what that type
    /// stands for, and so on for at most `steps` steps; the element type
    /// of an array is resolved in the same way. A type that defers to
    /// anything else is left as it is.
    pub open spec fn resolved_type(self, data_type: DataType, steps: nat) -> DataType
        decreases steps, data_type,
    {
        match data_type {
            DataType::Dynamic(target) | DataType::LoadTemplateParameter(target) => {
                if steps > 0 && self.has_variable(target) && self.variable(target).permanent
                    && self.variable(target).initial_value is DataType {
                    self.resolved_type(
                        self.variable(target).initial_value->DataType_0,
                        (steps - 1) as nat,
                    )
                } else {
                    data_type
                }
            },
            DataType::Array(len, base) => DataType::Array(
                len,
                Box::new(self.resolved_type(*base, steps)),
            ),
            _ => data_type,
        }
    }

    /// The variable `id` with its type resolved, and with the data type
    /// that it holds resolved, if it holds one.
    pub open spec fn with_resolved_types(self, id: VariableId) -> ProgramView {
        let steps = self.variables.len();
        let variable = self.variable(id);
        self.with_variable(
            id,
            VariableView {
                data_type: self.resolved_type(variable.data_type, steps),
                initial_value: match variable.initial_value {
                    Value::DataType(held) => Value::DataType(self.resolved_type(held, steps)),
                    other => other,
                },
                ..variable
            },
        )
    }

    /// The program after the types of the first `done` of `ids` were resolved, one after the other.
    pub open spec fn after_resolving(self, ids: Seq<VariableId>, done: int) -> ProgramView
        decreases done,
    {
        if done <= 0 {
            self
        } else {
            self.after_resolving(ids, done - 1).with_resolved_types(ids[done - 1])
        }
    }
}

/// Writes the bindings into the program: each template parameter that
/// has one holds the type that it is bound to, from the start and now.
pub fn write_bindings(program: &mut Program, type_params: &TypeTable)
    ensures
        final(program)@ == old(program)@.with_bindings(type_params@),
        old(program)@.wf() ==> final(program)@.wf(),
        final(program)@.extends(old(program)@),
        final(program)@.scopes == old(program)@.scopes,
        final(program)@.variables.len() == old(program)@.variables.len(),
{
    let count: usize = program.variables.len();
    let ghost bindings = type_params@;
    let ghost expected = old(program)@.with_bindings(bindings).variables;
    let mut t: usize = 0;
    while t < count
        invariant
            bindings == type_params@,
            expected == old(program)@.with_bindings(bindings).variables,
            count == old(program)@.variables.len(),
            t <= count,
            old(program)@.wf() ==> program@.wf(),
            program@.extends(old(program)@),
            program@.scopes == old(program)@.scopes,
            program@.entry_point == old(program)@.entry_point,
            program@.builtins == old(program)@.builtins,
            program@.variables.len() == count,
            forall|v: int| 0 <= v < t ==> #[trigger] program@.variables[v] == expected[v],
            forall|v: int| t <= v < count ==> #[trigger] program@.variables[v] == old(program)@.variables[v],
        decreases count - t,
    {
        let id = VariableId(t);
        let bound = match type_params.get(id) {
            Some(data_type) => Some(data_type.clone()),
            None => None,
        };
        match bound {
            Some(data_type) => {
                program.set_initial_value(id, KnownData::DataType(data_type.clone()));
                program.set_temporary_value(id, KnownData::DataType(data_type));
            },
            None => {},
        }
        t += 1;
    }
    assert(program@.variables =~= expected);
}

fn resolve_type_in(program: &Program, data_type: &DataType, steps: usize) -> (r: DataType)
    ensures
        r == program@.resolved_type(*data_type, steps as nat),
    decreases steps, *data_type,
{
    match data_type {
        DataType::Dynamic(target) | DataType::LoadTemplateParameter(target) => {
            if steps > 0 && program.has_variable(*target) {
                let variable = program.borrow_variable(*target);
                if variable.is_permanent() {
                    if let KnownData::DataType(real_type) = variable.borrow_initial_value() {
                        return resolve_type_in(program, real_type, steps - 1);
                    }
                }
            }
            data_type.clone()
        },
        DataType::Array(len, base) => DataType::Array(
            *len,
            Box::new(resolve_type_in(program, base, steps)),
        ),
        _ => data_type.clone(),
    }
}

/// Resolves a type that defers to variables of the program. The chain is
/// followed for as many steps as the program has variables, which is
/// enough for every chain that does not run in a circle.
pub fn resolve_dynamic_data_type(program: &Program, data_type: &DataType) -> (r: DataType)
    ensures
        r == program@.resolved_type(*data_type, program@.variables.len()),
{
    resolve_type_in(program, data_type, program.variables.len())
}

/// Resolves the type of every variable that belongs to the scope `from`,
/// and the data type that it holds, if it holds one, in the order of the
/// scope's own variables.
#[verifier::loop_isolation(false)]
pub fn resolve_dynamic_data_types(program: &mut Program, from: ScopeId)
    requires
        old(program)@.wf(),
        old(program)@.has_scope(from),
    ensures
        final(program)@ == old(program)@.after_resolving(
            old(program)@.scope(from).own_ids(),
            old(program)@.scope(from).own_ids().len() as int,
        ),
        final(program)@.wf(),
        final(program)@.extends(old(program)@),
        final(program)@.scopes == old(program)@.scopes,
        final(program)@.variables.len() == old(program)@.variables.len(),
{
    let ghost ids = program@.scope(from).own_ids();
    let symbol_count: usize = program.borrow_scope(from).borrow_symbols().len();
    let intermediate_count: usize = program.borrow_scope(from).borrow_intermediates().len();
    let mut i: usize = 0;
    while i < symbol_count
        invariant
            i <= symbol_count,
            symbol_count == old(program)@.scope(from).symbols.len(),
            intermediate_count == old(program)@.scope(from).intermediates.len(),
            program@ == old(program)@.after_resolving(ids, i as int),
            program@.wf(),
            program@.extends(old(program)@),
            program@.scopes == old(program)@.scopes,
            program@.variables.len() == old(program)@.variables.len(),
        decreases symbol_count - i,
    {
        let id = program.borrow_scope(from).borrow_symbols()[i].id;
        assert(id == ids[i as int]);
        resolve_types_of(program, id);
        i += 1;
    }
    let mut j: usize = 0;
    while j < intermediate_count
        invariant
            j <= intermediate_count,
            symbol_count == old(program)@.scope(from).symbols.len(),
            intermediate_count == old(program)@.scope(from).intermediates.len(),
            program@ == old(program)@.after_resolving(ids, symbol_count + j),
            program@.wf(),
            program@.extends(old(program)@),
            program@.scopes == old(program)@.scopes,
            program@.variables.len() == old(program)@.variables.len(),
        decreases intermediate_count - j,
    {
        let id = program.borrow_scope(from).borrow_intermediates()[j];
        assert(id == ids[symbol_count + j]);
        resolve_types_of(program, id);
        j += 1;
    }
}

/// Resolves the type of one variable, and the data type that it holds, if it holds one.
fn resolve_types_of(program: &mut Program, id: VariableId)
    requires
        old(program)@.wf(),
        old(program)@.has_variable(id),
    ensures
        final(program)@ == old(program)@.with_resolved_types(id),
        final(program)@.wf(),
        final(program)@.extends(old(program)@),
        final(program)@.scopes == old(program)@.scopes,
        final(program)@.variables.len() == old(program)@.variables.len(),
{
    let resolved_type = resolve_dynamic_data_type(
        program,
        program.borrow_variable(id).borrow_data_type(),
    );
    let resolved_value = match program.borrow_variable(id).borrow_initial_value() {
        KnownData::DataType(held) => Some(resolve_dynamic_data_type(program, held)),
        _ => None,
    };
    program.set_data_type(id, resolved_type);
    match resolved_value {
        Some(held) => {
            program.set_initial_value(id, KnownData::DataType(held));
        },
        None => {},
    }
    assert(program@.variables =~= old(program)@.with_resolved_types(id).variables);
}

} // verus!
