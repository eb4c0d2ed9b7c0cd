//! Variables of the program arena.

use crate::data_type::DataType;
use crate::known_data::{FunctionData, KnownData, Value};
use crate::position::FilePosition;
use vstd::prelude::*;

verus! {

/// A variable: where it was defined, its type, the value it starts with,
/// and the value it holds at the current point of a resolution pass.
///
/// A permanent variable is a constant of compile time: a literal, a data
/// type or a function.
#[derive(Debug)]
pub struct Variable {
    pub definition: FilePosition,
    pub data_type: DataType,
    pub initial_value: KnownData,
    pub permanent: bool,
    pub temporary_value: KnownData,
}

/// The mathematical content of a `Variable`.
pub struct VariableView {
    pub definition: FilePosition,
    pub data_type: DataType,
    pub initial_value: Value,
    pub permanent: bool,
    pub temporary_value: Value,
}

impl View for Variable {
    type V = VariableView;

    open spec fn view(&self) -> VariableView {
        VariableView {
            definition: self.definition,
            data_type: self.data_type,
            initial_value: self.initial_value@,
            permanent: self.permanent,
            temporary_value: self.temporary_value@,
        }
    }
}

impl VariableView {
    /// A variable that starts with `initial_value`, or with nothing known.
    pub open spec fn fresh(
        definition: FilePosition,
        data_type: DataType,
        initial_value: Option<Value>,
        permanent: bool,
    ) -> VariableView {
        let value = match initial_value {
            Some(value) => value,
            None => Value::Unknown,
        };
        VariableView { definition, data_type, initial_value: value, permanent, temporary_value: value }
    }
}

impl Clone for Variable {
    fn clone(&self) -> (r: Self)
        ensures
            r@ == self@,
    {
        Variable {
            definition: self.definition,
            data_type: self.data_type.clone(),
            initial_value: self.initial_value.clone(),
            permanent: self.permanent,
            temporary_value: self.temporary_value.clone(),
        }
    }
}

impl Variable {
    fn new_impl(
        definition: FilePosition,
        data_type: DataType,
        initial_value: Option<KnownData>,
        permanent: bool,
    ) -> (r: Variable)
        ensures
            r@ == VariableView::fresh(
                definition,
                data_type,
                match initial_value {
                    Some(value) => Some(value@),
                    None => None,
                },
                permanent,
            ),
    {
        let initial_value = match initial_value {
            Some(value) => value,
            None => KnownData::Unknown,
        };
        let temporary_value = initial_value.clone();
        Variable { definition, data_type, initial_value, permanent, temporary_value }
    }

    /// A variable that run-time code may change.
    pub fn variable(definition: FilePosition, data_type: DataType, initial_value: Option<KnownData>) -> (r:
        Variable)
        ensures
            r@ == VariableView::fresh(
                definition,
                data_type,
                match initial_value {
                    Some(value) => Some(value@),
                    None => None,
                },
                false,
            ),
    {
        Self::new_impl(definition, data_type, initial_value, false)
    }

    /// A permanent variable that holds `value`.
    pub fn constant(definition: FilePosition, data_type: DataType, value: KnownData) -> (r: Variable)
        ensures
            r@ == VariableView::fresh(definition, data_type, Some(value@), true),
    {
        Self::new_impl(definition, data_type, Some(value), true)
    }

    /// The permanent variable that names a function. It is defined where the function's header is.
    pub fn function_def(function_data: FunctionData) -> (r: Variable)
        ensures
            r@ == VariableView::fresh(
                function_data.header,
                DataType::Function_,
                Some(Value::Function(function_data)),
                true,
            ),
    {
        Self::constant(function_data.header, DataType::Function_, KnownData::Function(function_data))
    }

    /// The permanent variable that names a data type.
    pub fn data_type(definition: FilePosition, value: DataType) -> (r: Variable)
        ensures
            r@ == VariableView::fresh(
                definition,
                DataType::DataType_,
                Some(Value::DataType(value)),
                true,
            ),
    {
        Self::constant(definition, DataType::DataType_, KnownData::DataType(value))
    }

    /// A variable whose type its first assignment will fix.
    pub fn automatic(definition: FilePosition) -> (r: Variable)
        ensures
            r@ == VariableView::fresh(definition, DataType::Automatic, None, false),
    {
        Self::variable(definition, DataType::Automatic, None)
    }

    pub fn bool_literal(definition: FilePosition, value: bool) -> (r: Variable)
        ensures
            r@ == VariableView::fresh(definition, DataType::Bool, Some(Value::Bool(value)), true),
    {
        Self::constant(definition, DataType::Bool, KnownData::Bool(value))
    }

    pub fn int_literal(definition: FilePosition, value: i64) -> (r: Variable)
        ensures
            r@ == VariableView::fresh(definition, DataType::Int, Some(Value::Int(value)), true),
    {
        Self::constant(definition, DataType::Int, KnownData::Int(value))
    }

    /// The permanent variable that holds the float with the bits `bits`.
    pub fn float_literal(definition: FilePosition, bits: u64) -> (r: Variable)
        ensures
            r@ == VariableView::fresh(definition, DataType::Float, Some(Value::Float(bits)), true),
    {
        Self::constant(definition, DataType::Float, KnownData::Float(bits))
    }

    pub fn void(definition: FilePosition) -> (r: Variable)
        ensures
            r@ == VariableView::fresh(definition, DataType::Void, None, false),
    {
        Self::variable(definition, DataType::Void, None)
    }

    pub fn set_definition(&mut self, new_definition: FilePosition)
        ensures
            final(self)@ == (VariableView { definition: new_definition, ..old(self)@ }),
    {
        self.definition = new_definition;
    }

    pub fn get_definition(&self) -> (r: &FilePosition)
        ensures
            *r == self@.definition,
    {
        &self.definition
    }

    pub fn set_data_type(&mut self, data_type: DataType)
        ensures
            final(self)@ == (VariableView { data_type, ..old(self)@ }),
    {
        self.data_type = data_type;
    }

    pub fn borrow_data_type(&self) -> (r: &DataType)
        ensures
            *r == self@.data_type,
    {
        &self.data_type
    }

    pub fn set_initial_value(&mut self, value: KnownData)
        ensures
            final(self)@ == (VariableView { initial_value: value@, ..old(self)@ }),
    {
        self.initial_value = value;
    }

    pub fn borrow_initial_value(&self) -> (r: &KnownData)
        ensures
            r@ == self@.initial_value,
    {
        &self.initial_value
    }

    pub fn mark_as_permanent(&mut self)
        ensures
            final(self)@ == (VariableView { permanent: true, ..old(self)@ }),
    {
        self.permanent = true;
    }

    pub fn is_permanent(&self) -> (r: bool)
        ensures
            r == self@.permanent,
    {
        self.permanent
    }

    pub fn set_temporary_value(&mut self, value: KnownData)
        ensures
            final(self)@ == (VariableView { temporary_value: value@, ..old(self)@ }),
    {
        self.temporary_value = value;
    }

    pub fn borrow_temporary_value(&self) -> (r: &KnownData)
        ensures
            r@ == self@.temporary_value,
    {
        &self.temporary_value
    }

    /// Forgets what a pass has learned: the temporary value is the initial value again.
    pub fn reset_temporary_value(&mut self)
        ensures
            final(self)@ == (VariableView { temporary_value: old(self)@.initial_value, ..old(self)@ }),
    {
        self.temporary_value = self.initial_value.clone();
    }
}

} // verus!
