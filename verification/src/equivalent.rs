//! Equivalence of types whose meaning depends on the values of variables.

use crate::data_type::DataType;
use crate::program::{Program, ProgramView};
use vstd::prelude::*;

verus! {

impl ProgramView {
    /// Whether two types are the same type in this program.
    ///
    /// Two types that defer to variables are equivalent when the program
    /// holds both variables, the value of the first is known, and the two
    /// values are the same. Two arrays are equivalent when their lengths
    /// are equal and their element types are equivalent. A type that
    /// defers is equivalent to no type that does not. All other types are
    /// equivalent when they are equal.
    pub open spec fn equivalent(self, a: DataType, b: DataType) -> bool
        decreases a,
    {
        match a {
            DataType::Dynamic(target) | DataType::LoadTemplateParameter(target) => match b {
                DataType::Dynamic(other) | DataType::LoadTemplateParameter(other) => {
                    &&& self.has_variable(target)
                    &&& self.has_variable(other)
                    &&& !(self.variable(target).temporary_value is Unknown)
                    &&& self.variable(target).temporary_value.same(
                        self.variable(other).temporary_value,
                    )
                },
                _ => false,
            },
            DataType::Array(len, base) => match b {
                DataType::Array(other_len, other_base) => len == other_len && self.equivalent(
                    *base,
                    *other_base,
                ),
                _ => false,
            },
            _ => a == b,
        }
    }
}

impl DataType {
    /// Whether this type and `other` are the same type in `program`.
    pub fn equivalent(&self, other: &DataType, program: &Program) -> (r: bool)
        ensures
            r == program@.equivalent(*self, *other),
        decreases *self,
    {
        match self {
            DataType::Dynamic(target) | DataType::LoadTemplateParameter(target) => match other {
                DataType::Dynamic(other_target) | DataType::LoadTemplateParameter(other_target) => {
                    if !program.has_variable(*target) || !program.has_variable(*other_target) {
                        return false;
                    }
                    let value = program.borrow_temporary_value(*target);
                    let other_value = program.borrow_temporary_value(*other_target);
                    if matches!(value, crate::known_data::KnownData::Unknown) {
                        false
                    } else {
                        value.equals(other_value)
                    }
                },
                _ => false,
            },
            DataType::Array(len, base) => match other {
                DataType::Array(other_len, other_base) => *len == *other_len && base.equivalent(
                    other_base,
                    program,
                ),
                _ => false,
            },
            _ => self.equals(other),
        }
    }
}

/// A type that defers to no variable is equivalent to itself in every program.
pub proof fn lemma_concrete_type_equivalent_to_itself(program: ProgramView, data_type: DataType)
    requires
        !(data_type.scalar() is Dynamic),
        !(data_type.scalar() is LoadTemplateParameter),
    ensures
        program.equivalent(data_type, data_type),
    decreases data_type,
{
    match data_type {
        DataType::Array(_, base) => {
            lemma_concrete_type_equivalent_to_itself(program, *base);
        },
        _ => {},
    }
}

} // verus!
