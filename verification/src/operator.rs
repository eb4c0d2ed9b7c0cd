//! Binary operators.

use vstd::prelude::*;

verus! {

/// The operators that combine two operands.
#[derive(Clone, Copy, Debug, PartialEq, Eq, Structural)]
pub enum BinaryOperator {
    Add,
    Subtract,
    Multiply,
    Divide,
    Modulo,
    Power,
    And,
    Or,
    Xor,
    BAnd,
    BOr,
    BXor,
    Equal,
    NotEqual,
    LessThan,
    GreaterThan,
    LessThanOrEqual,
    GreaterThanOrEqual,
}

impl BinaryOperator {
    /// `+ - * / % **`: two numbers to a number.
    pub open spec fn is_arithmetic(self) -> bool {
        self is Add || self is Subtract || self is Multiply || self is Divide || self is Modulo
            || self is Power
    }

    /// `and or xor`: two booleans to a boolean.
    pub open spec fn is_logical(self) -> bool {
        self is And || self is Or || self is Xor
    }

    /// `band bor bxor`: two integers to an integer.
    pub open spec fn is_bitwise(self) -> bool {
        self is BAnd || self is BOr || self is BXor
    }

    /// `== !=`: two values of one kind to a boolean.
    pub open spec fn is_equality(self) -> bool {
        self is Equal || self is NotEqual
    }

    /// `< > <= >=`: two numbers to a boolean.
    pub open spec fn is_relational(self) -> bool {
        self is LessThan || self is GreaterThan || self is LessThanOrEqual
            || self is GreaterThanOrEqual
    }

    /// Whether the operator yields a boolean whatever its operands are.
    pub open spec fn yields_bool(self) -> bool {
        self.is_equality() || self.is_relational()
    }

    pub fn is_comparison(&self) -> (r: bool)
        ensures
            r == self.yields_bool(),
    {
        match self {
            BinaryOperator::Equal
            | BinaryOperator::NotEqual
            | BinaryOperator::LessThan
            | BinaryOperator::GreaterThan
            | BinaryOperator::LessThanOrEqual
            | BinaryOperator::GreaterThanOrEqual => true,
            _ => false,
        }
    }
}

} // verus!
