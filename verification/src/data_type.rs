//! Data types and the biggest common type rule.

use crate::ids::VariableId;
use vstd::prelude::*;

verus! {

/// The type of a variable or of an expression.
///
/// `Automatic` stands for a type that the first assignment will fix. `Dynamic`
/// and `LoadTemplateParameter` defer to the data type stored in another
/// variable, which is how generic functions name their type parameters. An
/// array has a length and an element type, which may again be an array.
#[derive(Debug, PartialEq, Eq)]
pub enum DataType {
    Automatic,
    Dynamic(VariableId),
    LoadTemplateParameter(VariableId),
    Bool,
    Int,
    Float,
    Void,
    DataType_,
    Function_,
    Array(usize, Box<DataType>),
}

impl Clone for DataType {
    fn clone(&self) -> (r: Self)
        ensures
            r == *self,
        decreases *self,
    {
        match self {
            DataType::Automatic => DataType::Automatic,
            DataType::Dynamic(id) => DataType::Dynamic(*id),
            DataType::LoadTemplateParameter(id) => DataType::LoadTemplateParameter(*id),
            DataType::Bool => DataType::Bool,
            DataType::Int => DataType::Int,
            DataType::Float => DataType::Float,
            DataType::Void => DataType::Void,
            DataType::DataType_ => DataType::DataType_,
            DataType::Function_ => DataType::Function_,
            DataType::Array(len, base) => DataType::Array(*len, Box::new((&**base).clone())),
        }
    }
}

impl DataType {
    pub fn is_automatic(&self) -> (r: bool)
        ensures
            r == (*self is Automatic),
    {
        match self {
            DataType::Automatic => true,
            _ => false,
        }
    }

    /// Whether the type is an array.
    pub fn is_array(&self) -> (r: bool)
        ensures
            r == (*self is Array),
    {
        match self {
            DataType::Array(..) => true,
            _ => false,
        }
    }

    /// Structural equality: the same variant with equal ids, lengths and element types.
    pub fn equals(&self, other: &DataType) -> (r: bool)
        ensures
            r == (*self == *other),
        decreases *self,
    {
        match (self, other) {
            (DataType::Automatic, DataType::Automatic) => true,
            (DataType::Dynamic(a), DataType::Dynamic(b)) => a.0 == b.0,
            (DataType::LoadTemplateParameter(a), DataType::LoadTemplateParameter(b)) => a.0 == b.0,
            (DataType::Bool, DataType::Bool) => true,
            (DataType::Int, DataType::Int) => true,
            (DataType::Float, DataType::Float) => true,
            (DataType::Void, DataType::Void) => true,
            (DataType::DataType_, DataType::DataType_) => true,
            (DataType::Function_, DataType::Function_) => true,
            (DataType::Array(alen, abase), DataType::Array(blen, bbase)) => {
                *alen == *blen && abase.equals(bbase)
            },
            _ => false,
        }
    }

    /// The number of array layers around the scalar at the core of the type.
    pub open spec fn rank(self) -> nat
        decreases self,
    {
        match self {
            DataType::Array(_, base) => 1 + base.rank(),
            _ => 0,
        }
    }

    /// The type left after `layers` array layers are taken off; a type with
    /// fewer layers gives its scalar core.
    pub open spec fn unwrapped(self, layers: nat) -> DataType
        decreases layers,
    {
        if layers == 0 {
            self
        } else {
            match self {
                DataType::Array(_, base) => base.unwrapped((layers - 1) as nat),
                _ => self,
            }
        }
    }

    /// The scalar at the core of the type.
    pub open spec fn scalar(self) -> DataType
        decreases self,
    {
        match self {
            DataType::Array(_, base) => base.scalar(),
            _ => self,
        }
    }

    /// The type with the same array layers around another scalar.
    pub open spec fn with_scalar(self, scalar: DataType) -> DataType
        decreases self,
    {
        match self {
            DataType::Array(len, base) => DataType::Array(len, Box::new(base.with_scalar(scalar))),
            _ => scalar,
        }
    }

    /// Whether the type can be the type of a run-time value: booleans,
    /// integers, floats and arrays of such.
    pub open spec fn run_time(self) -> bool {
        self.scalar() is Bool || self.scalar() is Int || self.scalar() is Float
    }

    /// Whether the type is concrete: it neither is to be inferred nor
    /// defers to a variable, and if it is an array, neither do its items.
    pub open spec fn concrete(self) -> bool {
        !(self.scalar() is Automatic || self.scalar() is Dynamic
            || self.scalar() is LoadTemplateParameter)
    }

    /// Whether the type is concrete.
    pub fn is_concrete(&self) -> (r: bool)
        ensures
            r == self.concrete(),
    {
        !matches!(
            self.borrow_scalar(),
            DataType::Automatic | DataType::Dynamic(_) | DataType::LoadTemplateParameter(_)
        )
    }

    /// The scalar at the core of the type.
    pub fn borrow_scalar(&self) -> (r: &DataType)
        ensures
            *r == self.scalar(),
        decreases *self,
    {
        match self {
            DataType::Array(_, base) => base.borrow_scalar(),
            _ => self,
        }
    }

    /// The type with the same array layers around `scalar`.
    pub fn clone_with_scalar(&self, scalar: &DataType) -> (r: DataType)
        ensures
            r == self.with_scalar(*scalar),
        decreases *self,
    {
        match self {
            DataType::Array(len, base) => DataType::Array(
                *len,
                Box::new(base.clone_with_scalar(scalar)),
            ),
            _ => scalar.clone(),
        }
    }

    /// Whether values of the type can exist at run time.
    pub fn is_run_time_compatible(&self) -> (r: bool)
        ensures
            r == self.run_time(),
    {
        match self.borrow_scalar() {
            DataType::Bool | DataType::Int | DataType::Float => true,
            _ => false,
        }
    }

    /// Takes `layers` array layers off the type.
    pub fn clone_and_unwrap(&self, layers: usize) -> (r: DataType)
        ensures
            r == self.unwrapped(layers as nat),
        decreases layers,
    {
        if layers == 0 {
            self.clone()
        } else {
            match self {
                DataType::Array(_, base) => base.clone_and_unwrap(layers - 1),
                _ => self.clone(),
            }
        }
    }
}

/// The biggest common type of `a` and `b`: the smallest type that both widen
/// to, or `None` where they have none.
///
/// An automatic side yields to the other. Equal types stay. Two arrays need
/// equal lengths, or one length of 1 that is broadcast to the other. A
/// scalar beside an array is broadcast over the array. In each array case the
/// element types are unified in turn.
pub open spec fn spec_biggest_type(a: DataType, b: DataType) -> Option<DataType>
    decreases a, b,
{
    if a is Automatic {
        Some(b)
    } else if b is Automatic {
        Some(a)
    } else if a == b {
        Some(a)
    } else {
        match (a, b) {
            (DataType::Array(alen, abase), DataType::Array(blen, bbase)) => {
                if alen == blen || alen == 1 || blen == 1 {
                    match spec_biggest_type(*abase, *bbase) {
                        Some(base) => Some(
                            DataType::Array(if alen == 1 { blen } else { alen }, Box::new(base)),
                        ),
                        None => None,
                    }
                } else {
                    None
                }
            },
            (DataType::Array(alen, abase), _) => match spec_biggest_type(*abase, b) {
                Some(base) => Some(DataType::Array(alen, Box::new(base))),
                None => None,
            },
            (_, DataType::Array(blen, bbase)) => match spec_biggest_type(a, *bbase) {
                Some(base) => Some(DataType::Array(blen, Box::new(base))),
                None => None,
            },
            _ => None,
        }
    }
}

/// Computes the biggest common type of two types.
pub fn biggest_type(a: &DataType, b: &DataType) -> (r: Option<DataType>)
    ensures
        r == spec_biggest_type(*a, *b),
    decreases *a, *b,
{
    if a.is_automatic() {
        Some(b.clone())
    } else if b.is_automatic() {
        Some(a.clone())
    } else if a.equals(b) {
        Some(a.clone())
    } else {
        match (a, b) {
            (DataType::Array(alen, abase), DataType::Array(blen, bbase)) => {
                if *alen == *blen || *alen == 1 || *blen == 1 {
                    match biggest_type(abase, bbase) {
                        Some(base) => {
                            let len: usize = if *alen == 1 { *blen } else { *alen };
                            Some(DataType::Array(len, Box::new(base)))
                        },
                        None => None,
                    }
                } else {
                    None
                }
            },
            (DataType::Array(alen, abase), _) => match biggest_type(abase, b) {
                Some(base) => Some(DataType::Array(*alen, Box::new(base))),
                None => None,
            },
            (_, DataType::Array(blen, bbase)) => match biggest_type(a, bbase) {
                Some(base) => Some(DataType::Array(*blen, Box::new(base))),
                None => None,
            },
            _ => None,
        }
    }
}

/// An automatic type yields to whatever stands on the other side.
pub proof fn lemma_biggest_type_automatic(t: DataType)
    ensures
        spec_biggest_type(DataType::Automatic, t) == Some(t),
        spec_biggest_type(t, DataType::Automatic) == Some(t),
{
}

/// Every type is its own biggest common type.
pub proof fn lemma_biggest_type_idempotent(t: DataType)
    ensures
        spec_biggest_type(t, t) == Some(t),
{
}

/// Unification does not depend on the order of its arguments.
pub proof fn lemma_biggest_type_commutative(a: DataType, b: DataType)
    ensures
        spec_biggest_type(a, b) == spec_biggest_type(b, a),
    decreases a, b,
{
    if a is Automatic || b is Automatic || a == b {
    } else {
        match (a, b) {
            (DataType::Array(alen, abase), DataType::Array(blen, bbase)) => {
                lemma_biggest_type_commutative(*abase, *bbase);
            },
            (DataType::Array(alen, abase), _) => {
                lemma_biggest_type_commutative(*abase, b);
            },
            (_, DataType::Array(blen, bbase)) => {
                lemma_biggest_type_commutative(a, *bbase);
            },
            _ => {},
        }
    }
}

} // verus!
