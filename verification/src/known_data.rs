//! Values that are known while the program is being resolved.

use crate::data_type::DataType;
use crate::ids::ScopeId;
use crate::position::FilePosition;
use vstd::prelude::*;

verus! {

/// The functions that the language provides itself.
#[derive(Clone, Copy, Debug, PartialEq, Eq, Structural)]
pub enum BuiltinFunction {
    Add,
    Subtract,
    Multiply,
    Divide,
    IntDiv,
    Modulo,
    Power,
    LessThanOrEqual,
    LessThan,
    GreaterThanOrEqual,
    GreaterThan,
    Equal,
    NotEqual,
    BAnd,
    BXor,
    BOr,
    And,
    Xor,
    Or,
    Copy,
}

/// A function value: the scope that holds its parameters and body, the
/// builtin it stands for, if any, and the position of its header.
#[derive(Clone, Copy, Debug)]
pub struct FunctionData {
    pub body: ScopeId,
    pub builtin: Option<BuiltinFunction>,
    pub header: FilePosition,
}

impl FunctionData {
    pub fn new(body: ScopeId, header: FilePosition) -> (r: FunctionData)
        ensures
            r == (FunctionData { body, builtin: None, header }),
    {
        FunctionData { body, builtin: None, header }
    }

    pub fn builtin(body: ScopeId, builtin: BuiltinFunction, header: FilePosition) -> (r:
        FunctionData)
        ensures
            r == (FunctionData { body, builtin: Some(builtin), header }),
    {
        FunctionData { body, builtin: Some(builtin), header }
    }

    pub fn set_header(&mut self, new_header: FilePosition)
        ensures
            *final(self) == (FunctionData { header: new_header, ..*old(self) }),
    {
        self.header = new_header;
    }

    pub fn get_header(&self) -> (r: &FilePosition)
        ensures
            *r == self.header,
    {
        &self.header
    }

    pub fn get_body(&self) -> (r: ScopeId)
        ensures
            r == self.body,
    {
        self.body
    }

    pub fn is_builtin(&self) -> (r: bool)
        ensures
            r == self.builtin.is_some(),
    {
        self.builtin.is_some()
    }

    pub fn get_builtin(&self) -> (r: &Option<BuiltinFunction>)
        ensures
            *r == self.builtin,
    {
        &self.builtin
    }

    /// Two function values are the same function when they share a body.
    pub open spec fn same_function(self, other: FunctionData) -> bool {
        self.body == other.body
    }

    pub fn is_same_function(&self, other: &FunctionData) -> (r: bool)
        ensures
            r == self.same_function(*other),
    {
        self.body.0 == other.body.0
    }
}

/// A macro: a function value that remembers the table that was in force
/// where it was defined.
#[derive(Debug)]
pub struct MacroData {
    body: ScopeId,
    header: FilePosition,
    context: crate::table::ResolverTable,
}

/// The mathematical content of a `MacroData`.
pub struct MacroView {
    pub body: ScopeId,
    pub header: FilePosition,
    pub context: crate::table::TableView,
}

impl View for MacroData {
    type V = MacroView;

    closed spec fn view(&self) -> MacroView {
        MacroView { body: self.body, header: self.header, context: self.context@ }
    }
}

impl MacroView {
    /// Two macro values are the same macro when they share a body.
    pub open spec fn same_macro(self, other: MacroView) -> bool {
        self.body == other.body
    }
}

impl MacroData {
    /// The macro with the body `body`, defined under an empty table.
    pub fn new(body: ScopeId, header: FilePosition) -> (r: MacroData)
        ensures
            r@ == (MacroView {
                body,
                header,
                context: crate::table::TableView {
                    current: crate::table::FrameView::empty(),
                    stack: Seq::empty(),
                },
            }),
    {
        MacroData { body, header, context: crate::table::ResolverTable::new() }
    }

    pub fn set_header(&mut self, new_header: FilePosition)
        ensures
            final(self)@ == (MacroView { header: new_header, ..old(self)@ }),
    {
        self.header = new_header;
    }

    pub fn get_header(&self) -> (r: &FilePosition)
        ensures
            *r == self@.header,
    {
        &self.header
    }

    pub fn get_body(&self) -> (r: ScopeId)
        ensures
            r == self@.body,
    {
        self.body
    }

    /// Makes the macro remember the table `context`.
    pub fn set_context(&mut self, context: crate::table::ResolverTable)
        ensures
            final(self)@ == (MacroView { context: context@, ..old(self)@ }),
    {
        self.context = context;
    }

    /// The table that was in force where the macro was defined.
    pub fn borrow_context(&self) -> (r: &crate::table::ResolverTable)
        ensures
            r@ == self@.context,
    {
        &self.context
    }

    pub fn is_same_macro(&self, other: &MacroData) -> (r: bool)
        ensures
            r == self@.same_macro(other@),
    {
        self.body.0 == other.body.0
    }
}

/// What is known of a value at compile time.
///
/// `Unknown` is the bottom of the lattice: no value is available yet. A
/// float is held by the bits of its IEEE 754 double.
#[derive(Debug)]
pub enum KnownData {
    Void,
    Unknown,
    Bool(bool),
    Int(i64),
    Float(u64),
    DataType(DataType),
    Function(FunctionData),
    Array(Vec<KnownData>),
}

/// The mathematical content of a `KnownData`.
pub enum Value {
    Void,
    Unknown,
    Bool(bool),
    Int(i64),
    Float(u64),
    DataType(DataType),
    Function(FunctionData),
    Array(Seq<Value>),
}

/// The content of the item at `i`, for the view of an array.
pub open spec fn item_view(items: Seq<KnownData>, i: int) -> Value
    decreases items, 0int,
{
    if 0 <= i < items.len() {
        items[i]@
    } else {
        Value::Unknown
    }
}

/// The contents of a list of values, item by item.
pub open spec fn items_view(items: Seq<KnownData>) -> Seq<Value>
    decreases items, 1int,
{
    Seq::new(items.len(), |i: int| item_view(items, i))
}

impl View for KnownData {
    type V = Value;

    open spec fn view(&self) -> Value
        decreases self,
    {
        match self {
            KnownData::Void => Value::Void,
            KnownData::Unknown => Value::Unknown,
            KnownData::Bool(value) => Value::Bool(*value),
            KnownData::Int(value) => Value::Int(*value),
            KnownData::Float(bits) => Value::Float(*bits),
            KnownData::DataType(value) => Value::DataType(*value),
            KnownData::Function(value) => Value::Function(*value),
            KnownData::Array(items) => Value::Array(items_view(items@)),
        }
    }
}

impl Value {
    /// The array of the given dimensions, outermost first, whose every leaf is `element`.
    pub open spec fn filled(dims: Seq<usize>, element: Value) -> Value
        decreases dims.len(),
    {
        if dims.len() == 0 {
            element
        } else {
            let inner = Value::filled(dims.subrange(1, dims.len() as int), element);
            Value::Array(Seq::new(dims[0] as nat, |i: int| inner))
        }
    }

    /// The data type of the value. An array takes its element type from its
    /// first item. `Unknown` and an empty array have no type.
    pub open spec fn data_type(self) -> Option<DataType>
        decreases self,
    {
        match self {
            Value::Void => Some(DataType::Void),
            Value::Unknown => None,
            Value::Bool(_) => Some(DataType::Bool),
            Value::Int(_) => Some(DataType::Int),
            Value::Float(_) => Some(DataType::Float),
            Value::DataType(_) => Some(DataType::DataType_),
            Value::Function(_) => Some(DataType::Function_),
            Value::Array(items) => if items.len() == 0 || items.len() > usize::MAX {
                None
            } else {
                match items[0].data_type() {
                    Some(base) => Some(DataType::Array(items.len() as usize, Box::new(base))),
                    None => None,
                }
            },
        }
    }

    /// Whether the value is an instance of the type: scalars by their kind,
    /// an array by its length and by each of its items.
    pub open spec fn matches(self, data_type: DataType) -> bool
        decreases self,
    {
        match self {
            Value::Void => data_type is Void,
            Value::Unknown => false,
            Value::Bool(_) => data_type is Bool,
            Value::Int(_) => data_type is Int,
            Value::Float(_) => data_type is Float,
            Value::DataType(_) => data_type is DataType_,
            Value::Function(_) => data_type is Function_,
            Value::Array(items) => match data_type {
                DataType::Array(len, base) => {
                    &&& items.len() == len
                    &&& forall|i: int| 0 <= i < items.len() ==> (#[trigger] items[i]).matches(*base)
                },
                _ => false,
            },
        }
    }

    /// The item reached by following `indexes` into nested arrays, or `None`
    /// where an index is out of bounds or meets a value that is no array.
    pub open spec fn at(self, indexes: Seq<usize>) -> Option<Value>
        decreases indexes.len(),
    {
        if indexes.len() == 0 {
            Some(self)
        } else {
            match self {
                Value::Array(items) => if indexes[0] < items.len() {
                    items[indexes[0] as int].at(indexes.subrange(1, indexes.len() as int))
                } else {
                    None
                },
                _ => None,
            }
        }
    }

    /// Equality of values. Functions are equal when they share a body;
    /// everything else is equal when it is the same.
    pub open spec fn same(self, other: Value) -> bool
        decreases self,
    {
        match (self, other) {
            (Value::Function(a), Value::Function(b)) => a.same_function(b),
            (Value::Array(a), Value::Array(b)) => {
                &&& a.len() == b.len()
                &&& forall|i: int| 0 <= i < a.len() ==> (#[trigger] a[i]).same(b[i])
            },
            _ => self == other,
        }
    }

    /// Whether the whole value is known: it is not `Unknown` and holds no `Unknown`.
    pub open spec fn complete(self) -> bool
        decreases self,
    {
        match self {
            Value::Unknown => false,
            Value::Array(items) => forall|i: int|
                0 <= i < items.len() ==> (#[trigger] items[i]).complete(),
            _ => true,
        }
    }

    /// Whether the value is a concrete one: wholly known, and of a data type.
    pub open spec fn concrete(self) -> bool {
        self.complete() && self.data_type() is Some
    }

    /// Whether the value can stand in the residual program: booleans,
    /// integers, floats and arrays of such.
    pub open spec fn run_time(self) -> bool
        decreases self,
    {
        match self {
            Value::Bool(_) | Value::Int(_) | Value::Float(_) => true,
            Value::Array(items) => forall|i: int|
                0 <= i < items.len() ==> (#[trigger] items[i]).run_time(),
            _ => false,
        }
    }
}

/// The view of an array is the views of its items.
pub proof fn lemma_array_view(data: KnownData)
    requires
        data is Array,
    ensures
        data@ is Array,
        data@->Array_0.len() == data->Array_0@.len(),
        forall|i: int|
            0 <= i < data->Array_0@.len() ==> data@->Array_0[i] == (#[trigger] data->Array_0@[i])@,
{
}

impl Clone for KnownData {
    fn clone(&self) -> (r: Self)
        ensures
            r@ == self@,
        decreases *self,
    {
        match self {
            KnownData::Void => KnownData::Void,
            KnownData::Unknown => KnownData::Unknown,
            KnownData::Bool(value) => KnownData::Bool(*value),
            KnownData::Int(value) => KnownData::Int(*value),
            KnownData::Float(bits) => KnownData::Float(*bits),
            KnownData::DataType(value) => KnownData::DataType(value.clone()),
            KnownData::Function(value) => KnownData::Function(*value),
            KnownData::Array(items) => {
                let mut copies: Vec<KnownData> = Vec::new();
                let mut i: usize = 0;
                while i < items.len()
                    invariant
                        *self is Array,
                        self->Array_0 == *items,
                        i <= items.len(),
                        copies@.len() == i,
                        forall|j: int| 0 <= j < i ==> copies@[j]@ == items@[j]@,
                    decreases items.len() - i,
                {
                    let copy = (&items[i]).clone();
                    copies.push(copy);
                    i += 1;
                }
                let r = KnownData::Array(copies);
                assert(r@->Array_0 =~= self@->Array_0);
                r
            },
        }
    }
}

impl KnownData {
    /// The array of the given dimensions, outermost first, with `element` at every leaf.
    pub fn build_array(dimensions: &[usize], element: &KnownData) -> (r: KnownData)
        ensures
            r@ == Value::filled(dimensions@, element@),
    {
        assert(dimensions@.subrange(0, dimensions@.len() as int) =~= dimensions@);
        Self::build_array_from(dimensions, 0, element)
    }

    fn build_array_from(dimensions: &[usize], first: usize, element: &KnownData) -> (r: KnownData)
        requires
            first <= dimensions@.len(),
        ensures
            r@ == Value::filled(dimensions@.subrange(first as int, dimensions@.len() as int), element@),
        decreases dimensions@.len() - first,
    {
        let ghost rest = dimensions@.subrange(first as int, dimensions@.len() as int);
        if first == dimensions.len() {
            element.clone()
        } else {
            let inner = Self::build_array_from(dimensions, first + 1, element);
            assert(rest.subrange(1, rest.len() as int) =~= dimensions@.subrange(
                first + 1,
                dimensions@.len() as int,
            ));
            let count: usize = dimensions[first];
            let mut items: Vec<KnownData> = Vec::new();
            let mut i: usize = 0;
            while i < count
                invariant
                    i <= count,
                    items@.len() == i,
                    forall|j: int| 0 <= j < i ==> items@[j]@ == inner@,
                decreases count - i,
            {
                items.push(inner.clone());
                i += 1;
            }
            let r = KnownData::Array(items);
            assert(r@->Array_0 =~= Seq::new(count as nat, |i: int| inner@));
            r
        }
    }

    /// An array of `size` items of which nothing is known yet.
    pub fn new_array(size: usize) -> (r: KnownData)
        ensures
            r@ == Value::Array(Seq::new(size as nat, |i: int| Value::Unknown)),
    {
        let mut items: Vec<KnownData> = Vec::new();
        let mut i: usize = 0;
        while i < size
            invariant
                i <= size,
                items@.len() == i,
                forall|j: int| 0 <= j < i ==> items@[j]@ == Value::Unknown,
            decreases size - i,
        {
            items.push(KnownData::Unknown);
            i += 1;
        }
        let r = KnownData::Array(items);
        assert(r@->Array_0 =~= Seq::new(size as nat, |i: int| Value::Unknown));
        r
    }

    /// The array that holds `items`, in their order.
    pub fn collect(items: Vec<KnownData>) -> (r: KnownData)
        ensures
            r@ == Value::Array(items_view(items@)),
    {
        KnownData::Array(items)
    }

    /// The data type of the value, where it has one.
    pub fn get_data_type(&self) -> (r: Option<DataType>)
        ensures
            r == self@.data_type(),
        decreases *self,
    {
        match self {
            KnownData::Void => Some(DataType::Void),
            KnownData::Unknown => None,
            KnownData::Bool(_) => Some(DataType::Bool),
            KnownData::Int(_) => Some(DataType::Int),
            KnownData::Float(_) => Some(DataType::Float),
            KnownData::DataType(_) => Some(DataType::DataType_),
            KnownData::Function(_) => Some(DataType::Function_),
            KnownData::Array(items) => {
                if items.len() == 0 {
                    None
                } else {
                    match (&items[0]).get_data_type() {
                        Some(base) => Some(DataType::Array(items.len(), Box::new(base))),
                        None => None,
                    }
                }
            },
        }
    }

    /// Follows `indexes` into nested arrays.
    pub fn index(&self, indexes: &[usize]) -> (r: Option<&KnownData>)
        ensures
            r.is_some() == self@.at(indexes@).is_some(),
            r.is_some() ==> r.unwrap()@ == self@.at(indexes@).unwrap(),
    {
        assert(indexes@.subrange(0, indexes@.len() as int) =~= indexes@);
        self.index_from(indexes, 0)
    }

    fn index_from(&self, indexes: &[usize], first: usize) -> (r: Option<&KnownData>)
        requires
            first <= indexes@.len(),
        ensures
            r.is_some() == self@.at(indexes@.subrange(first as int, indexes@.len() as int)).is_some(),
            r.is_some() ==> r.unwrap()@ == self@.at(
                indexes@.subrange(first as int, indexes@.len() as int),
            ).unwrap(),
        decreases indexes@.len() - first,
    {
        let ghost rest = indexes@.subrange(first as int, indexes@.len() as int);
        if first == indexes.len() {
            Some(self)
        } else {
            assert(rest.subrange(1, rest.len() as int) =~= indexes@.subrange(
                first + 1,
                indexes@.len() as int,
            ));
            match self {
                KnownData::Array(items) => {
                    let position: usize = indexes[first];
                    if position < items.len() {
                        (&items[position]).index_from(indexes, first + 1)
                    } else {
                        None
                    }
                },
                _ => None,
            }
        }
    }

    pub fn require_bool(&self) -> (r: bool)
        requires
            *self is Bool,
        ensures
            self@ == Value::Bool(r),
    {
        match self {
            KnownData::Bool(value) => *value,
            _ => vstd::pervasive::unreached(),
        }
    }

    pub fn require_int(&self) -> (r: i64)
        requires
            *self is Int,
        ensures
            self@ == Value::Int(r),
    {
        match self {
            KnownData::Int(value) => *value,
            _ => vstd::pervasive::unreached(),
        }
    }

    /// The bits of the float that the value holds.
    pub fn require_float(&self) -> (r: u64)
        requires
            *self is Float,
        ensures
            self@ == Value::Float(r),
    {
        match self {
            KnownData::Float(bits) => *bits,
            _ => vstd::pervasive::unreached(),
        }
    }

    pub fn require_data_type(&self) -> (r: &DataType)
        requires
            *self is DataType,
        ensures
            self@ == Value::DataType(*r),
    {
        match self {
            KnownData::DataType(value) => value,
            _ => vstd::pervasive::unreached(),
        }
    }

    pub fn require_function(&self) -> (r: &FunctionData)
        requires
            *self is Function,
        ensures
            self@ == Value::Function(*r),
    {
        match self {
            KnownData::Function(value) => value,
            _ => vstd::pervasive::unreached(),
        }
    }

    pub fn require_array(&self) -> (r: &Vec<KnownData>)
        requires
            *self is Array,
        ensures
            self@ == Value::Array(items_view(r@)),
            *r == self->Array_0,
    {
        match self {
            KnownData::Array(items) => items,
            _ => vstd::pervasive::unreached(),
        }
    }

    /// Whether the value is an instance of `data_type`.
    pub fn matches_data_type(&self, data_type: &DataType) -> (r: bool)
        ensures
            r == self@.matches(*data_type),
        decreases *self,
    {
        match self {
            KnownData::Void => matches!(data_type, DataType::Void),
            KnownData::Unknown => false,
            KnownData::Bool(_) => matches!(data_type, DataType::Bool),
            KnownData::Int(_) => matches!(data_type, DataType::Int),
            KnownData::Float(_) => matches!(data_type, DataType::Float),
            KnownData::DataType(_) => matches!(data_type, DataType::DataType_),
            KnownData::Function(_) => matches!(data_type, DataType::Function_),
            KnownData::Array(items) => match data_type {
                DataType::Array(len, base) => {
                    if items.len() != *len {
                        return false;
                    }
                    let mut i: usize = 0;
                    while i < items.len()
                        invariant
                            *self is Array,
                            self->Array_0 == *items,
                            *data_type is Array,
                            data_type->Array_0 == items.len(),
                            data_type->Array_1 == *base,
                            i <= items.len(),
                            forall|j: int| 0 <= j < i ==> (#[trigger] self@->Array_0[j]).matches(**base),
                        decreases items.len() - i,
                    {
                        if !(&items[i]).matches_data_type(base) {
                            assert(self@->Array_0[i as int] == items@[i as int]@);
                            return false;
                        }
                        assert(self@->Array_0[i as int] == items@[i as int]@);
                        i += 1;
                    }
                    true
                },
                _ => false,
            },
        }
    }

    /// Equality of values, with functions compared by their bodies.
    pub fn equals(&self, other: &KnownData) -> (r: bool)
        ensures
            r == self@.same(other@),
        decreases *self,
    {
        match (self, other) {
            (KnownData::Void, KnownData::Void) => true,
            (KnownData::Unknown, KnownData::Unknown) => true,
            (KnownData::Bool(a), KnownData::Bool(b)) => *a == *b,
            (KnownData::Int(a), KnownData::Int(b)) => *a == *b,
            (KnownData::Float(a), KnownData::Float(b)) => *a == *b,
            (KnownData::DataType(a), KnownData::DataType(b)) => a.equals(b),
            (KnownData::Function(a), KnownData::Function(b)) => a.is_same_function(b),
            (KnownData::Array(a), KnownData::Array(b)) => {
                if a.len() != b.len() {
                    return false;
                }
                let mut i: usize = 0;
                while i < a.len()
                    invariant
                        *self is Array,
                        self->Array_0 == *a,
                        *other is Array,
                        other->Array_0 == *b,
                        a.len() == b.len(),
                        i <= a.len(),
                        forall|j: int|
                            0 <= j < i ==> (#[trigger] self@->Array_0[j]).same(other@->Array_0[j]),
                    decreases a.len() - i,
                {
                    assert(self@->Array_0[i as int] == a@[i as int]@);
                    assert(other@->Array_0[i as int] == b@[i as int]@);
                    if !(&a[i]).equals(&b[i]) {
                        return false;
                    }
                    i += 1;
                }
                true
            },
            _ => false,
        }
    }

    /// Whether the whole value is known.
    pub fn is_complete(&self) -> (r: bool)
        ensures
            r == self@.complete(),
        decreases *self,
    {
        match self {
            KnownData::Unknown => false,
            KnownData::Array(items) => {
                let mut i: usize = 0;
                while i < items.len()
                    invariant
                        *self is Array,
                        self->Array_0 == *items,
                        i <= items.len(),
                        forall|j: int| 0 <= j < i ==> (#[trigger] self@->Array_0[j]).complete(),
                    decreases items.len() - i,
                {
                    assert(self@->Array_0[i as int] == items@[i as int]@);
                    if !(&items[i]).is_complete() {
                        return false;
                    }
                    i += 1;
                }
                true
            },
            _ => true,
        }
    }

    /// Whether the value can stand in the residual program.
    pub fn is_run_time_compatible(&self) -> (r: bool)
        ensures
            r == self@.run_time(),
        decreases *self,
    {
        match self {
            KnownData::Bool(_) | KnownData::Int(_) | KnownData::Float(_) => true,
            KnownData::Array(items) => {
                let mut i: usize = 0;
                while i < items.len()
                    invariant
                        *self is Array,
                        self->Array_0 == *items,
                        i <= items.len(),
                        forall|j: int| 0 <= j < i ==> (#[trigger] self@->Array_0[j]).run_time(),
                    decreases items.len() - i,
                {
                    assert(self@->Array_0[i as int] == items@[i as int]@);
                    if !(&items[i]).is_run_time_compatible() {
                        return false;
                    }
                    i += 1;
                }
                true
            },
            _ => false,
        }
    }
}

} // verus!
