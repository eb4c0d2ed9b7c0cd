//! The flat form of a program: typed variables, and instructions on
//! values in their order, with labels and jumps between them.

use vstd::prelude::*;

verus! {

/// The place of a variable in a flat program.
#[derive(Clone, Copy, Debug, PartialEq, Eq, Structural)]
pub struct VariableId(pub usize);

/// The name of a place among the instructions.
#[derive(Clone, Copy, Debug, PartialEq, Eq, Structural)]
pub struct LabelId(pub usize);

/// The type of a run-time value.
#[derive(Debug, PartialEq, Eq)]
pub enum DataType {
    B1,
    I32,
    F32,
    Array(usize, Box<DataType>),
}

impl Clone for DataType {
    fn clone(&self) -> (r: Self)
        ensures
            r == *self,
        decreases *self,
    {
        match self {
            DataType::B1 => DataType::B1,
            DataType::I32 => DataType::I32,
            DataType::F32 => DataType::F32,
            DataType::Array(len, base) => DataType::Array(*len, Box::new((**base).clone())),
        }
    }
}

impl DataType {
    /// The number of bytes that a value of the type takes: one for a
    /// boolean, four for an integer or a float, and for an array as many
    /// as all of its items take together.
    pub open spec fn physical_size(self) -> nat
        decreases self,
    {
        match self {
            DataType::B1 => 1,
            DataType::I32 => 4,
            DataType::F32 => 4,
            DataType::Array(len, base) => (len * base.physical_size()) as nat,
        }
    }

    /// The number of bytes that a value of the type takes, if the number fits.
    pub fn get_physical_size(&self) -> (r: Option<usize>)
        ensures
            r is Some == (self.physical_size() <= usize::MAX),
            r is Some ==> r.unwrap() == self.physical_size(),
        decreases *self,
    {
        match self {
            DataType::B1 => Some(1),
            DataType::I32 => Some(4),
            DataType::F32 => Some(4),
            DataType::Array(len, base) => {
                if *len == 0 {
                    assert(0 * base.physical_size() == 0) by (nonlinear_arith);
                    return Some(0);
                }
                match base.get_physical_size() {
                    Some(item) => {
                        let total = len.checked_mul(item);
                        total
                    },
                    None => {
                        assert(*len * base.physical_size() >= base.physical_size())
                            by (nonlinear_arith)
                            requires
                                *len >= 1,
                        ;
                        None
                    },
                }
            },
        }
    }
}

/// A variable of a flat program: a place for a value of its type.
#[derive(Debug, PartialEq, Eq)]
pub struct Variable {
    pub typ: DataType,
}

impl Clone for Variable {
    fn clone(&self) -> (r: Self)
        ensures
            r == *self,
    {
        Variable { typ: self.typ.clone() }
    }
}

impl Variable {
    /// A variable of the type `typ`.
    pub fn new(typ: DataType) -> (r: Variable)
        ensures
            r.typ == typ,
    {
        Variable { typ }
    }

    pub fn borrow_type(&self) -> (r: &DataType)
        ensures
            *r == self.typ,
    {
        &self.typ
    }

    /// The number of bytes that the variable takes, if the number fits.
    pub fn get_physical_size(&self) -> (r: Option<usize>)
        ensures
            r is Some == (self.typ.physical_size() <= usize::MAX),
            r is Some ==> r.unwrap() == self.typ.physical_size(),
    {
        self.typ.get_physical_size()
    }
}

/// A value written in the program. A float is held by its bits.
#[derive(Clone, Copy, Debug, PartialEq, Eq, Structural)]
pub enum LiteralData {
    Int(i64),
    Float(u64),
    Bool(bool),
}

/// What a value is taken from.
#[derive(Clone, Copy, Debug, PartialEq, Eq, Structural)]
pub enum ValueBase {
    Literal(LiteralData),
    Variable(VariableId),
}

/// A value: a literal or a variable, or the item of it that the indexes select.
#[derive(Debug, PartialEq, Eq)]
pub struct Value {
    pub base: ValueBase,
    pub indexes: Vec<VariableId>,
}

/// The mathematical content of a `Value`.
pub struct ValueView {
    pub base: ValueBase,
    pub indexes: Seq<VariableId>,
}

impl View for Value {
    type V = ValueView;

    open spec fn view(&self) -> ValueView {
        ValueView { base: self.base, indexes: self.indexes@ }
    }
}

impl Value {
    /// The whole of a variable.
    pub fn variable(id: VariableId) -> (r: Value)
        ensures
            r@ == (ValueView { base: ValueBase::Variable(id), indexes: Seq::empty() }),
    {
        Value { base: ValueBase::Variable(id), indexes: Vec::new() }
    }

    /// A literal.
    pub fn literal(data: LiteralData) -> (r: Value)
        ensures
            r@ == (ValueView { base: ValueBase::Literal(data), indexes: Seq::empty() }),
    {
        Value { base: ValueBase::Literal(data), indexes: Vec::new() }
    }
}

/// The operations on two values.
#[derive(Clone, Copy, Debug, PartialEq, Eq, Structural)]
pub enum BinaryOperator {
    AddI,
    SubI,
    MulI,
    DivI,
    ModI,
    AddF,
    SubF,
    MulF,
    DivF,
    ModF,
    BAnd,
    BOr,
    BXor,
}

/// What a comparison can have found.
#[derive(Clone, Copy, Debug, PartialEq, Eq, Structural)]
pub enum Condition {
    Equal,
    NotEqual,
    GreaterThan,
    LessThan,
    GreaterThanOrEqual,
    LessThanOrEqual,
}

/// One instruction.
#[derive(Debug, PartialEq, Eq)]
pub enum Instruction {
    /// Copies `from` to `to`.
    Move { from: Value, to: Value },
    /// Stores `a op b` in `x`.
    BinaryOperation { op: BinaryOperator, a: Value, b: Value, x: Value },
    /// Compares `a` with `b`.
    Compare { a: Value, b: Value },
    /// Stops the program unless the last comparison found the condition.
    Assert(Condition),
    /// Names this place.
    Label(LabelId),
    /// Goes on at the label.
    Jump { label: LabelId },
}

/// The mathematical content of an `Instruction`.
pub enum InstructionView {
    Move { from: ValueView, to: ValueView },
    BinaryOperation { op: BinaryOperator, a: ValueView, b: ValueView, x: ValueView },
    Compare { a: ValueView, b: ValueView },
    Assert(Condition),
    Label(LabelId),
    Jump { label: LabelId },
}

impl View for Instruction {
    type V = InstructionView;

    open spec fn view(&self) -> InstructionView {
        match self {
            Instruction::Move { from, to } => InstructionView::Move { from: from@, to: to@ },
            Instruction::BinaryOperation { op, a, b, x } => InstructionView::BinaryOperation {
                op: *op,
                a: a@,
                b: b@,
                x: x@,
            },
            Instruction::Compare { a, b } => InstructionView::Compare { a: a@, b: b@ },
            Instruction::Assert(condition) => InstructionView::Assert(*condition),
            Instruction::Label(id) => InstructionView::Label(*id),
            Instruction::Jump { label } => InstructionView::Jump { label: *label },
        }
    }
}

/// A flat program.
#[derive(Debug)]
pub struct Program {
    pub instructions: Vec<Instruction>,
    pub variables: Vec<Variable>,
}

/// The mathematical content of a `Program`.
pub struct ProgramView {
    pub instructions: Seq<InstructionView>,
    pub variables: Seq<Variable>,
}

impl View for Program {
    type V = ProgramView;

    open spec fn view(&self) -> ProgramView {
        ProgramView {
            instructions: self.instructions@.map_values(|i: Instruction| i@),
            variables: self.variables@,
        }
    }
}

impl Program {
    /// The program without variables and instructions.
    pub fn new() -> (r: Program)
        ensures
            r@ == (ProgramView { instructions: Seq::empty(), variables: Seq::empty() }),
    {
        let r = Program { instructions: Vec::new(), variables: Vec::new() };
        assert(r@.instructions =~= Seq::empty());
        r
    }

    /// Adds a variable, and returns its place.
    pub fn adopt_variable(&mut self, variable: Variable) -> (id: VariableId)
        ensures
            id.0 == old(self)@.variables.len(),
            final(self)@ == (ProgramView {
                variables: old(self)@.variables.push(variable),
                ..old(self)@
            }),
    {
        let id = VariableId(self.variables.len());
        self.variables.push(variable);
        assert(self@.instructions =~= old(self)@.instructions);
        id
    }

    /// Adds an instruction after those that are there.
    pub fn add_instruction(&mut self, instruction: Instruction)
        ensures
            final(self)@ == (ProgramView {
                instructions: old(self)@.instructions.push(instruction@),
                ..old(self)@
            }),
    {
        self.instructions.push(instruction);
        assert(self@.instructions =~= old(self)@.instructions.push(instruction@));
    }

    pub fn borrow_instructions(&self) -> (r: &Vec<Instruction>)
        ensures
            *r == self.instructions,
    {
        &self.instructions
    }

    pub fn has_variable(&self, id: VariableId) -> (r: bool)
        ensures
            r == (id.0 < self@.variables.len()),
    {
        id.0 < self.variables.len()
    }

    pub fn borrow_variable(&self, id: VariableId) -> (r: &Variable)
        requires
            id.0 < self@.variables.len(),
        ensures
            *r == self@.variables[id.0 as int],
    {
        &self.variables[id.0]
    }
}

} // verus!
