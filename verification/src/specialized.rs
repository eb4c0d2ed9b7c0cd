//! The form of a program for one machine, and the way to it from the
//! flat form: instruction by instruction, with a variable of its own for
//! each variable that the instructions use.

use crate::trivial;
use crate::trivial::{LiteralData, Variable};
use std::collections::HashMap;
use vstd::prelude::*;
use vstd::std_specs::hash::*;

verus! {

/// The place of a variable in a specialized program.
#[derive(Clone, Copy, Debug, PartialEq, Eq, Structural)]
pub struct VariableId(pub usize);

/// A value: a literal, or `length` bytes of a variable from `offset` on,
/// of the item that the indexes select.
#[derive(Debug, PartialEq, Eq)]
pub enum Value {
    Literal(LiteralData),
    VariableAccess { variable: VariableId, indexes: Vec<VariableId>, offset: usize, length: usize },
}

/// The mathematical content of a `Value`.
pub enum ValueView {
    Literal(LiteralData),
    VariableAccess { variable: VariableId, indexes: Seq<VariableId>, offset: usize, length: usize },
}

impl View for Value {
    type V = ValueView;

    open spec fn view(&self) -> ValueView {
        match self {
            Value::Literal(data) => ValueView::Literal(*data),
            Value::VariableAccess { variable, indexes, offset, length } => ValueView::VariableAccess {
                variable: *variable,
                indexes: indexes@,
                offset: *offset,
                length: *length,
            },
        }
    }
}

/// The operations on two values.
#[derive(Clone, Copy, Debug, PartialEq, Eq, Structural)]
pub enum BinaryOperator {
    AddI,
    SubI,
    MulI,
    DivI,
    ModI,
    AddF,
    SubF,
    MulF,
    DivF,
    ModF,
    BAnd,
    BOr,
    BXor,
}

/// What a comparison can have found.
#[derive(Clone, Copy, Debug, PartialEq, Eq, Structural)]
pub enum Condition {
    Equal,
    NotEqual,
    GreaterThan,
    LessThan,
    GreaterThanOrEqual,
    LessThanOrEqual,
}

/// One instruction.
#[derive(Debug, PartialEq, Eq)]
pub enum Instruction {
    Move { from: Value, to: Value },
    BinaryOperation { op: BinaryOperator, a: Value, b: Value, x: Value },
    Compare { a: Value, b: Value },
    Assert(Condition),
}

/// The mathematical content of an `Instruction`.
pub enum InstructionView {
    Move { from: ValueView, to: ValueView },
    BinaryOperation { op: BinaryOperator, a: ValueView, b: ValueView, x: ValueView },
    Compare { a: ValueView, b: ValueView },
    Assert(Condition),
}

impl View for Instruction {
    type V = InstructionView;

    open spec fn view(&self) -> InstructionView {
        match self {
            Instruction::Move { from, to } => InstructionView::Move { from: from@, to: to@ },
            Instruction::BinaryOperation { op, a, b, x } => InstructionView::BinaryOperation {
                op: *op,
                a: a@,
                b: b@,
                x: x@,
            },
            Instruction::Compare { a, b } => InstructionView::Compare { a: a@, b: b@ },
            Instruction::Assert(condition) => InstructionView::Assert(*condition),
        }
    }
}

/// A specialized program.
#[derive(Debug)]
pub struct Program {
    pub instructions: Vec<Instruction>,
    pub variables: Vec<Variable>,
}

/// The mathematical content of a `Program`.
pub struct ProgramView {
    pub instructions: Seq<InstructionView>,
    pub variables: Seq<Variable>,
}

impl View for Program {
    type V = ProgramView;

    open spec fn view(&self) -> ProgramView {
        ProgramView {
            instructions: self.instructions@.map_values(|i: Instruction| i@),
            variables: self.variables@,
        }
    }
}

impl Program {
    /// The program without variables and instructions.
    pub fn new() -> (r: Program)
        ensures
            r@ == (ProgramView { instructions: Seq::empty(), variables: Seq::empty() }),
    {
        let r = Program { instructions: Vec::new(), variables: Vec::new() };
        assert(r@.instructions =~= Seq::empty());
        r
    }

    /// Adds a variable, and returns its place.
    pub fn adopt_variable(&mut self, variable: Variable) -> (id: VariableId)
        ensures
            id.0 == old(self)@.variables.len(),
            final(self)@ == (ProgramView {
                variables: old(self)@.variables.push(variable),
                ..old(self)@
            }),
    {
        let id = VariableId(self.variables.len());
        self.variables.push(variable);
        assert(self@.instructions =~= old(self)@.instructions);
        id
    }

    /// Adds an instruction after those that are there.
    pub fn add_instruction(&mut self, instruction: Instruction)
        ensures
            final(self)@ == (ProgramView {
                instructions: old(self)@.instructions.push(instruction@),
                ..old(self)@
            }),
    {
        self.instructions.push(instruction);
        assert(self@.instructions =~= old(self)@.instructions.push(instruction@));
    }
}

/// The state of a specialization: the program made so far, and for each
/// variable of the source that was met the variable that stands for it.
pub struct Progress {
    pub target: ProgramView,
    pub conversions: Map<trivial::VariableId, VariableId>,
}

/// The operator of the same name.
pub open spec fn operator_of(operator: trivial::BinaryOperator) -> BinaryOperator {
    match operator {
        trivial::BinaryOperator::AddI => BinaryOperator::AddI,
        trivial::BinaryOperator::SubI => BinaryOperator::SubI,
        trivial::BinaryOperator::MulI => BinaryOperator::MulI,
        trivial::BinaryOperator::DivI => BinaryOperator::DivI,
        trivial::BinaryOperator::ModI => BinaryOperator::ModI,
        trivial::BinaryOperator::AddF => BinaryOperator::AddF,
        trivial::BinaryOperator::SubF => BinaryOperator::SubF,
        trivial::BinaryOperator::MulF => BinaryOperator::MulF,
        trivial::BinaryOperator::DivF => BinaryOperator::DivF,
        trivial::BinaryOperator::ModF => BinaryOperator::ModF,
        trivial::BinaryOperator::BAnd => BinaryOperator::BAnd,
        trivial::BinaryOperator::BOr => BinaryOperator::BOr,
        trivial::BinaryOperator::BXor => BinaryOperator::BXor,
    }
}

/// The condition of the same name.
pub open spec fn condition_of(condition: trivial::Condition) -> Condition {
    match condition {
        trivial::Condition::Equal => Condition::Equal,
        trivial::Condition::NotEqual => Condition::NotEqual,
        trivial::Condition::GreaterThan => Condition::GreaterThan,
        trivial::Condition::LessThan => Condition::LessThan,
        trivial::Condition::GreaterThanOrEqual => Condition::GreaterThanOrEqual,
        trivial::Condition::LessThanOrEqual => Condition::LessThanOrEqual,
    }
}

/// The variable that stands for the variable `id` of the source, and the
/// state after it was found: the one that was made when `id` was met
/// first, or a copy of the variable that is made now, at the end of the
/// target's variables.
pub open spec fn variable_specialized(
    source: trivial::ProgramView,
    state: Progress,
    id: trivial::VariableId,
) -> (VariableId, Progress) {
    if state.conversions.contains_key(id) {
        (state.conversions[id], state)
    } else {
        let made = VariableId(state.target.variables.len() as usize);
        (
            made,
            Progress {
                target: ProgramView {
                    variables: state.target.variables.push(source.variables[id.0 as int]),
                    ..state.target
                },
                conversions: state.conversions.insert(id, made),
            },
        )
    }
}

/// What a value becomes, and the state after it: a literal stays what it
/// is, and a variable becomes all the bytes of the variable that stands
/// for it. `None` for a value with indexes, for a variable that the source
/// does not hold, and where the size of the variable does not fit.
pub open spec fn value_specialized(
    source: trivial::ProgramView,
    state: Progress,
    value: trivial::ValueView,
) -> Option<(ValueView, Progress)> {
    if value.indexes.len() > 0 {
        None
    } else {
        match value.base {
            trivial::ValueBase::Literal(data) => Some((ValueView::Literal(data), state)),
            trivial::ValueBase::Variable(id) => if id.0 >= source.variables.len()
                || source.variables[id.0 as int].typ.physical_size() > usize::MAX {
                None
            } else {
                let (variable, after) = variable_specialized(source, state, id);
                Some(
                    (
                        ValueView::VariableAccess {
                            variable,
                            indexes: Seq::empty(),
                            offset: 0,
                            length: source.variables[id.0 as int].typ.physical_size() as usize,
                        },
                        after,
                    ),
                )
            },
        }
    }
}

/// The state with one instruction more.
pub open spec fn emitted(state: Progress, instruction: InstructionView) -> Progress {
    Progress {
        target: ProgramView {
            instructions: state.target.instructions.push(instruction),
            ..state.target
        },
        ..state
    }
}

/// The state after an instruction was specialized: its values in their
/// order, then the instruction itself. `None` where a value cannot be
/// specialized, and for labels and jumps.
pub open spec fn instruction_specialized(
    source: trivial::ProgramView,
    state: Progress,
    instruction: trivial::InstructionView,
) -> Option<Progress> {
    match instruction {
        trivial::InstructionView::Move { from, to } => match value_specialized(source, state, from) {
            None => None,
            Some((first, after_first)) => match value_specialized(source, after_first, to) {
                None => None,
                Some((second, after)) => Some(
                    emitted(after, InstructionView::Move { from: first, to: second }),
                ),
            },
        },
        trivial::InstructionView::BinaryOperation { op, a, b, x } => match value_specialized(
            source,
            state,
            a,
        ) {
            None => None,
            Some((first, after_first)) => match value_specialized(source, after_first, b) {
                None => None,
                Some((second, after_second)) => match value_specialized(source, after_second, x) {
                    None => None,
                    Some((third, after)) => Some(
                        emitted(
                            after,
                            InstructionView::BinaryOperation {
                                op: operator_of(op),
                                a: first,
                                b: second,
                                x: third,
                            },
                        ),
                    ),
                },
            },
        },
        trivial::InstructionView::Compare { a, b } => match value_specialized(source, state, a) {
            None => None,
            Some((first, after_first)) => match value_specialized(source, after_first, b) {
                None => None,
                Some((second, after)) => Some(
                    emitted(after, InstructionView::Compare { a: first, b: second }),
                ),
            },
        },
        trivial::InstructionView::Assert(condition) => Some(
            emitted(state, InstructionView::Assert(condition_of(condition))),
        ),
        _ => None,
    }
}

/// The state after the first `count` instructions of the source were
/// specialized, one after the other.
pub open spec fn specialized(source: trivial::ProgramView, count: int) -> Option<Progress>
    decreases count,
{
    if count <= 0 {
        Some(
            Progress {
                target: ProgramView { instructions: Seq::empty(), variables: Seq::empty() },
                conversions: Map::empty(),
            },
        )
    } else {
        match specialized(source, count - 1) {
            None => None,
            Some(state) => instruction_specialized(source, state, source.instructions[count - 1]),
        }
    }
}

/// Once the first instructions cannot be specialized, no longer list can.
proof fn lemma_specialized_fails(source: trivial::ProgramView, failed: int, count: int)
    requires
        0 < failed <= count,
        specialized(source, failed) is None,
    ensures
        specialized(source, count) is None,
    decreases count - failed,
{
    if failed < count {
        lemma_specialized_fails(source, failed, count - 1);
    }
}

/// A specialization in progress.
struct Specializer<'a> {
    source: &'a trivial::Program,
    target: Program,
    var_conversions: HashMap<usize, VariableId>,
}

impl<'a> Specializer<'a> {
    spec fn progress(&self) -> Progress {
        Progress {
            target: self.target@,
            conversions: Map::new(
                |key: trivial::VariableId| self.var_conversions@.contains_key(key.0),
                |key: trivial::VariableId| self.var_conversions@[key.0],
            ),
        }
    }

    fn specialize_binary_operator(operator: &trivial::BinaryOperator) -> (r: BinaryOperator)
        ensures
            r == operator_of(*operator),
    {
        match operator {
            trivial::BinaryOperator::AddI => BinaryOperator::AddI,
            trivial::BinaryOperator::SubI => BinaryOperator::SubI,
            trivial::BinaryOperator::MulI => BinaryOperator::MulI,
            trivial::BinaryOperator::DivI => BinaryOperator::DivI,
            trivial::BinaryOperator::ModI => BinaryOperator::ModI,
            trivial::BinaryOperator::AddF => BinaryOperator::AddF,
            trivial::BinaryOperator::SubF => BinaryOperator::SubF,
            trivial::BinaryOperator::MulF => BinaryOperator::MulF,
            trivial::BinaryOperator::DivF => BinaryOperator::DivF,
            trivial::BinaryOperator::ModF => BinaryOperator::ModF,
            trivial::BinaryOperator::BAnd => BinaryOperator::BAnd,
            trivial::BinaryOperator::BOr => BinaryOperator::BOr,
            trivial::BinaryOperator::BXor => BinaryOperator::BXor,
        }
    }

    fn specialize_condition(condition: &trivial::Condition) -> (r: Condition)
        ensures
            r == condition_of(*condition),
    {
        match condition {
            trivial::Condition::Equal => Condition::Equal,
            trivial::Condition::NotEqual => Condition::NotEqual,
            trivial::Condition::GreaterThan => Condition::GreaterThan,
            trivial::Condition::LessThan => Condition::LessThan,
            trivial::Condition::GreaterThanOrEqual => Condition::GreaterThanOrEqual,
            trivial::Condition::LessThanOrEqual => Condition::LessThanOrEqual,
        }
    }

    fn specialize_variable(&mut self, variable: trivial::VariableId) -> (r: VariableId)
        requires
            variable.0 < old(self).source@.variables.len(),
        ensures
            final(self).source == old(self).source,
            (r, final(self).progress()) == variable_specialized(
                old(self).source@,
                old(self).progress(),
                variable,
            ),
    {
        broadcast use group_hash_axioms;

        let found = match self.var_conversions.get(&variable.0) {
            Some(specialized) => Some(*specialized),
            None => None,
        };
        match found {
            Some(specialized) => specialized,
            None => {
                let new_var = self.source.borrow_variable(variable).clone();
                let specialized = self.target.adopt_variable(new_var);
                self.var_conversions.insert(variable.0, specialized);
                proof {
                    let expected = variable_specialized(
                        old(self).source@,
                        old(self).progress(),
                        variable,
                    ).1;
                    assert(self.progress().conversions =~= expected.conversions);
                }
                specialized
            },
        }
    }

    fn specialize_value(&mut self, value: &trivial::Value) -> (r: Option<Value>)
        ensures
            final(self).source == old(self).source,
            match value_specialized(old(self).source@, old(self).progress(), value@) {
                Some((specialized, after)) => {
                    &&& r is Some
                    &&& r.unwrap()@ == specialized
                    &&& final(self).progress() == after
                },
                None => r is None,
            },
    {
        if value.indexes.len() > 0 {
            return None;
        }
        match value.base {
            trivial::ValueBase::Literal(data) => Some(Value::Literal(data)),
            trivial::ValueBase::Variable(var) => {
                if !self.source.has_variable(var) {
                    return None;
                }
                let length = match self.source.borrow_variable(var).get_physical_size() {
                    Some(length) => length,
                    None => {
                        return None;
                    },
                };
                let id = self.specialize_variable(var);
                Some(
                    Value::VariableAccess { variable: id, indexes: Vec::new(), offset: 0, length },
                )
            },
        }
    }

    fn specialize_instruction(&mut self, instruction: &trivial::Instruction) -> (done: bool)
        ensures
            final(self).source == old(self).source,
            match instruction_specialized(old(self).source@, old(self).progress(), instruction@) {
                Some(after) => done && final(self).progress() == after,
                None => !done,
            },
    {
        match instruction {
            trivial::Instruction::Move { from, to } => {
                let from = match self.specialize_value(from) {
                    Some(value) => value,
                    None => {
                        return false;
                    },
                };
                let to = match self.specialize_value(to) {
                    Some(value) => value,
                    None => {
                        return false;
                    },
                };
                self.target.add_instruction(Instruction::Move { from, to });
                true
            },
            trivial::Instruction::BinaryOperation { op, a, b, x } => {
                let a = match self.specialize_value(a) {
                    Some(value) => value,
                    None => {
                        return false;
                    },
                };
                let b = match self.specialize_value(b) {
                    Some(value) => value,
                    None => {
                        return false;
                    },
                };
                let x = match self.specialize_value(x) {
                    Some(value) => value,
                    None => {
                        return false;
                    },
                };
                let op = Self::specialize_binary_operator(op);
                self.target.add_instruction(Instruction::BinaryOperation { op, a, b, x });
                true
            },
            trivial::Instruction::Compare { a, b } => {
                let a = match self.specialize_value(a) {
                    Some(value) => value,
                    None => {
                        return false;
                    },
                };
                let b = match self.specialize_value(b) {
                    Some(value) => value,
                    None => {
                        return false;
                    },
                };
                self.target.add_instruction(Instruction::Compare { a, b });
                true
            },
            trivial::Instruction::Assert(condition) => {
                let condition = Self::specialize_condition(condition);
                self.target.add_instruction(Instruction::Assert(condition));
                true
            },
            _ => false,
        }
    }

    fn entry_point(&mut self) -> (done: bool)
        requires
            old(self).progress() == specialized(old(self).source@, 0).unwrap(),
        ensures
            final(self).source == old(self).source,
            match specialized(
                old(self).source@,
                old(self).source@.instructions.len() as int,
            ) {
                Some(after) => done && final(self).progress() == after,
                None => !done,
            },
    {
        let source = self.source;
        let mut i: usize = 0;
        while i < source.instructions.len()
            invariant
                i <= source.instructions.len(),
                source == old(self).source,
                self.source == source,
                specialized(source@, i as int) == Some(self.progress()),
            decreases source.instructions.len() - i,
        {
            assert(source@.instructions[i as int] == source.instructions@[i as int]@);
            if !self.specialize_instruction(&source.instructions[i]) {
                proof {
                    lemma_specialized_fails(
                        source@,
                        i as int + 1,
                        source@.instructions.len() as int,
                    );
                }
                return false;
            }
            i += 1;
        }
        true
    }
}

/// Specializes a flat program: each instruction in its order, and for
/// each variable that the instructions use a variable of the same type,
/// made when it is met first. There is no result for a program with a
/// value that has indexes, a label or a jump, a variable that it does
/// not hold, or a variable whose size does not fit.
pub fn ingest(input: &trivial::Program) -> (r: Option<Program>)
    ensures
        match specialized(input@, input@.instructions.len() as int) {
            Some(after) => r is Some && r.unwrap()@ == after.target,
            None => r is None,
        },
{
    let mut specializer = Specializer {
        source: input,
        target: Program::new(),
        var_conversions: HashMap::new(),
    };
    proof {
        assert(specializer.progress().conversions =~= Map::empty());
    }
    if specializer.entry_point() {
        Some(specializer.target)
    } else {
        None
    }
}

} // verus!
