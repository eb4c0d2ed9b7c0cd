//! What can go wrong during resolution, and where.

use crate::position::FilePosition;
use vstd::prelude::*;

verus! {

/// How a descriptor bears on a problem.
#[derive(Clone, Copy, Debug, PartialEq, Eq, Structural)]
pub enum ProblemType {
    /// The place where the problem was found.
    Error,
    /// A place that helps to understand it.
    Hint,
}

/// One position that a problem points at.
#[derive(Clone, Copy, Debug, PartialEq, Eq, Structural)]
pub struct ProblemDescriptor {
    pub position: FilePosition,
    pub ptype: ProblemType,
}

/// The classes of failure that a user can cause, and the one that only a
/// malformed program or an exhausted limit can.
#[derive(Clone, Copy, Debug, PartialEq, Eq, Structural)]
pub enum Category {
    ArityMismatch,
    UnresolvedName,
    TypeMismatch,
    NotCallable,
    IndeterminateCallee,
    OutOfBoundsIndex,
    UnresolvedAutomaticType,
    TooManyInlineReturns,
    MissingInlineReturn,
    DanglingValue,
    Internal,
}

/// The particular failure.
#[derive(Clone, Copy, Debug, PartialEq, Eq, Structural)]
pub enum ProblemKind {
    /// A call gives `provided` inputs to a function that declares `expected`.
    WrongNumberOfInputs { expected: usize, provided: usize },
    /// A call gives `provided` outputs to a function that declares `expected`.
    WrongNumberOfOutputs { expected: usize, provided: usize },
    /// No symbol of this name is visible from the scope.
    NoEntityWithName,
    /// Two operands have no biggest common type.
    NoBct,
    /// The operands of an operator are of a kind that it does not take.
    InvalidOperands,
    /// An index is not an integer.
    ArrayIndexNotInt,
    /// An index is applied to a value that is not an array, or more indexes than it has layers.
    TooManyIndexes { provided: usize, available: usize },
    /// The two sides of an assignment have types that do not agree.
    MismatchedAssign,
    /// A value known only at compile time is needed at run time.
    ValueNotRunTimeCompatible,
    /// The left side of an assignment cannot be assigned to.
    NotAssignable,
    /// The callee is a value, but not a function.
    NotFunction,
    /// The callee is not known at compile time.
    VagueFunction,
    /// An index is below zero.
    ArrayIndexLessThanZero { value: i64 },
    /// An index is not below the length of the array.
    ArrayIndexTooBig { index: i64, size: usize },
    /// A variable of automatic type is used before anything was assigned to it.
    UnresolvedAutoVar,
    /// A type parameter is bound by no argument.
    UnresolvedTemplateParameter,
    /// More than one output of a call asks for the inline return.
    TooManyInlineReturns { count: usize },
    /// A call is used as a value, but none of its outputs asks for the inline return.
    MissingInlineReturn,
    /// A statement yields a value that nothing stores.
    DanglingValue,
    /// A variable would get two conversions in one table.
    DuplicateConversion,
    /// An id that the program does not hold.
    UnknownId,
    /// The program was not given the builtin functions.
    MissingBuiltin,
    /// A literal that has no data type: nothing is known of it, or it is an empty array.
    UntypedLiteral,
    /// A node that only resolution produces, or an inline return outside a list of outputs.
    UnexpectedExpression,
    /// Calls are nested deeper than the limit.
    NestingTooDeep,
}

impl ProblemKind {
    /// The class that the failure belongs to.
    pub open spec fn spec_category(self) -> Category {
        match self {
            ProblemKind::WrongNumberOfInputs { .. } => Category::ArityMismatch,
            ProblemKind::WrongNumberOfOutputs { .. } => Category::ArityMismatch,
            ProblemKind::NoEntityWithName => Category::UnresolvedName,
            ProblemKind::NoBct => Category::TypeMismatch,
            ProblemKind::InvalidOperands => Category::TypeMismatch,
            ProblemKind::ArrayIndexNotInt => Category::TypeMismatch,
            ProblemKind::TooManyIndexes { .. } => Category::TypeMismatch,
            ProblemKind::MismatchedAssign => Category::TypeMismatch,
            ProblemKind::ValueNotRunTimeCompatible => Category::TypeMismatch,
            ProblemKind::NotAssignable => Category::TypeMismatch,
            ProblemKind::NotFunction => Category::NotCallable,
            ProblemKind::VagueFunction => Category::IndeterminateCallee,
            ProblemKind::ArrayIndexLessThanZero { .. } => Category::OutOfBoundsIndex,
            ProblemKind::ArrayIndexTooBig { .. } => Category::OutOfBoundsIndex,
            ProblemKind::UnresolvedAutoVar => Category::UnresolvedAutomaticType,
            ProblemKind::UnresolvedTemplateParameter => Category::UnresolvedAutomaticType,
            ProblemKind::TooManyInlineReturns { .. } => Category::TooManyInlineReturns,
            ProblemKind::MissingInlineReturn => Category::MissingInlineReturn,
            ProblemKind::DanglingValue => Category::DanglingValue,
            ProblemKind::DuplicateConversion => Category::Internal,
            ProblemKind::UnknownId => Category::Internal,
            ProblemKind::MissingBuiltin => Category::Internal,
            ProblemKind::UntypedLiteral => Category::TypeMismatch,
            ProblemKind::UnexpectedExpression => Category::Internal,
            ProblemKind::NestingTooDeep => Category::Internal,
        }
    }

    pub fn category(&self) -> (r: Category)
        ensures
            r == self.spec_category(),
    {
        match self {
            ProblemKind::WrongNumberOfInputs { .. } => Category::ArityMismatch,
            ProblemKind::WrongNumberOfOutputs { .. } => Category::ArityMismatch,
            ProblemKind::NoEntityWithName => Category::UnresolvedName,
            ProblemKind::NoBct => Category::TypeMismatch,
            ProblemKind::InvalidOperands => Category::TypeMismatch,
            ProblemKind::ArrayIndexNotInt => Category::TypeMismatch,
            ProblemKind::TooManyIndexes { .. } => Category::TypeMismatch,
            ProblemKind::MismatchedAssign => Category::TypeMismatch,
            ProblemKind::ValueNotRunTimeCompatible => Category::TypeMismatch,
            ProblemKind::NotAssignable => Category::TypeMismatch,
            ProblemKind::NotFunction => Category::NotCallable,
            ProblemKind::VagueFunction => Category::IndeterminateCallee,
            ProblemKind::ArrayIndexLessThanZero { .. } => Category::OutOfBoundsIndex,
            ProblemKind::ArrayIndexTooBig { .. } => Category::OutOfBoundsIndex,
            ProblemKind::UnresolvedAutoVar => Category::UnresolvedAutomaticType,
            ProblemKind::UnresolvedTemplateParameter => Category::UnresolvedAutomaticType,
            ProblemKind::TooManyInlineReturns { .. } => Category::TooManyInlineReturns,
            ProblemKind::MissingInlineReturn => Category::MissingInlineReturn,
            ProblemKind::DanglingValue => Category::DanglingValue,
            ProblemKind::DuplicateConversion => Category::Internal,
            ProblemKind::UnknownId => Category::Internal,
            ProblemKind::MissingBuiltin => Category::Internal,
            ProblemKind::UntypedLiteral => Category::TypeMismatch,
            ProblemKind::UnexpectedExpression => Category::Internal,
            ProblemKind::NestingTooDeep => Category::Internal,
        }
    }
}

/// A failure of resolution: what failed, and the positions it points at.
/// The first descriptor is the error; hints follow.
#[derive(Debug)]
pub struct CompileProblem {
    pub kind: ProblemKind,
    pub descriptors: Vec<ProblemDescriptor>,
}

/// The mathematical content of a `CompileProblem`.
pub struct ProblemView {
    pub kind: ProblemKind,
    pub descriptors: Seq<ProblemDescriptor>,
}

impl View for CompileProblem {
    type V = ProblemView;

    open spec fn view(&self) -> ProblemView {
        ProblemView { kind: self.kind, descriptors: self.descriptors@ }
    }
}

/// The descriptor of the place where a problem was found.
pub open spec fn error_at(position: FilePosition) -> ProblemDescriptor {
    ProblemDescriptor { position, ptype: ProblemType::Error }
}

/// The descriptor of a place that helps to understand a problem.
pub open spec fn hint_at(position: FilePosition) -> ProblemDescriptor {
    ProblemDescriptor { position, ptype: ProblemType::Hint }
}

impl CompileProblem {
    /// A problem found at `position`, without hints.
    pub fn new(kind: ProblemKind, position: FilePosition) -> (r: CompileProblem)
        ensures
            r@ == (ProblemView { kind, descriptors: seq![error_at(position)] }),
    {
        let mut descriptors: Vec<ProblemDescriptor> = Vec::new();
        descriptors.push(ProblemDescriptor { position, ptype: ProblemType::Error });
        let r = CompileProblem { kind, descriptors };
        assert(r@.descriptors =~= seq![error_at(position)]);
        r
    }

    /// Adds a hint after the descriptors that are there.
    pub fn add_hint(&mut self, position: FilePosition)
        ensures
            final(self)@ == (ProblemView {
                kind: old(self)@.kind,
                descriptors: old(self)@.descriptors.push(hint_at(position)),
            }),
    {
        self.descriptors.push(ProblemDescriptor { position, ptype: ProblemType::Hint });
    }

    pub fn get_kind(&self) -> (r: ProblemKind)
        ensures
            r == self@.kind,
    {
        self.kind
    }

    pub fn category(&self) -> (r: Category)
        ensures
            r == self@.kind.spec_category(),
    {
        self.kind.category()
    }

    pub fn borrow_descriptors(&self) -> (r: &Vec<ProblemDescriptor>)
        ensures
            r@ == self@.descriptors,
    {
        &self.descriptors
    }
}

/// A call gives the wrong number of inputs. The hint is the header of the function.
pub fn wrong_number_of_inputs(
    call_pos: FilePosition,
    header_pos: FilePosition,
    provided: usize,
    expected: usize,
) -> (r: CompileProblem)
    ensures
        r@ == (ProblemView {
            kind: ProblemKind::WrongNumberOfInputs { expected, provided },
            descriptors: seq![error_at(call_pos), hint_at(header_pos)],
        }),
{
    let mut r = CompileProblem::new(ProblemKind::WrongNumberOfInputs { expected, provided }, call_pos);
    r.add_hint(header_pos);
    assert(r@.descriptors =~= seq![error_at(call_pos), hint_at(header_pos)]);
    r
}

/// A call gives the wrong number of outputs. The hint is the header of the function.
pub fn wrong_number_of_outputs(
    call_pos: FilePosition,
    header_pos: FilePosition,
    provided: usize,
    expected: usize,
) -> (r: CompileProblem)
    ensures
        r@ == (ProblemView {
            kind: ProblemKind::WrongNumberOfOutputs { expected, provided },
            descriptors: seq![error_at(call_pos), hint_at(header_pos)],
        }),
{
    let mut r = CompileProblem::new(
        ProblemKind::WrongNumberOfOutputs { expected, provided },
        call_pos,
    );
    r.add_hint(header_pos);
    assert(r@.descriptors =~= seq![error_at(call_pos), hint_at(header_pos)]);
    r
}

/// Two operands have no biggest common type. The hints are the operands, first then second.
pub fn no_bct(expression: FilePosition, op1: FilePosition, op2: FilePosition) -> (r: CompileProblem)
    ensures
        r@ == (ProblemView {
            kind: ProblemKind::NoBct,
            descriptors: seq![error_at(expression), hint_at(op1), hint_at(op2)],
        }),
{
    let mut r = CompileProblem::new(ProblemKind::NoBct, expression);
    r.add_hint(op1);
    r.add_hint(op2);
    assert(r@.descriptors =~= seq![error_at(expression), hint_at(op1), hint_at(op2)]);
    r
}

/// A problem found at `position`, met while `context` was being resolved.
pub fn problem_in_context(kind: ProblemKind, position: FilePosition, context: FilePosition) -> (r:
    CompileProblem)
    ensures
        r@ == (ProblemView { kind, descriptors: seq![error_at(position), hint_at(context)] }),
{
    let mut r = CompileProblem::new(kind, position);
    r.add_hint(context);
    assert(r@.descriptors =~= seq![error_at(position), hint_at(context)]);
    r
}

} // verus!
