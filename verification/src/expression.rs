//! Expressions and statements, before and after resolution.

use crate::data_type::DataType;
use crate::ids::{ScopeId, VariableId};
use crate::known_data::{KnownData, Value};
use crate::operator::BinaryOperator;
use crate::position::FilePosition;
use vstd::prelude::*;

verus! {

/// A node of the program text.
///
/// The parser produces every form but `Inflate` and `Call`. Resolution
/// leaves a residual program made of literals, variables, accesses, binary
/// operations, inflations, assignments, returns and calls of instantiated
/// bodies.
#[derive(Debug)]
pub enum Expression {
    /// A value written in the text, or folded into it.
    Literal(KnownData, FilePosition),
    /// A reference to a variable.
    Variable(VariableId, FilePosition),
    /// `base[index]...`, indexes outermost first.
    Access { base: Box<Expression>, indexes: Vec<Expression>, position: FilePosition },
    /// Stands among the outputs of a call to ask for that output as the call's value.
    InlineReturn(FilePosition),
    /// `left operator right`.
    BinaryOperation(Box<Expression>, BinaryOperator, Box<Expression>, FilePosition),
    /// A value widened to `data_type` by broadcasting.
    Inflate { value: Box<Expression>, data_type: DataType, position: FilePosition },
    /// `target = value;`
    Assign { target: Box<Expression>, value: Box<Expression>, position: FilePosition },
    /// `return;`
    Return(FilePosition),
    /// `function(inputs):(outputs)`.
    FuncCall {
        function: Box<Expression>,
        inputs: Vec<Expression>,
        outputs: Vec<Expression>,
        position: FilePosition,
    },
    /// A call of an instantiated body, which reads and writes its own variables.
    Call { body: ScopeId, position: FilePosition },
}

/// The mathematical content of an `Expression`.
pub enum Expr {
    Literal(Value, FilePosition),
    Variable(VariableId, FilePosition),
    Access { base: Box<Expr>, indexes: Seq<Expr>, position: FilePosition },
    InlineReturn(FilePosition),
    BinaryOperation(Box<Expr>, BinaryOperator, Box<Expr>, FilePosition),
    Inflate { value: Box<Expr>, data_type: DataType, position: FilePosition },
    Assign { target: Box<Expr>, value: Box<Expr>, position: FilePosition },
    Return(FilePosition),
    FuncCall { function: Box<Expr>, inputs: Seq<Expr>, outputs: Seq<Expr>, position: FilePosition },
    Call { body: ScopeId, position: FilePosition },
}

/// The content of the expression at `i`, for the view of a list.
pub open spec fn expression_view(list: Seq<Expression>, i: int) -> Expr
    decreases list, 0int,
{
    if 0 <= i < list.len() {
        list[i]@
    } else {
        Expr::Return(FilePosition::spec_placeholder())
    }
}

/// The contents of a list of expressions, one by one.
pub open spec fn expressions_view(list: Seq<Expression>) -> Seq<Expr>
    decreases list, 1int,
{
    Seq::new(list.len(), |i: int| expression_view(list, i))
}

impl View for Expression {
    type V = Expr;

    open spec fn view(&self) -> Expr
        decreases self,
    {
        match self {
            Expression::Literal(data, position) => Expr::Literal(data@, *position),
            Expression::Variable(id, position) => Expr::Variable(*id, *position),
            Expression::Access { base, indexes, position } => Expr::Access {
                base: Box::new((**base)@),
                indexes: expressions_view(indexes@),
                position: *position,
            },
            Expression::InlineReturn(position) => Expr::InlineReturn(*position),
            Expression::BinaryOperation(left, operator, right, position) => Expr::BinaryOperation(
                Box::new((**left)@),
                *operator,
                Box::new((**right)@),
                *position,
            ),
            Expression::Inflate { value, data_type, position } => Expr::Inflate {
                value: Box::new((**value)@),
                data_type: *data_type,
                position: *position,
            },
            Expression::Assign { target, value, position } => Expr::Assign {
                target: Box::new((**target)@),
                value: Box::new((**value)@),
                position: *position,
            },
            Expression::Return(position) => Expr::Return(*position),
            Expression::FuncCall { function, inputs, outputs, position } => Expr::FuncCall {
                function: Box::new((**function)@),
                inputs: expressions_view(inputs@),
                outputs: expressions_view(outputs@),
                position: *position,
            },
            Expression::Call { body, position } => Expr::Call { body: *body, position: *position },
        }
    }
}

impl Expr {
    /// The position of the node.
    pub open spec fn position(self) -> FilePosition {
        match self {
            Expr::Literal(_, position) => position,
            Expr::Variable(_, position) => position,
            Expr::Access { position, .. } => position,
            Expr::InlineReturn(position) => position,
            Expr::BinaryOperation(_, _, _, position) => position,
            Expr::Inflate { position, .. } => position,
            Expr::Assign { position, .. } => position,
            Expr::Return(position) => position,
            Expr::FuncCall { position, .. } => position,
            Expr::Call { position, .. } => position,
        }
    }

    /// Whether the expression can stand in the residual program: it holds
    /// no call that is still to be resolved and no inline return, and each
    /// of its literals can be represented at run time.
    pub open spec fn resolved(self) -> bool
        decreases self,
    {
        match self {
            Expr::Literal(value, _) => value.run_time(),
            Expr::Variable(_, _) => true,
            Expr::Access { base, indexes, .. } => {
                &&& base.resolved()
                &&& forall|i: int| 0 <= i < indexes.len() ==> (#[trigger] indexes[i]).resolved()
            },
            Expr::InlineReturn(_) => false,
            Expr::BinaryOperation(left, _, right, _) => left.resolved() && right.resolved(),
            Expr::Inflate { value, .. } => value.resolved(),
            Expr::Assign { target, value, .. } => target.resolved() && value.resolved(),
            Expr::Return(_) => true,
            Expr::FuncCall { .. } => false,
            Expr::Call { .. } => true,
        }
    }
}

/// Copies a list of expressions.
pub fn clone_expressions(list: &Vec<Expression>) -> (r: Vec<Expression>)
    ensures
        expressions_view(r@) == expressions_view(list@),
        r@.len() == list@.len(),
        forall|i: int| 0 <= i < list@.len() ==> (#[trigger] r@[i])@ == list@[i]@,
    decreases list,
{
    let mut copies: Vec<Expression> = Vec::new();
    let mut i: usize = 0;
    while i < list.len()
        invariant
            i <= list.len(),
            copies@.len() == i,
            forall|j: int| 0 <= j < i ==> (#[trigger] copies@[j])@ == list@[j]@,
        decreases list.len() - i,
    {
        let copy = (&list[i]).clone();
        copies.push(copy);
        i += 1;
    }
    assert(expressions_view(copies@) =~= expressions_view(list@));
    copies
}

impl Clone for Expression {
    fn clone(&self) -> (r: Self)
        ensures
            r@ == self@,
        decreases *self,
    {
        match self {
            Expression::Literal(data, position) => Expression::Literal(data.clone(), *position),
            Expression::Variable(id, position) => Expression::Variable(*id, *position),
            Expression::Access { base, indexes, position } => Expression::Access {
                base: Box::new((&**base).clone()),
                indexes: clone_expressions(indexes),
                position: *position,
            },
            Expression::InlineReturn(position) => Expression::InlineReturn(*position),
            Expression::BinaryOperation(left, operator, right, position) => {
                Expression::BinaryOperation(
                    Box::new((&**left).clone()),
                    *operator,
                    Box::new((&**right).clone()),
                    *position,
                )
            },
            Expression::Inflate { value, data_type, position } => Expression::Inflate {
                value: Box::new((&**value).clone()),
                data_type: data_type.clone(),
                position: *position,
            },
            Expression::Assign { target, value, position } => Expression::Assign {
                target: Box::new((&**target).clone()),
                value: Box::new((&**value).clone()),
                position: *position,
            },
            Expression::Return(position) => Expression::Return(*position),
            Expression::FuncCall { function, inputs, outputs, position } => Expression::FuncCall {
                function: Box::new((&**function).clone()),
                inputs: clone_expressions(inputs),
                outputs: clone_expressions(outputs),
                position: *position,
            },
            Expression::Call { body, position } => Expression::Call {
                body: *body,
                position: *position,
            },
        }
    }
}

impl Expression {
    /// The position of the node.
    pub fn clone_position(&self) -> (r: FilePosition)
        ensures
            r == self@.position(),
    {
        match self {
            Expression::Literal(_, position) => *position,
            Expression::Variable(_, position) => *position,
            Expression::Access { position, .. } => *position,
            Expression::InlineReturn(position) => *position,
            Expression::BinaryOperation(_, _, _, position) => *position,
            Expression::Inflate { position, .. } => *position,
            Expression::Assign { position, .. } => *position,
            Expression::Return(position) => *position,
            Expression::FuncCall { position, .. } => *position,
            Expression::Call { position, .. } => *position,
        }
    }
}

} // verus!
