//! What simplification makes of an expression.

use crate::data_type::DataType;
use crate::expression::{Expr, Expression};
use crate::known_data::{KnownData, Value};
use vstd::prelude::*;

verus! {

/// The two things an expression can turn into.
#[derive(Debug)]
pub enum Content {
    /// Its value is known now.
    Interpreted(KnownData),
    /// Code is left to compute it at run time.
    Modified(Expression),
}

/// The mathematical content of a `Content`.
pub enum ContentView {
    Interpreted(Value),
    Modified(Expr),
}

impl View for Content {
    type V = ContentView;

    open spec fn view(&self) -> ContentView {
        match self {
            Content::Interpreted(data) => ContentView::Interpreted(data@),
            Content::Modified(expression) => ContentView::Modified(expression@),
        }
    }
}

/// A simplified expression and its data type.
#[derive(Debug)]
pub struct SimplifiedExpression {
    pub content: Content,
    pub data_type: DataType,
}

/// The mathematical content of a `SimplifiedExpression`.
pub struct SimplifiedView {
    pub content: ContentView,
    pub data_type: DataType,
}

impl View for SimplifiedExpression {
    type V = SimplifiedView;

    open spec fn view(&self) -> SimplifiedView {
        SimplifiedView { content: self.content@, data_type: self.data_type }
    }
}

impl SimplifiedView {
    /// What remains to be done at run time can be done there: residual
    /// code holds nothing unresolved.
    pub open spec fn residual_resolved(self) -> bool {
        match self.content {
            ContentView::Interpreted(_) => true,
            ContentView::Modified(expression) => expression.resolved(),
        }
    }

    /// The statement that does nothing and has no value.
    pub open spec fn nothing() -> SimplifiedView {
        SimplifiedView { content: ContentView::Interpreted(Value::Void), data_type: DataType::Void }
    }
}

/// The expression `expression` of type `from`, widened to the type `to`:
/// itself where the types are the same, else an inflation at the same position.
pub open spec fn inflated(expression: Expr, from: DataType, to: DataType) -> Expr {
    if from == to {
        expression
    } else {
        Expr::Inflate { value: Box::new(expression), data_type: to, position: expression.position() }
    }
}

/// Widens a run-time expression of type `from` to the type `to`.
pub fn inflate(expression: Expression, from: &DataType, to: &DataType) -> (r: Expression)
    ensures
        r@ == inflated(expression@, *from, *to),
{
    if from.equals(to) {
        expression
    } else {
        let position = expression.clone_position();
        Expression::Inflate { value: Box::new(expression), data_type: to.clone(), position }
    }
}

/// An inflated expression is resolved when the expression is.
pub proof fn lemma_inflated_resolved(expression: Expr, from: DataType, to: DataType)
    ensures
        inflated(expression, from, to).resolved() == expression.resolved(),
{
}

} // verus!
