use super::compare_and_swap::{CompareAndSwap, CompareAndSwapView};
use super::comparison_operation::{ComparisonOperation, ComparisonOperationView};
use super::variable::Variable;
use vstd::prelude::*;

verus! {

/// The mathematical value of an [`Expression`].
pub enum ExpressionView {
    Variable(Seq<char>),
    ComparisonOperation(ComparisonOperationView),
    CompareAndSwap(CompareAndSwapView),
}

impl ExpressionView {
    /// The name that the expression goes by: the name that a variable
    /// refers to, or the name that an operation binds its result to.
    pub open spec fn name(self) -> Seq<char> {
        match self {
            ExpressionView::Variable(name) => name,
            ExpressionView::ComparisonOperation(operation) => operation.name,
            ExpressionView::CompareAndSwap(operation) => operation.name,
        }
    }
}

/// A node that produces a value: a reference to a name, or the result of
/// an operation on other expressions.
#[derive(Debug, PartialEq, Eq)]
pub enum Expression {
    Variable(Variable),
    ComparisonOperation(ComparisonOperation),
    CompareAndSwap(CompareAndSwap),
}

impl Expression {
    /// The value of the expression, by recursion on its structure.
    pub open spec fn model(&self) -> ExpressionView
        decreases self,
    {
        match self {
            Expression::Variable(variable) => ExpressionView::Variable(variable@),
            Expression::ComparisonOperation(operation) => ExpressionView::ComparisonOperation(
                operation.model(),
            ),
            Expression::CompareAndSwap(operation) => ExpressionView::CompareAndSwap(
                operation.model(),
            ),
        }
    }

    pub fn name(&self) -> (r: &str)
        ensures
            r@ == self@.name(),
    {
        match self {
            Expression::Variable(variable) => variable.name(),
            Expression::ComparisonOperation(operation) => operation.name(),
            Expression::CompareAndSwap(operation) => operation.name(),
        }
    }
}

impl View for Expression {
    type V = ExpressionView;

    open spec fn view(&self) -> ExpressionView {
        self.model()
    }
}

impl Clone for Expression {
    fn clone(&self) -> (r: Self)
        ensures
            r@ == self@,
        decreases self,
    {
        match self {
            Expression::Variable(variable) => Expression::Variable(variable.clone()),
            Expression::ComparisonOperation(operation) => Expression::ComparisonOperation(
                operation.clone(),
            ),
            Expression::CompareAndSwap(operation) => Expression::CompareAndSwap(operation.clone()),
        }
    }
}

} // verus!
