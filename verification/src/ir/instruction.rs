use super::compare_and_swap::{CompareAndSwap, CompareAndSwapView};
use super::comparison_operation::{ComparisonOperation, ComparisonOperationView};
use super::expression::{Expression, ExpressionView};
use vstd::prelude::*;

verus! {

/// The mathematical value of an [`Instruction`].
pub enum InstructionView {
    ComparisonOperation(ComparisonOperationView),
    CompareAndSwap(CompareAndSwapView),
}

impl InstructionView {
    /// The name that the instruction binds its result to.
    pub open spec fn name(self) -> Seq<char> {
        match self {
            InstructionView::ComparisonOperation(operation) => operation.name,
            InstructionView::CompareAndSwap(operation) => operation.name,
        }
    }

    /// The expression that computes what the instruction binds.
    pub open spec fn expression(self) -> ExpressionView {
        match self {
            InstructionView::ComparisonOperation(operation) => ExpressionView::ComparisonOperation(
                operation,
            ),
            InstructionView::CompareAndSwap(operation) => ExpressionView::CompareAndSwap(operation),
        }
    }
}

/// An operation inside a block that does not leave the block. Each binds
/// its result to a name.
#[derive(Debug, PartialEq, Eq)]
pub enum Instruction {
    ComparisonOperation(ComparisonOperation),
    CompareAndSwap(CompareAndSwap),
}

impl View for Instruction {
    type V = InstructionView;

    open spec fn view(&self) -> InstructionView {
        match self {
            Instruction::ComparisonOperation(operation) => InstructionView::ComparisonOperation(
                operation@,
            ),
            Instruction::CompareAndSwap(operation) => InstructionView::CompareAndSwap(operation@),
        }
    }
}

impl Instruction {
    pub fn name(&self) -> (r: &str)
        ensures
            r@ == self@.name(),
    {
        match self {
            Instruction::ComparisonOperation(operation) => operation.name(),
            Instruction::CompareAndSwap(operation) => operation.name(),
        }
    }

    /// The instruction as an expression, to use its result as an operand.
    pub fn into_expression(self) -> (r: Expression)
        ensures
            r@ == self@.expression(),
    {
        match self {
            Instruction::ComparisonOperation(operation) => Expression::ComparisonOperation(
                operation,
            ),
            Instruction::CompareAndSwap(operation) => Expression::CompareAndSwap(operation),
        }
    }
}

impl Clone for Instruction {
    fn clone(&self) -> (r: Self)
        ensures
            r@ == self@,
    {
        match self {
            Instruction::ComparisonOperation(operation) => Instruction::ComparisonOperation(
                operation.clone(),
            ),
            Instruction::CompareAndSwap(operation) => Instruction::CompareAndSwap(
                operation.clone(),
            ),
        }
    }
}

} // verus!
