use super::expression::{Expression, ExpressionView};
use vstd::prelude::*;

verus! {

/// The mathematical value of a [`TerminalInstruction`].
pub enum TerminalInstructionView {
    Return(ExpressionView),
    Unreachable,
}

/// The instruction that ends a block: it returns a value from the
/// enclosing function, or marks a point that control never reaches.
#[derive(Debug, PartialEq, Eq)]
pub enum TerminalInstruction {
    Return(Expression),
    Unreachable,
}

impl View for TerminalInstruction {
    type V = TerminalInstructionView;

    open spec fn view(&self) -> TerminalInstructionView {
        match self {
            TerminalInstruction::Return(expression) => TerminalInstructionView::Return(expression@),
            TerminalInstruction::Unreachable => TerminalInstructionView::Unreachable,
        }
    }
}

impl Clone for TerminalInstruction {
    fn clone(&self) -> (r: Self)
        ensures
            r@ == self@,
    {
        match self {
            TerminalInstruction::Return(expression) => TerminalInstruction::Return(
                expression.clone(),
            ),
            TerminalInstruction::Unreachable => TerminalInstruction::Unreachable,
        }
    }
}

} // verus!
