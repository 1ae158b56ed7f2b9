//! The builder of the body of a function.

use super::typed_expression::{TypedExpression, TypedExpressionView};
use crate::ir::{
    Block, BlockView, CompareAndSwap, CompareAndSwapView, ComparisonOperation,
    ComparisonOperationView, ComparisonOperator, Expression, ExpressionView, Instruction,
    InstructionView, TerminalInstruction, TerminalInstructionView, Variable,
};
use crate::types::{views, Primitive, Type, TypeView};
use vstd::prelude::*;

verus! {

/// The builder of the body of one function. It takes instructions one
/// after the other, and a terminal instruction closes it: closing takes
/// the builder, so it makes one block and nothing is added afterwards.
/// Its view is the instructions that it holds, in order.
#[derive(Debug)]
pub struct BlockBuilder {
    instructions: Vec<Instruction>,
}

impl View for BlockBuilder {
    type V = Seq<InstructionView>;

    closed spec fn view(&self) -> Seq<InstructionView> {
        views(self.instructions@)
    }
}

impl BlockBuilder {
    /// A builder that holds no instruction.
    pub fn new() -> (r: Self)
        ensures
            r@ == Seq::<InstructionView>::empty(),
    {
        let r = BlockBuilder { instructions: Vec::new() };
        assert(r@ =~= Seq::<InstructionView>::empty());
        r
    }

    /// Adds an instruction at the end.
    pub fn add_instruction(&mut self, instruction: Instruction)
        ensures
            final(self)@ == old(self)@.push(instruction@),
    {
        self.instructions.push(instruction);
        assert(self@ =~= old(self)@.push(instruction@));
    }

    /// Adds the comparison of two values of kind `type_`, and returns
    /// its result: a reference to `name`, of boolean type.
    pub fn compare(
        &mut self,
        type_: Primitive,
        operator: ComparisonOperator,
        lhs: TypedExpression,
        rhs: TypedExpression,
        name: &str,
    ) -> (r: TypedExpression)
        ensures
            final(self)@ == old(self)@.push(
                InstructionView::ComparisonOperation(
                    ComparisonOperationView {
                        type_,
                        operator,
                        lhs: Box::new(lhs@.expression),
                        rhs: Box::new(rhs@.expression),
                        name: name@,
                    },
                ),
            ),
            r@ == (TypedExpressionView {
                expression: ExpressionView::Variable(name@),
                type_: TypeView::Primitive(Primitive::Boolean),
            }),
    {
        let (lhs, _) = lhs.into_parts();
        let (rhs, _) = rhs.into_parts();
        self.add_instruction(
            Instruction::ComparisonOperation(
                ComparisonOperation::new(type_, operator, lhs, rhs, name),
            ),
        );
        TypedExpression::new(
            Expression::Variable(Variable::new(name)),
            Type::Primitive(Primitive::Boolean),
        )
    }

    /// Adds a compare-and-swap on values of the type of `old_value`, and
    /// returns its result: a reference to `name`, of that type.
    pub fn compare_and_swap(
        &mut self,
        pointer: TypedExpression,
        old_value: TypedExpression,
        new_value: TypedExpression,
        name: &str,
    ) -> (r: TypedExpression)
        ensures
            final(self)@ == old(self)@.push(
                InstructionView::CompareAndSwap(
                    CompareAndSwapView {
                        type_: old_value@.type_,
                        pointer: Box::new(pointer@.expression),
                        old_value: Box::new(old_value@.expression),
                        new_value: Box::new(new_value@.expression),
                        name: name@,
                    },
                ),
            ),
            r@ == (TypedExpressionView {
                expression: ExpressionView::Variable(name@),
                type_: old_value@.type_,
            }),
    {
        let (pointer, _) = pointer.into_parts();
        let (old_value, type_) = old_value.into_parts();
        let (new_value, _) = new_value.into_parts();
        self.add_instruction(
            Instruction::CompareAndSwap(
                CompareAndSwap::new(type_.clone(), pointer, old_value, new_value, name),
            ),
        );
        TypedExpression::new(Expression::Variable(Variable::new(name)), type_)
    }

    /// Closes the block with the return of `value`.
    pub fn return_(self, value: TypedExpression) -> (r: Block)
        ensures
            r@ == (BlockView {
                instructions: self@,
                terminal_instruction: TerminalInstructionView::Return(value@.expression),
            }),
    {
        let (expression, _) = value.into_parts();
        Block::new(self.instructions, TerminalInstruction::Return(expression))
    }

    /// Closes the block at a point that control never reaches.
    pub fn unreachable(self) -> (r: Block)
        ensures
            r@ == (BlockView {
                instructions: self@,
                terminal_instruction: TerminalInstructionView::Unreachable,
            }),
    {
        Block::new(self.instructions, TerminalInstruction::Unreachable)
    }
}

impl Default for BlockBuilder {
    fn default() -> (r: Self)
        ensures
            r@ == Seq::<InstructionView>::empty(),
    {
        BlockBuilder::new()
    }
}

} // verus!
