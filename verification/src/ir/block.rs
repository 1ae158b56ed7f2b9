use super::instruction::{Instruction, InstructionView};
use super::terminal_instruction::{TerminalInstruction, TerminalInstructionView};
use crate::types::views;
use vstd::prelude::*;

verus! {

/// The mathematical value of a [`Block`].
pub struct BlockView {
    pub instructions: Seq<InstructionView>,
    pub terminal_instruction: TerminalInstructionView,
}

/// A straight line of instructions and the one terminal instruction that
/// ends it. Nothing follows the terminal instruction, and no instruction
/// before it leaves the block.
#[derive(Debug, PartialEq, Eq)]
pub struct Block {
    instructions: Vec<Instruction>,
    terminal_instruction: TerminalInstruction,
}

impl View for Block {
    type V = BlockView;

    closed spec fn view(&self) -> BlockView {
        BlockView {
            instructions: views(self.instructions@),
            terminal_instruction: self.terminal_instruction@,
        }
    }
}

impl Block {
    pub fn new(instructions: Vec<Instruction>, terminal_instruction: TerminalInstruction) -> (r:
        Self)
        ensures
            r@ == (BlockView {
                instructions: views(instructions@),
                terminal_instruction: terminal_instruction@,
            }),
    {
        Block { instructions, terminal_instruction }
    }

    pub fn instructions(&self) -> (r: &[Instruction])
        ensures
            views(r@) == self@.instructions,
    {
        self.instructions.as_slice()
    }

    /// A block holds no more instructions than a machine can index.
    pub proof fn lemma_representable(&self)
        ensures
            self@.instructions.len() <= usize::MAX,
    {
        assert(self.instructions@.len() == self.instructions.len());
    }

    pub fn terminal_instruction(&self) -> (r: &TerminalInstruction)
        ensures
            r@ == self@.terminal_instruction,
    {
        &self.terminal_instruction
    }
}

impl Clone for Block {
    fn clone(&self) -> (r: Self)
        ensures
            r@ == self@,
    {
        let instructions = self.instructions.clone();
        assert(views(instructions@) =~= views(self.instructions@));
        Block { instructions, terminal_instruction: self.terminal_instruction.clone() }
    }
}

} // verus!
