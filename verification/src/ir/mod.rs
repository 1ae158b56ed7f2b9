//! The program model: expressions, instructions, blocks, declarations,
//! definitions and the module that holds them.

mod argument;
mod block;
mod compare_and_swap;
mod comparison_operation;
mod expression;
mod function_declaration;
mod function_definition;
mod instruction;
mod module;
mod terminal_instruction;
mod variable;
mod variable_declaration;
mod variable_definition;

pub use argument::{Argument, ArgumentView};
pub use block::{Block, BlockView};
pub use compare_and_swap::{CompareAndSwap, CompareAndSwapView};
pub use comparison_operation::{ComparisonOperation, ComparisonOperationView, ComparisonOperator};
pub use expression::{Expression, ExpressionView};
pub use function_declaration::{FunctionDeclaration, FunctionDeclarationView};
pub use function_definition::{FunctionDefinition, FunctionDefinitionView};
pub use instruction::{Instruction, InstructionView};
pub use module::{Module, ModuleView};
pub use terminal_instruction::{TerminalInstruction, TerminalInstructionView};
pub use variable::Variable;
pub use variable_declaration::{VariableDeclaration, VariableDeclarationView};
pub use variable_definition::{VariableDefinition, VariableDefinitionView};
