//! The builders that a front end drives: one for a module, one for the
//! body of a function.

pub mod block_builder;
pub mod module_builder;
pub mod typed_expression;

pub use block_builder::BlockBuilder;
pub use module_builder::{ModuleBuilder, ModuleBuilderView};
pub use typed_expression::{TypedExpression, TypedExpressionView};
