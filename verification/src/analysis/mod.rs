//! The passes that a finished module goes through, in this order: type
//! collection, type check, lifetime check, renaming. Each takes the
//! module as it is and either reports the first fault it finds or hands
//! on its result; none changes the module it was given.

pub mod fault;
pub mod lifetime_check;
pub mod pipeline;
pub mod preservation;
pub mod renaming;
pub mod stability;
pub mod symbol_table;
pub mod type_check;
pub mod type_collection;

pub use fault::{Fault, FaultKind, FaultView};
pub use lifetime_check::{
    check_expression_lifetimes, check_function_lifetimes, check_lifetimes, Place,
};
pub use pipeline::analyze;
pub use renaming::rename;
pub use symbol_table::SymbolTable;
pub use type_check::{
    check_function, check_operand, check_types, type_of, type_of_compare_and_swap,
    type_of_comparison,
};
pub use type_collection::{collect_types, SymbolKind, SymbolView};
