//! A mid-level intermediate representation for compiler back ends: a typed
//! program model, a builder that front ends drive, and the analysis passes
//! that a finished module goes through before it is lowered.
//!
//! * [`types`] holds the type system: scalar kinds, pointers and function
//!   types, compared structurally.
//! * [`ir`] holds the program model. Every type of it has a view, a
//!   mathematical value that the contracts speak of.
//! * [`build`] holds the builders. A [`build::ModuleBuilder`] owns what it
//!   collects, and each registration says what the module is afterwards. A
//!   [`build::BlockBuilder`] collects the instructions of one function
//!   body. The front end holds both, so it may register a nested function
//!   while it builds the body of another.
//! * [`analysis`] holds the four passes and what is proved of them: each
//!   reports the first fault in a fixed order, renaming is one-to-one and
//!   idempotent, and a module that the passes accept is accepted again once
//!   it is renamed.
//! * [`names`] holds the synthetic names that the builder makes up and that
//!   renaming hands out again.

pub mod analysis;
pub mod build;
pub mod ir;
pub mod names;
mod text;
pub mod types;
