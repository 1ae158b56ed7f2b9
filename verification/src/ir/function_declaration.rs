use crate::types::{Function, FunctionView};
use vstd::prelude::*;

verus! {

/// The mathematical value of a [`FunctionDeclaration`].
pub struct FunctionDeclarationView {
    pub name: Seq<char>,
    pub type_: FunctionView,
}

/// A function that is defined elsewhere: its name and its type.
#[derive(Debug, PartialEq, Eq)]
pub struct FunctionDeclaration {
    name: String,
    type_: Function,
}

impl View for FunctionDeclaration {
    type V = FunctionDeclarationView;

    closed spec fn view(&self) -> FunctionDeclarationView {
        FunctionDeclarationView { name: self.name@, type_: self.type_@ }
    }
}

impl FunctionDeclaration {
    pub fn new(name: &str, type_: Function) -> (r: Self)
        ensures
            r@ == (FunctionDeclarationView { name: name@, type_: type_@ }),
    {
        FunctionDeclaration { name: name.to_owned(), type_ }
    }

    pub fn name(&self) -> (r: &str)
        ensures
            r@ == self@.name,
    {
        self.name.as_str()
    }

    pub fn type_(&self) -> (r: &Function)
        ensures
            r@ == self@.type_,
    {
        &self.type_
    }
}

impl Clone for FunctionDeclaration {
    fn clone(&self) -> (r: Self)
        ensures
            r@ == self@,
    {
        FunctionDeclaration { name: self.name.clone(), type_: self.type_.clone() }
    }
}

} // verus!
