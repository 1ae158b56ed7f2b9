use crate::types::{Type, TypeView};
use vstd::prelude::*;

verus! {

/// The mathematical value of a [`VariableDeclaration`].
pub struct VariableDeclarationView {
    pub name: Seq<char>,
    pub type_: TypeView,
}

/// A variable that is defined elsewhere: its name and the type of its
/// value.
#[derive(Debug, PartialEq, Eq)]
pub struct VariableDeclaration {
    name: String,
    type_: Type,
}

impl View for VariableDeclaration {
    type V = VariableDeclarationView;

    closed spec fn view(&self) -> VariableDeclarationView {
        VariableDeclarationView { name: self.name@, type_: self.type_@ }
    }
}

impl VariableDeclaration {
    pub fn new(name: &str, type_: Type) -> (r: Self)
        ensures
            r@ == (VariableDeclarationView { name: name@, type_: type_@ }),
    {
        VariableDeclaration { name: name.to_owned(), type_ }
    }

    pub fn name(&self) -> (r: &str)
        ensures
            r@ == self@.name,
    {
        self.name.as_str()
    }

    pub fn type_(&self) -> (r: &Type)
        ensures
            r@ == self@.type_,
    {
        &self.type_
    }
}

impl Clone for VariableDeclaration {
    fn clone(&self) -> (r: Self)
        ensures
            r@ == self@,
    {
        VariableDeclaration { name: self.name.clone(), type_: self.type_.clone() }
    }
}

} // verus!
