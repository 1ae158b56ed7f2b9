use crate::types::{Type, TypeView};
use vstd::prelude::*;

verus! {

/// The mathematical value of an [`Argument`].
pub struct ArgumentView {
    pub name: Seq<char>,
    pub type_: TypeView,
}

/// A parameter of a function: its name and its type.
#[derive(Debug, PartialEq, Eq)]
pub struct Argument {
    name: String,
    type_: Type,
}

impl View for Argument {
    type V = ArgumentView;

    closed spec fn view(&self) -> ArgumentView {
        ArgumentView { name: self.name@, type_: self.type_@ }
    }
}

impl Argument {
    pub fn new(name: &str, type_: Type) -> (r: Self)
        ensures
            r@ == (ArgumentView { name: name@, type_: type_@ }),
    {
        Argument { name: name.to_owned(), type_ }
    }

    pub fn name(&self) -> (r: &str)
        ensures
            r@ == self@.name,
    {
        self.name.as_str()
    }

    pub fn type_(&self) -> (r: &Type)
        ensures
            r@ == self@.type_,
    {
        &self.type_
    }
}

impl Clone for Argument {
    fn clone(&self) -> (r: Self)
        ensures
            r@ == self@,
    {
        Argument { name: self.name.clone(), type_: self.type_.clone() }
    }
}

} // verus!
