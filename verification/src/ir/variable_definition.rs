use super::expression::{Expression, ExpressionView};
use crate::types::{Type, TypeView};
use vstd::prelude::*;

verus! {

/// The mathematical value of a [`VariableDefinition`].
pub struct VariableDefinitionView {
    pub name: Seq<char>,
    pub body: ExpressionView,
    pub type_: TypeView,
    pub mutable: bool,
    pub global: bool,
}

/// A variable with the expression that initialises it. `type_` is the
/// type of its value. A mutable variable may be written through its
/// address. A global variable lives as long as the program; one that is
/// not global lives in the body of the first function definition that
/// uses it.
#[derive(Debug, PartialEq, Eq)]
pub struct VariableDefinition {
    name: String,
    body: Expression,
    type_: Type,
    mutable: bool,
    global: bool,
}

impl View for VariableDefinition {
    type V = VariableDefinitionView;

    closed spec fn view(&self) -> VariableDefinitionView {
        VariableDefinitionView {
            name: self.name@,
            body: self.body@,
            type_: self.type_@,
            mutable: self.mutable,
            global: self.global,
        }
    }
}

impl VariableDefinition {
    pub fn new(name: &str, body: Expression, type_: Type, mutable: bool, global: bool) -> (r: Self)
        ensures
            r@ == (VariableDefinitionView {
                name: name@,
                body: body@,
                type_: type_@,
                mutable,
                global,
            }),
    {
        VariableDefinition { name: name.to_owned(), body, type_, mutable, global }
    }

    pub fn name(&self) -> (r: &str)
        ensures
            r@ == self@.name,
    {
        self.name.as_str()
    }

    pub fn body(&self) -> (r: &Expression)
        ensures
            r@ == self@.body,
    {
        &self.body
    }

    pub fn type_(&self) -> (r: &Type)
        ensures
            r@ == self@.type_,
    {
        &self.type_
    }

    pub fn is_mutable(&self) -> (r: bool)
        ensures
            r == self@.mutable,
    {
        self.mutable
    }

    pub fn is_global(&self) -> (r: bool)
        ensures
            r == self@.global,
    {
        self.global
    }
}

impl Clone for VariableDefinition {
    fn clone(&self) -> (r: Self)
        ensures
            r@ == self@,
    {
        VariableDefinition {
            name: self.name.clone(),
            body: self.body.clone(),
            type_: self.type_.clone(),
            mutable: self.mutable,
            global: self.global,
        }
    }
}

} // verus!
