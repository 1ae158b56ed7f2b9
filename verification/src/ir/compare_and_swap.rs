use super::expression::{Expression, ExpressionView};
use crate::types::{Type, TypeView};
use vstd::prelude::*;

verus! {

/// The mathematical value of a [`CompareAndSwap`].
pub struct CompareAndSwapView {
    pub type_: TypeView,
    pub pointer: Box<ExpressionView>,
    pub old_value: Box<ExpressionView>,
    pub new_value: Box<ExpressionView>,
    pub name: Seq<char>,
}

/// An atomic compare-and-swap of the emitted program: it reads what
/// `pointer` points to, writes `new_value` there if what it read equals
/// `old_value`, and binds what it read to `name`. `type_` is the type of
/// the value pointed to.
#[derive(Debug, PartialEq, Eq)]
pub struct CompareAndSwap {
    type_: Type,
    pointer: Box<Expression>,
    old_value: Box<Expression>,
    new_value: Box<Expression>,
    name: String,
}

impl CompareAndSwap {
    /// The value of the instruction, by recursion on its operands.
    pub closed spec fn model(&self) -> CompareAndSwapView
        decreases self,
    {
        CompareAndSwapView {
            type_: self.type_@,
            pointer: Box::new(self.pointer.model()),
            old_value: Box::new(self.old_value.model()),
            new_value: Box::new(self.new_value.model()),
            name: self.name@,
        }
    }

    pub fn new(
        type_: Type,
        pointer: Expression,
        old_value: Expression,
        new_value: Expression,
        name: &str,
    ) -> (r: Self)
        ensures
            r@ == (CompareAndSwapView {
                type_: type_@,
                pointer: Box::new(pointer@),
                old_value: Box::new(old_value@),
                new_value: Box::new(new_value@),
                name: name@,
            }),
    {
        CompareAndSwap {
            type_,
            pointer: Box::new(pointer),
            old_value: Box::new(old_value),
            new_value: Box::new(new_value),
            name: name.to_owned(),
        }
    }

    pub fn type_(&self) -> (r: &Type)
        ensures
            r@ == self@.type_,
    {
        &self.type_
    }

    pub fn pointer(&self) -> (r: &Expression)
        ensures
            r@ == *self@.pointer,
    {
        &self.pointer
    }

    pub fn old_value(&self) -> (r: &Expression)
        ensures
            r@ == *self@.old_value,
    {
        &self.old_value
    }

    pub fn new_value(&self) -> (r: &Expression)
        ensures
            r@ == *self@.new_value,
    {
        &self.new_value
    }

    pub fn name(&self) -> (r: &str)
        ensures
            r@ == self@.name,
    {
        self.name.as_str()
    }
}

impl View for CompareAndSwap {
    type V = CompareAndSwapView;

    open spec fn view(&self) -> CompareAndSwapView {
        self.model()
    }
}

impl Clone for CompareAndSwap {
    fn clone(&self) -> (r: Self)
        ensures
            r@ == self@,
        decreases self,
    {
        CompareAndSwap {
            type_: self.type_.clone(),
            pointer: Box::new((*self.pointer).clone()),
            old_value: Box::new((*self.old_value).clone()),
            new_value: Box::new((*self.new_value).clone()),
            name: self.name.clone(),
        }
    }
}

} // verus!
