use super::expression::{Expression, ExpressionView};
use crate::types::Primitive;
use vstd::prelude::*;

verus! {

#[derive(Clone, Copy, Debug, PartialEq, Eq, Hash, Structural)]
pub enum ComparisonOperator {
    Equal,
    NotEqual,
    LessThan,
    GreaterThan,
    LessThanOrEqual,
    GreaterThanOrEqual,
}

impl ComparisonOperator {
    /// Whether the operator asks for an order on its operands. `Equal`
    /// and `NotEqual` do not.
    pub open spec fn ordering(self) -> bool {
        self != ComparisonOperator::Equal && self != ComparisonOperator::NotEqual
    }

    pub fn is_ordering(self) -> (r: bool)
        ensures
            r == self.ordering(),
    {
        !matches!(self, ComparisonOperator::Equal | ComparisonOperator::NotEqual)
    }

    /// Whether the operator is defined on operands of kind `type_`: the
    /// two equality operators on every kind, the others on ordered kinds.
    pub open spec fn defined_for(self, type_: Primitive) -> bool {
        self.ordering() ==> type_.ordered()
    }

    pub fn is_defined_for(self, type_: Primitive) -> (r: bool)
        ensures
            r == self.defined_for(type_),
    {
        !self.is_ordering() || type_.is_ordered()
    }
}

/// The mathematical value of a [`ComparisonOperation`].
pub struct ComparisonOperationView {
    pub type_: Primitive,
    pub operator: ComparisonOperator,
    pub lhs: Box<ExpressionView>,
    pub rhs: Box<ExpressionView>,
    pub name: Seq<char>,
}

/// The comparison of two operands of one scalar kind. Its result, a
/// boolean, is bound to `name`.
#[derive(Debug, PartialEq, Eq)]
pub struct ComparisonOperation {
    type_: Primitive,
    operator: ComparisonOperator,
    lhs: Box<Expression>,
    rhs: Box<Expression>,
    name: String,
}

impl ComparisonOperation {
    /// The value of the operation, by recursion on its operands.
    pub closed spec fn model(&self) -> ComparisonOperationView
        decreases self,
    {
        ComparisonOperationView {
            type_: self.type_,
            operator: self.operator,
            lhs: Box::new(self.lhs.model()),
            rhs: Box::new(self.rhs.model()),
            name: self.name@,
        }
    }

    pub fn new(
        type_: Primitive,
        operator: ComparisonOperator,
        lhs: Expression,
        rhs: Expression,
        name: &str,
    ) -> (r: Self)
        ensures
            r@ == (ComparisonOperationView {
                type_,
                operator,
                lhs: Box::new(lhs@),
                rhs: Box::new(rhs@),
                name: name@,
            }),
    {
        ComparisonOperation {
            type_,
            operator,
            lhs: Box::new(lhs),
            rhs: Box::new(rhs),
            name: name.to_owned(),
        }
    }

    pub fn type_(&self) -> (r: Primitive)
        ensures
            r == self@.type_,
    {
        self.type_
    }

    pub fn operator(&self) -> (r: ComparisonOperator)
        ensures
            r == self@.operator,
    {
        self.operator
    }

    pub fn lhs(&self) -> (r: &Expression)
        ensures
            r@ == *self@.lhs,
    {
        &self.lhs
    }

    pub fn rhs(&self) -> (r: &Expression)
        ensures
            r@ == *self@.rhs,
    {
        &self.rhs
    }

    pub fn name(&self) -> (r: &str)
        ensures
            r@ == self@.name,
    {
        self.name.as_str()
    }
}

impl View for ComparisonOperation {
    type V = ComparisonOperationView;

    open spec fn view(&self) -> ComparisonOperationView {
        self.model()
    }
}

impl Clone for ComparisonOperation {
    fn clone(&self) -> (r: Self)
        ensures
            r@ == self@,
        decreases self,
    {
        ComparisonOperation {
            type_: self.type_,
            operator: self.operator,
            lhs: Box::new((*self.lhs).clone()),
            rhs: Box::new((*self.rhs).clone()),
            name: self.name.clone(),
        }
    }
}

} // verus!
