//! Expressions that carry their type.

use crate::ir::{Expression, ExpressionView};
use crate::types::{Type, TypeView};
use vstd::prelude::*;

verus! {

/// The mathematical value of a [`TypedExpression`].
pub struct TypedExpressionView {
    pub expression: ExpressionView,
    pub type_: TypeView,
}

/// An expression together with its type, which the builders work out
/// once, when they make the expression.
#[derive(Debug, PartialEq, Eq)]
pub struct TypedExpression {
    expression: Expression,
    type_: Type,
}

impl View for TypedExpression {
    type V = TypedExpressionView;

    closed spec fn view(&self) -> TypedExpressionView {
        TypedExpressionView { expression: self.expression@, type_: self.type_@ }
    }
}

impl TypedExpression {
    pub fn new(expression: Expression, type_: Type) -> (r: Self)
        ensures
            r@ == (TypedExpressionView { expression: expression@, type_: type_@ }),
    {
        TypedExpression { expression, type_ }
    }

    pub fn expression(&self) -> (r: &Expression)
        ensures
            r@ == self@.expression,
    {
        &self.expression
    }

    pub fn type_(&self) -> (r: &Type)
        ensures
            r@ == self@.type_,
    {
        &self.type_
    }

    /// The expression and its type, apart.
    pub fn into_parts(self) -> (r: (Expression, Type))
        ensures
            r.0@ == self@.expression,
            r.1@ == self@.type_,
    {
        (self.expression, self.type_)
    }
}

impl Clone for TypedExpression {
    fn clone(&self) -> (r: Self)
        ensures
            r@ == self@,
    {
        TypedExpression { expression: self.expression.clone(), type_: self.type_.clone() }
    }
}

} // verus!
