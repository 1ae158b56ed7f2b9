use super::argument::{Argument, ArgumentView};
use super::block::{Block, BlockView};
use crate::types::{views, Function, FunctionView, Type, TypeView};
use vstd::prelude::*;

verus! {

/// The mathematical value of a [`FunctionDefinition`].
pub struct FunctionDefinitionView {
    pub name: Seq<char>,
    pub arguments: Seq<ArgumentView>,
    pub body: BlockView,
    pub result_type: TypeView,
    pub global: bool,
}

impl FunctionDefinitionView {
    /// The type of the function: the types of its arguments in order, and
    /// its result type.
    pub open spec fn type_(self) -> FunctionView {
        FunctionView {
            arguments: Seq::new(self.arguments.len(), |i: int| self.arguments[i].type_),
            result: Box::new(self.result_type),
        }
    }
}

/// A function with its body. A global function is visible outside the
/// module.
#[derive(Debug, PartialEq, Eq)]
pub struct FunctionDefinition {
    name: String,
    arguments: Vec<Argument>,
    body: Block,
    result_type: Type,
    global: bool,
}

impl View for FunctionDefinition {
    type V = FunctionDefinitionView;

    closed spec fn view(&self) -> FunctionDefinitionView {
        FunctionDefinitionView {
            name: self.name@,
            arguments: views(self.arguments@),
            body: self.body@,
            result_type: self.result_type@,
            global: self.global,
        }
    }
}

impl FunctionDefinition {
    pub fn new(
        name: &str,
        arguments: Vec<Argument>,
        body: Block,
        result_type: Type,
        global: bool,
    ) -> (r: Self)
        ensures
            r@ == (FunctionDefinitionView {
                name: name@,
                arguments: views(arguments@),
                body: body@,
                result_type: result_type@,
                global,
            }),
    {
        FunctionDefinition { name: name.to_owned(), arguments, body, result_type, global }
    }

    pub fn name(&self) -> (r: &str)
        ensures
            r@ == self@.name,
    {
        self.name.as_str()
    }

    pub fn arguments(&self) -> (r: &[Argument])
        ensures
            views(r@) == self@.arguments,
    {
        self.arguments.as_slice()
    }

    pub fn body(&self) -> (r: &Block)
        ensures
            r@ == self@.body,
    {
        &self.body
    }

    pub fn result_type(&self) -> (r: &Type)
        ensures
            r@ == self@.result_type,
    {
        &self.result_type
    }

    pub fn is_global(&self) -> (r: bool)
        ensures
            r == self@.global,
    {
        self.global
    }

    /// The body of a function holds no more instructions than a machine
    /// can index.
    pub proof fn lemma_representable(&self)
        ensures
            self@.body.instructions.len() <= usize::MAX,
    {
        self.body.lemma_representable();
    }

    /// The type of the function.
    pub fn type_(&self) -> (r: Function)
        ensures
            r@ == self@.type_(),
    {
        let types = argument_types(self.arguments.as_slice());
        let r = Function::new(types, self.result_type.clone());
        assert(r@.arguments =~= self@.type_().arguments);
        r
    }
}

/// The types of `arguments`, in order.
fn argument_types(arguments: &[Argument]) -> (r: Vec<Type>)
    ensures
        r.len() == arguments.len(),
        forall|i: int| 0 <= i < r.len() ==> r[i]@ == arguments[i]@.type_,
{
    let mut r: Vec<Type> = Vec::new();
    let mut i: usize = 0;
    while i < arguments.len()
        invariant
            i <= arguments.len(),
            r.len() == i,
            forall|j: int| 0 <= j < i ==> r[j]@ == arguments[j]@.type_,
        decreases arguments.len() - i,
    {
        r.push(arguments[i].type_().clone());
        i += 1;
    }
    r
}

impl Clone for FunctionDefinition {
    fn clone(&self) -> (r: Self)
        ensures
            r@ == self@,
    {
        let arguments = self.arguments.clone();
        assert(views(arguments@) =~= views(self.arguments@));
        FunctionDefinition {
            name: self.name.clone(),
            arguments,
            body: self.body.clone(),
            result_type: self.result_type.clone(),
            global: self.global,
        }
    }
}

} // verus!
