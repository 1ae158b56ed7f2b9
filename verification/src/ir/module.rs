use super::function_declaration::{FunctionDeclaration, FunctionDeclarationView};
use super::function_definition::{FunctionDefinition, FunctionDefinitionView};
use super::variable_declaration::{VariableDeclaration, VariableDeclarationView};
use super::variable_definition::{VariableDefinition, VariableDefinitionView};
use crate::types::views;
use vstd::prelude::*;

verus! {

/// The mathematical value of a [`Module`]: its four collections, each in
/// the order in which its entries were registered.
pub struct ModuleView {
    pub variable_declarations: Seq<VariableDeclarationView>,
    pub function_declarations: Seq<FunctionDeclarationView>,
    pub variable_definitions: Seq<VariableDefinitionView>,
    pub function_definitions: Seq<FunctionDefinitionView>,
}

impl ModuleView {
    /// The module that registers nothing.
    pub open spec fn empty() -> ModuleView {
        ModuleView {
            variable_declarations: Seq::empty(),
            function_declarations: Seq::empty(),
            variable_definitions: Seq::empty(),
            function_definitions: Seq::empty(),
        }
    }

    /// The module with one more variable declaration, after the others.
    pub open spec fn with_variable_declaration(
        self,
        declaration: VariableDeclarationView,
    ) -> ModuleView {
        ModuleView {
            variable_declarations: self.variable_declarations.push(declaration),
            ..self
        }
    }

    /// The module with one more function declaration, after the others.
    pub open spec fn with_function_declaration(
        self,
        declaration: FunctionDeclarationView,
    ) -> ModuleView {
        ModuleView {
            function_declarations: self.function_declarations.push(declaration),
            ..self
        }
    }

    /// The module with one more variable definition, after the others.
    pub open spec fn with_variable_definition(
        self,
        definition: VariableDefinitionView,
    ) -> ModuleView {
        ModuleView { variable_definitions: self.variable_definitions.push(definition), ..self }
    }

    /// The module with one more function definition, after the others.
    pub open spec fn with_function_definition(
        self,
        definition: FunctionDefinitionView,
    ) -> ModuleView {
        ModuleView { function_definitions: self.function_definitions.push(definition), ..self }
    }

    /// Whether a machine can hold a module of this value: it can index
    /// its function definitions, and the instructions of each.
    pub open spec fn representable(self) -> bool {
        &&& self.function_definitions.len() <= usize::MAX
        &&& forall|k: int|
            0 <= k < self.function_definitions.len() ==> (
            #[trigger] self.function_definitions[k]).body.instructions.len() <= usize::MAX
    }
}

/// A finished program: the declarations and definitions of its variables
/// and functions. It offers no way to change it.
#[derive(Debug, PartialEq, Eq)]
pub struct Module {
    variable_declarations: Vec<VariableDeclaration>,
    function_declarations: Vec<FunctionDeclaration>,
    variable_definitions: Vec<VariableDefinition>,
    function_definitions: Vec<FunctionDefinition>,
}

impl View for Module {
    type V = ModuleView;

    closed spec fn view(&self) -> ModuleView {
        ModuleView {
            variable_declarations: views(self.variable_declarations@),
            function_declarations: views(self.function_declarations@),
            variable_definitions: views(self.variable_definitions@),
            function_definitions: views(self.function_definitions@),
        }
    }
}

impl Module {
    pub fn new(
        variable_declarations: Vec<VariableDeclaration>,
        function_declarations: Vec<FunctionDeclaration>,
        variable_definitions: Vec<VariableDefinition>,
        function_definitions: Vec<FunctionDefinition>,
    ) -> (r: Self)
        ensures
            r@ == (ModuleView {
                variable_declarations: views(variable_declarations@),
                function_declarations: views(function_declarations@),
                variable_definitions: views(variable_definitions@),
                function_definitions: views(function_definitions@),
            }),
    {
        Module {
            variable_declarations,
            function_declarations,
            variable_definitions,
            function_definitions,
        }
    }

    /// A machine can hold the value of every module.
    pub proof fn lemma_representable(&self)
        ensures
            self@.representable(),
    {
        assert(self.function_definitions@.len() == self.function_definitions.len());
        assert forall|k: int| 0 <= k < self@.function_definitions.len() implies (
        #[trigger] self@.function_definitions[k]).body.instructions.len() <= usize::MAX by {
            self.function_definitions@[k].lemma_representable();
        }
    }

    pub fn variable_declarations(&self) -> (r: &[VariableDeclaration])
        ensures
            views(r@) == self@.variable_declarations,
    {
        self.variable_declarations.as_slice()
    }

    pub fn function_declarations(&self) -> (r: &[FunctionDeclaration])
        ensures
            views(r@) == self@.function_declarations,
    {
        self.function_declarations.as_slice()
    }

    pub fn variable_definitions(&self) -> (r: &[VariableDefinition])
        ensures
            views(r@) == self@.variable_definitions,
    {
        self.variable_definitions.as_slice()
    }

    pub fn function_definitions(&self) -> (r: &[FunctionDefinition])
        ensures
            views(r@) == self@.function_definitions,
    {
        self.function_definitions.as_slice()
    }
}

impl Clone for Module {
    fn clone(&self) -> (r: Self)
        ensures
            r@ == self@,
    {
        let variable_declarations = self.variable_declarations.clone();
        let function_declarations = self.function_declarations.clone();
        let variable_definitions = self.variable_definitions.clone();
        let function_definitions = self.function_definitions.clone();
        assert(views(variable_declarations@) =~= views(self.variable_declarations@));
        assert(views(function_declarations@) =~= views(self.function_declarations@));
        assert(views(variable_definitions@) =~= views(self.variable_definitions@));
        assert(views(function_definitions@) =~= views(self.function_definitions@));
        Module {
            variable_declarations,
            function_declarations,
            variable_definitions,
            function_definitions,
        }
    }
}

} // verus!
