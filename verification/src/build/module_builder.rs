//! The builder of a module.

use super::block_builder::BlockBuilder;
use super::typed_expression::{TypedExpression, TypedExpressionView};
use crate::ir::{
    Argument, ArgumentView, Block, BlockView, Expression, ExpressionView, FunctionDeclaration,
    FunctionDeclarationView, FunctionDefinition, FunctionDefinitionView, InstructionView, Module,
    ModuleView, Variable, VariableDeclaration, VariableDeclarationView, VariableDefinition,
    VariableDefinitionView,
};
use crate::names::{lemma_synthetic_names_distinct, make_synthetic_name, synthetic_name};
use crate::types::{views, Function, FunctionView, Type, TypeView};
use vstd::prelude::*;

verus! {

/// The mathematical value of a [`ModuleBuilder`]: the number of the next
/// synthetic name, and the module registered so far.
pub struct ModuleBuilderView {
    pub name_index: nat,
    pub module: ModuleView,
}

/// The number of numbers that a synthetic name can carry. The counter of
/// a builder starts again at zero after that many names.
pub open spec fn name_limit() -> nat {
    0x1_0000_0000_0000_0000
}

/// The name that a builder hands out at the call of `generate_name` that
/// comes after `calls` others.
pub open spec fn generated_name(builder: ModuleBuilderView, calls: nat) -> Seq<char> {
    synthetic_name(((builder.name_index + calls) % name_limit()) as nat)
}

impl ModuleBuilderView {
    /// The builder after one call of `generate_name`.
    pub open spec fn advanced(self) -> ModuleBuilderView {
        ModuleBuilderView {
            name_index: ((self.name_index + 1) % name_limit()) as nat,
            module: self.module,
        }
    }

    /// The builder after the registration of a function definition.
    pub open spec fn with_function(
        self,
        name: Seq<char>,
        arguments: Seq<ArgumentView>,
        body: BlockView,
        result_type: TypeView,
        global: bool,
    ) -> ModuleBuilderView {
        ModuleBuilderView {
            name_index: self.name_index,
            module: self.module.with_function_definition(
                FunctionDefinitionView { name, arguments, body, result_type, global },
            ),
        }
    }
}

/// The handle to a function defined with these arguments and this
/// result type: a reference to its name, of its function type.
pub open spec fn function_handle(
    name: Seq<char>,
    arguments: Seq<ArgumentView>,
    result_type: TypeView,
) -> TypedExpressionView {
    TypedExpressionView {
        expression: ExpressionView::Variable(name),
        type_: TypeView::Function(
            FunctionView {
                arguments: Seq::new(arguments.len(), |i: int| arguments[i].type_),
                result: Box::new(result_type),
            },
        ),
    }
}

/// The calls of `generate_name` on one builder hand out different names,
/// as long as there are no more of them than a counter has values.
pub proof fn lemma_generated_names_distinct(builder: ModuleBuilderView, i: nat, j: nat)
    requires
        i < j,
        j - i < name_limit(),
    ensures
        generated_name(builder, i) != generated_name(builder, j),
{
    let a = (builder.name_index + i) % name_limit();
    let b = (builder.name_index + j) % name_limit();
    assert(a != b) by {
        let m = name_limit() as int;
        let x = (builder.name_index + i) as int;
        let y = (builder.name_index + j) as int;
        if x % m == y % m {
            vstd::arithmetic::div_mod::lemma_fundamental_div_mod(x, m);
            vstd::arithmetic::div_mod::lemma_fundamental_div_mod(y, m);
            assert(y - x == m * (y / m) - m * (x / m));
            assert(y - x == m * ((y / m) - (x / m))) by (nonlinear_arith)
                requires
                    y - x == m * (y / m) - m * (x / m),
            ;
            assert(false) by (nonlinear_arith)
                requires
                    0 < y - x < m,
                    y - x == m * ((y / m) - (x / m)),
            ;
        }
    }
    lemma_synthetic_names_distinct(a as nat, b as nat);
}

/// The name that comes after `calls` others from a builder that has
/// handed out one name is the name that comes after `calls + 1` others
/// from the builder as it was.
pub proof fn lemma_generated_name_after(builder: ModuleBuilderView, calls: nat)
    ensures
        generated_name(builder.advanced(), calls) == generated_name(builder, calls + 1),
{
    let m = name_limit() as int;
    let a = builder.name_index as int;
    assert(((a + 1) % m + calls) % m == (a + calls + 1) % m) by {
        vstd::arithmetic::div_mod::lemma_add_mod_noop(a + 1, calls as int, m);
        vstd::arithmetic::div_mod::lemma_mod_twice(a + 1, m);
        vstd::arithmetic::div_mod::lemma_add_mod_noop((a + 1) % m, calls as int, m);
    }
}

/// The builder of a module. It collects declarations and definitions in
/// the order in which they are registered, hands back a typed handle to
/// each, and makes up names that differ from one another. Nothing that
/// was registered is removed, changed or moved.
#[derive(Debug)]
pub struct ModuleBuilder {
    name_index: u64,
    variable_declarations: Vec<VariableDeclaration>,
    function_declarations: Vec<FunctionDeclaration>,
    variable_definitions: Vec<VariableDefinition>,
    function_definitions: Vec<FunctionDefinition>,
}

impl View for ModuleBuilder {
    type V = ModuleBuilderView;

    closed spec fn view(&self) -> ModuleBuilderView {
        ModuleBuilderView {
            name_index: self.name_index as nat,
            module: ModuleView {
                variable_declarations: views(self.variable_declarations@),
                function_declarations: views(self.function_declarations@),
                variable_definitions: views(self.variable_definitions@),
                function_definitions: views(self.function_definitions@),
            },
        }
    }
}

impl ModuleBuilder {
    /// A builder with nothing registered, whose first name has number 0.
    pub fn new() -> (r: Self)
        ensures
            r@ == (ModuleBuilderView { name_index: 0, module: ModuleView::empty() }),
    {
        let r = ModuleBuilder {
            name_index: 0,
            variable_declarations: Vec::new(),
            function_declarations: Vec::new(),
            variable_definitions: Vec::new(),
            function_definitions: Vec::new(),
        };
        assert(r@.module.variable_declarations =~= Seq::empty());
        assert(r@.module.function_declarations =~= Seq::empty());
        assert(r@.module.variable_definitions =~= Seq::empty());
        assert(r@.module.function_definitions =~= Seq::empty());
        r
    }

    /// The module registered so far. The builder stays as it is.
    pub fn as_module(&self) -> (r: Module)
        ensures
            r@ == self@.module,
    {
        let variable_declarations = self.variable_declarations.clone();
        let function_declarations = self.function_declarations.clone();
        let variable_definitions = self.variable_definitions.clone();
        let function_definitions = self.function_definitions.clone();
        assert(views(variable_declarations@) =~= views(self.variable_declarations@));
        assert(views(function_declarations@) =~= views(self.function_declarations@));
        assert(views(variable_definitions@) =~= views(self.variable_definitions@));
        assert(views(function_definitions@) =~= views(self.function_definitions@));
        Module::new(
            variable_declarations,
            function_declarations,
            variable_definitions,
            function_definitions,
        )
    }

    /// Registers the declaration of a variable, and returns the handle to
    /// it: a reference to its name, of the type of a pointer to `type_`.
    pub fn declare_variable(&mut self, name: &str, type_: Type) -> (r: TypedExpression)
        ensures
            final(self)@ == (ModuleBuilderView {
                name_index: old(self)@.name_index,
                module: old(self)@.module.with_variable_declaration(
                    VariableDeclarationView { name: name@, type_: type_@ },
                ),
            }),
            r@ == (TypedExpressionView {
                expression: ExpressionView::Variable(name@),
                type_: TypeView::Pointer(Box::new(type_@)),
            }),
    {
        self.variable_declarations.push(VariableDeclaration::new(name, type_.clone()));
        assert(self@.module.variable_declarations =~= old(
            self,
        )@.module.variable_declarations.push(
            VariableDeclarationView { name: name@, type_: type_@ },
        ));
        TypedExpression::new(Expression::Variable(Variable::new(name)), Type::pointer(type_))
    }

    /// Registers the declaration of a function, and returns the handle
    /// to it: a reference to its name, of type `type_` itself.
    pub fn declare_function(&mut self, name: &str, type_: Function) -> (r: TypedExpression)
        ensures
            final(self)@ == (ModuleBuilderView {
                name_index: old(self)@.name_index,
                module: old(self)@.module.with_function_declaration(
                    FunctionDeclarationView { name: name@, type_: type_@ },
                ),
            }),
            r@ == (TypedExpressionView {
                expression: ExpressionView::Variable(name@),
                type_: TypeView::Function(type_@),
            }),
    {
        self.function_declarations.push(FunctionDeclaration::new(name, type_.clone()));
        assert(self@.module.function_declarations =~= old(
            self,
        )@.module.function_declarations.push(
            FunctionDeclarationView { name: name@, type_: type_@ },
        ));
        TypedExpression::new(Expression::Variable(Variable::new(name)), Type::Function(type_))
    }

    /// Registers the definition of a variable whose initial value and
    /// type are those of `body`, and returns the handle to it: a
    /// reference to its name, of the type of a pointer to that type.
    pub fn define_variable(
        &mut self,
        name: &str,
        body: TypedExpression,
        mutable: bool,
        global: bool,
    ) -> (r: TypedExpression)
        ensures
            final(self)@ == (ModuleBuilderView {
                name_index: old(self)@.name_index,
                module: old(self)@.module.with_variable_definition(
                    VariableDefinitionView {
                        name: name@,
                        body: body@.expression,
                        type_: body@.type_,
                        mutable,
                        global,
                    },
                ),
            }),
            r@ == (TypedExpressionView {
                expression: ExpressionView::Variable(name@),
                type_: TypeView::Pointer(Box::new(body@.type_)),
            }),
    {
        let ghost registered = VariableDefinitionView {
            name: name@,
            body: body@.expression,
            type_: body@.type_,
            mutable,
            global,
        };
        let (expression, type_) = body.into_parts();
        self.variable_definitions.push(
            VariableDefinition::new(name, expression, type_.clone(), mutable, global),
        );
        assert(self@.module.variable_definitions =~= old(self)@.module.variable_definitions.push(
            registered,
        ));
        TypedExpression::new(Expression::Variable(Variable::new(name)), Type::pointer(type_))
    }

    /// Registers the definition of a function whose body is `body`, and
    /// returns the handle to it: a reference to its name, of the
    /// function type that its arguments and `result_type` make.
    pub fn define_function_from_block(
        &mut self,
        name: &str,
        arguments: Vec<Argument>,
        body: Block,
        result_type: Type,
        global: bool,
    ) -> (r: TypedExpression)
        ensures
            final(self)@ == old(self)@.with_function(
                name@,
                views(arguments@),
                body@,
                result_type@,
                global,
            ),
            r@ == function_handle(name@, views(arguments@), result_type@),
    {
        let definition = FunctionDefinition::new(name, arguments, body, result_type, global);
        let type_ = definition.type_();
        self.function_definitions.push(definition);
        assert(self@.module.function_definitions =~= old(self)@.module.function_definitions.push(
            definition@,
        ));
        let r = TypedExpression::new(
            Expression::Variable(Variable::new(name)),
            Type::Function(type_),
        );
        assert(type_@.arguments =~= function_handle(
            name@,
            views(arguments@),
            result_type@,
        ).type_->Function_0.arguments);
        r
    }

    /// Registers the definition of a function whose body is what `body`
    /// makes of a block builder that holds no instruction, and returns
    /// the handle to it.
    pub fn define_function<F: FnOnce(BlockBuilder) -> Block>(
        &mut self,
        name: &str,
        arguments: Vec<Argument>,
        body: F,
        result_type: Type,
        global: bool,
    ) -> (r: TypedExpression)
        requires
            forall|builder: BlockBuilder|
                builder@ == Seq::<InstructionView>::empty() ==> call_requires(body, (builder,)),
        ensures
            exists|builder: BlockBuilder, block: Block|
                builder@ == Seq::<InstructionView>::empty() && call_ensures(
                    body,
                    (builder,),
                    block,
                ) && final(self)@ == old(self)@.with_function(
                    name@,
                    views(arguments@),
                    block@,
                    result_type@,
                    global,
                ),
            r@ == function_handle(name@, views(arguments@), result_type@),
    {
        let builder = BlockBuilder::new();
        let block = body(builder);
        let ghost made = block;
        let r = self.define_function_from_block(name, arguments, block, result_type, global);
        assert(call_ensures(body, (builder,), made));
        r
    }

    /// Registers the definition of a function that is not global, under
    /// a name that the builder makes up, and returns the handle to it.
    pub fn define_anonymous_function<F: FnOnce(BlockBuilder) -> Block>(
        &mut self,
        arguments: Vec<Argument>,
        body: F,
        result_type: Type,
    ) -> (r: TypedExpression)
        requires
            forall|builder: BlockBuilder|
                builder@ == Seq::<InstructionView>::empty() ==> call_requires(body, (builder,)),
        ensures
            exists|builder: BlockBuilder, block: Block|
                builder@ == Seq::<InstructionView>::empty() && call_ensures(
                    body,
                    (builder,),
                    block,
                ) && final(self)@ == old(self)@.advanced().with_function(
                    generated_name(old(self)@, 0),
                    views(arguments@),
                    block@,
                    result_type@,
                    false,
                ),
            r@ == function_handle(generated_name(old(self)@, 0), views(arguments@), result_type@),
    {
        let name = self.generate_name();
        self.define_function(name.as_str(), arguments, body, result_type, false)
    }

    /// A name that differs from every name that this builder has made up
    /// before, as long as it has made up fewer than its counter has
    /// values.
    pub fn generate_name(&mut self) -> (r: String)
        ensures
            r@ == generated_name(old(self)@, 0),
            final(self)@ == old(self)@.advanced(),
    {
        let r = make_synthetic_name(self.name_index);
        self.name_index = self.name_index.wrapping_add(1);
        r
    }
}

impl Default for ModuleBuilder {
    fn default() -> (r: Self)
        ensures
            r@ == (ModuleBuilderView { name_index: 0, module: ModuleView::empty() }),
    {
        ModuleBuilder::new()
    }
}

} // verus!
