use metir::build::{BlockBuilder, ModuleBuilder, TypedExpression};
use metir::ir::{
    Argument, Block, ComparisonOperator, Expression, Instruction, TerminalInstruction, Variable,
};
use metir::types::{Function, Primitive, Type};

fn int32() -> Type {
    Type::Primitive(Primitive::Int32)
}

fn variable(name: &str, type_: Type) -> TypedExpression {
    TypedExpression::new(Expression::Variable(Variable::new(name)), type_)
}

#[test]
fn new_builder_holds_an_empty_module() {
    let builder = ModuleBuilder::new();
    let module = builder.as_module();
    assert!(module.variable_declarations().is_empty());
    assert!(module.function_declarations().is_empty());
    assert!(module.variable_definitions().is_empty());
    assert!(module.function_definitions().is_empty());
}

#[test]
fn declare_variable_round_trip() {
    let mut builder = ModuleBuilder::new();
    let handle = builder.declare_variable("x", int32());
    let module = builder.as_module();
    assert_eq!(module.variable_declarations().len(), 1);
    assert_eq!(module.variable_declarations()[0].name(), "x");
    assert_eq!(module.variable_declarations()[0].type_(), &int32());
    assert!(module.function_declarations().is_empty());
    assert!(module.variable_definitions().is_empty());
    assert!(module.function_definitions().is_empty());
    assert_eq!(handle.type_(), &Type::pointer(int32()));
    assert_eq!(handle.expression(), &Expression::Variable(Variable::new("x")));
}

#[test]
fn declare_function_keeps_the_function_type() {
    let mut builder = ModuleBuilder::new();
    let type_ = Function::new(vec![int32()], Type::Primitive(Primitive::Boolean));
    let handle = builder.declare_function("f", type_.clone());
    let module = builder.as_module();
    assert_eq!(module.function_declarations().len(), 1);
    assert_eq!(module.function_declarations()[0].name(), "f");
    assert_eq!(module.function_declarations()[0].type_(), &type_);
    assert_eq!(handle.type_(), &Type::Function(type_));
    assert_eq!(handle.expression(), &Expression::Variable(Variable::new("f")));
}

#[test]
fn define_variable_takes_the_type_of_its_body() {
    let mut builder = ModuleBuilder::new();
    let y = builder.declare_variable("y", int32());
    let handle = builder.define_variable("x", y.clone(), true, false);
    let module = builder.as_module();
    assert_eq!(module.variable_definitions().len(), 1);
    let definition = &module.variable_definitions()[0];
    assert_eq!(definition.name(), "x");
    assert_eq!(definition.body(), &Expression::Variable(Variable::new("y")));
    assert_eq!(definition.type_(), &Type::pointer(int32()));
    assert!(definition.is_mutable());
    assert!(!definition.is_global());
    assert_eq!(handle.type_(), &Type::pointer(Type::pointer(int32())));
    assert_eq!(handle.expression(), &Expression::Variable(Variable::new("x")));
}

#[test]
fn define_function_runs_the_body_on_an_empty_block_builder() {
    let mut builder = ModuleBuilder::new();
    let a = variable("a", int32());
    let b = variable("b", int32());
    let handle = builder.define_function(
        "less",
        vec![Argument::new("a", int32()), Argument::new("b", int32())],
        |mut block: BlockBuilder| {
            let r = block.compare(Primitive::Int32, ComparisonOperator::LessThan, a, b, "r");
            block.return_(r)
        },
        Type::Primitive(Primitive::Boolean),
        true,
    );
    assert_eq!(
        handle.type_(),
        &Type::Function(Function::new(
            vec![int32(), int32()],
            Type::Primitive(Primitive::Boolean)
        ))
    );
    assert_eq!(handle.expression(), &Expression::Variable(Variable::new("less")));
    let module = builder.as_module();
    assert_eq!(module.function_definitions().len(), 1);
    let definition = &module.function_definitions()[0];
    assert_eq!(definition.name(), "less");
    assert_eq!(definition.arguments().len(), 2);
    assert_eq!(definition.arguments()[0].name(), "a");
    assert_eq!(definition.arguments()[1].name(), "b");
    assert_eq!(definition.result_type(), &Type::Primitive(Primitive::Boolean));
    assert!(definition.is_global());
    assert_eq!(definition.body().instructions().len(), 1);
    assert_eq!(definition.body().instructions()[0].name(), "r");
    assert_eq!(
        definition.body().terminal_instruction(),
        &TerminalInstruction::Return(Expression::Variable(Variable::new("r")))
    );
    assert_eq!(
        definition.type_(),
        Function::new(vec![int32(), int32()], Type::Primitive(Primitive::Boolean))
    );
}

#[test]
fn define_function_from_block_registers_the_block() {
    let mut builder = ModuleBuilder::new();
    let block = Block::new(vec![], TerminalInstruction::Unreachable);
    let handle = builder.define_function_from_block("never", vec![], block, int32(), false);
    assert_eq!(handle.type_(), &Type::Function(Function::new(vec![], int32())));
    let module = builder.as_module();
    assert_eq!(module.function_definitions().len(), 1);
    assert_eq!(
        module.function_definitions()[0].body(),
        &Block::new(vec![], TerminalInstruction::Unreachable)
    );
    assert!(!module.function_definitions()[0].is_global());
}

#[test]
fn define_anonymous_function_uses_the_next_generated_name() {
    let mut builder = ModuleBuilder::new();
    assert_eq!(builder.generate_name(), "_metir_0");
    let handle = builder.define_anonymous_function(
        vec![],
        |block: BlockBuilder| block.unreachable(),
        int32(),
    );
    assert_eq!(handle.expression(), &Expression::Variable(Variable::new("_metir_1")));
    let module = builder.as_module();
    assert_eq!(module.function_definitions()[0].name(), "_metir_1");
    assert!(!module.function_definitions()[0].is_global());
    assert_eq!(builder.generate_name(), "_metir_2");
}

#[test]
fn generate_name_counts_in_hexadecimal() {
    let mut builder = ModuleBuilder::new();
    let mut names: Vec<String> = Vec::new();
    for _ in 0..300 {
        names.push(builder.generate_name());
    }
    assert_eq!(names[0], "_metir_0");
    assert_eq!(names[9], "_metir_9");
    assert_eq!(names[10], "_metir_a");
    assert_eq!(names[15], "_metir_f");
    assert_eq!(names[16], "_metir_10");
    assert_eq!(names[255], "_metir_ff");
    assert_eq!(names[256], "_metir_100");
    assert_eq!(names[299], "_metir_12b");
}

#[test]
fn generated_names_are_pairwise_distinct() {
    let mut builder = ModuleBuilder::new();
    let mut names: Vec<String> = Vec::new();
    for _ in 0..500 {
        names.push(builder.generate_name());
    }
    for i in 0..names.len() {
        for j in 0..i {
            assert_ne!(names[i], names[j]);
        }
    }
}

#[test]
fn as_module_reflects_every_registration_so_far() {
    let mut builder = ModuleBuilder::new();
    builder.declare_variable("x", int32());
    let first = builder.as_module();
    builder.declare_variable("y", Type::Primitive(Primitive::Int64));
    let second = builder.as_module();
    let third = builder.as_module();
    assert_eq!(first.variable_declarations().len(), 1);
    assert_eq!(second.variable_declarations().len(), 2);
    assert_eq!(second.variable_declarations()[0].name(), "x");
    assert_eq!(second.variable_declarations()[1].name(), "y");
    assert_eq!(second, third);
}

#[test]
fn block_builder_keeps_instructions_in_order() {
    let mut block = BlockBuilder::new();
    let p = variable("p", Type::pointer(int32()));
    let a = variable("a", int32());
    let b = variable("b", int32());
    let seen = block.compare_and_swap(p, a.clone(), b, "seen");
    assert_eq!(seen.type_(), &int32());
    assert_eq!(seen.expression(), &Expression::Variable(Variable::new("seen")));
    let same = block.compare(Primitive::Int32, ComparisonOperator::Equal, seen, a, "same");
    assert_eq!(same.type_(), &Type::Primitive(Primitive::Boolean));
    let block = block.return_(same);
    assert_eq!(block.instructions().len(), 2);
    assert!(matches!(block.instructions()[0], Instruction::CompareAndSwap(_)));
    assert!(matches!(block.instructions()[1], Instruction::ComparisonOperation(_)));
    assert_eq!(block.instructions()[0].name(), "seen");
    assert_eq!(block.instructions()[1].name(), "same");
    assert_eq!(
        block.terminal_instruction(),
        &TerminalInstruction::Return(Expression::Variable(Variable::new("same")))
    );
}
