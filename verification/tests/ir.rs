use metir::ir::{
    Argument, Block, CompareAndSwap, ComparisonOperation, ComparisonOperator, Expression,
    FunctionDeclaration, FunctionDefinition, Instruction, Module, TerminalInstruction, Variable,
    VariableDeclaration, VariableDefinition,
};
use metir::types::{Function, Primitive, Type};

fn int32() -> Type {
    Type::Primitive(Primitive::Int32)
}

fn variable(name: &str) -> Expression {
    Expression::Variable(Variable::new(name))
}

#[test]
fn comparison_operation_hands_back_its_parts() {
    let operation = ComparisonOperation::new(
        Primitive::Int64,
        ComparisonOperator::GreaterThanOrEqual,
        variable("a"),
        variable("b"),
        "c",
    );
    assert_eq!(operation.type_(), Primitive::Int64);
    assert_eq!(operation.operator(), ComparisonOperator::GreaterThanOrEqual);
    assert_eq!(operation.lhs(), &variable("a"));
    assert_eq!(operation.rhs(), &variable("b"));
    assert_eq!(operation.name(), "c");
    assert_eq!(operation.clone(), operation);
}

#[test]
fn compare_and_swap_hands_back_its_parts() {
    let operation =
        CompareAndSwap::new(int32(), variable("p"), variable("old"), variable("new"), "seen");
    assert_eq!(operation.type_(), &int32());
    assert_eq!(operation.pointer(), &variable("p"));
    assert_eq!(operation.old_value(), &variable("old"));
    assert_eq!(operation.new_value(), &variable("new"));
    assert_eq!(operation.name(), "seen");
    assert_eq!(operation.clone(), operation);
}

#[test]
fn variable_definition_hands_back_its_parts() {
    let definition = VariableDefinition::new("x", variable("y"), int32(), true, false);
    assert_eq!(definition.name(), "x");
    assert_eq!(definition.body(), &variable("y"));
    assert_eq!(definition.type_(), &int32());
    assert!(definition.is_mutable());
    assert!(!definition.is_global());
    let other = VariableDefinition::new("x", variable("y"), int32(), false, true);
    assert!(!other.is_mutable());
    assert!(other.is_global());
    assert_ne!(definition, other);
}

#[test]
fn block_hands_back_its_parts() {
    let instruction = Instruction::ComparisonOperation(ComparisonOperation::new(
        Primitive::Int32,
        ComparisonOperator::Equal,
        variable("a"),
        variable("b"),
        "c",
    ));
    let block = Block::new(vec![instruction.clone()], TerminalInstruction::Return(variable("c")));
    assert_eq!(block.instructions(), &[instruction][..]);
    assert_eq!(block.terminal_instruction(), &TerminalInstruction::Return(variable("c")));
    assert_eq!(block.clone(), block);
}

#[test]
fn expressions_go_by_the_name_they_refer_to_or_bind() {
    assert_eq!(variable("x").name(), "x");
    let comparison = ComparisonOperation::new(
        Primitive::Int32,
        ComparisonOperator::NotEqual,
        variable("a"),
        variable("b"),
        "c",
    );
    assert_eq!(Expression::ComparisonOperation(comparison.clone()).name(), "c");
    let swap = CompareAndSwap::new(int32(), variable("p"), variable("a"), variable("b"), "s");
    assert_eq!(Expression::CompareAndSwap(swap.clone()).name(), "s");
    assert_eq!(
        Instruction::CompareAndSwap(swap.clone()).into_expression(),
        Expression::CompareAndSwap(swap)
    );
    assert_eq!(
        Instruction::ComparisonOperation(comparison.clone()).into_expression(),
        Expression::ComparisonOperation(comparison)
    );
}

#[test]
fn operators_are_defined_on_the_kinds_that_have_what_they_ask() {
    let ordering = [
        ComparisonOperator::LessThan,
        ComparisonOperator::GreaterThan,
        ComparisonOperator::LessThanOrEqual,
        ComparisonOperator::GreaterThanOrEqual,
    ];
    let kinds = [
        Primitive::Float32,
        Primitive::Float64,
        Primitive::Int8,
        Primitive::Int32,
        Primitive::Int64,
        Primitive::PointerInteger,
    ];
    for operator in ordering {
        assert!(operator.is_ordering());
        assert!(!operator.is_defined_for(Primitive::Boolean));
        for kind in kinds {
            assert!(kind.is_ordered());
            assert!(operator.is_defined_for(kind));
        }
    }
    for operator in [ComparisonOperator::Equal, ComparisonOperator::NotEqual] {
        assert!(!operator.is_ordering());
        assert!(operator.is_defined_for(Primitive::Boolean));
        for kind in kinds {
            assert!(operator.is_defined_for(kind));
        }
    }
    assert!(!Primitive::Boolean.is_ordered());
}

#[test]
fn module_hands_back_its_collections() {
    let module = Module::new(
        vec![VariableDeclaration::new("a", int32())],
        vec![FunctionDeclaration::new("f", Function::new(vec![], int32()))],
        vec![VariableDefinition::new("b", variable("a"), Type::pointer(int32()), false, true)],
        vec![FunctionDefinition::new(
            "g",
            vec![Argument::new("n", int32())],
            Block::new(vec![], TerminalInstruction::Return(variable("n"))),
            int32(),
            true,
        )],
    );
    assert_eq!(module.variable_declarations()[0].name(), "a");
    assert_eq!(module.function_declarations()[0].name(), "f");
    assert_eq!(module.variable_definitions()[0].name(), "b");
    assert_eq!(module.function_definitions()[0].name(), "g");
    assert_eq!(module.function_definitions()[0].type_(), Function::new(vec![int32()], int32()));
    assert_eq!(module.clone(), module);
}
