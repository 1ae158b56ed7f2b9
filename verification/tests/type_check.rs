use metir::analysis::{check_types, collect_types, type_of, Fault, FaultKind, SymbolTable};
use metir::build::{BlockBuilder, ModuleBuilder, TypedExpression};
use metir::ir::{
    Argument, Block, CompareAndSwap, ComparisonOperation, ComparisonOperator, Expression,
    FunctionDefinition, Instruction, Module, TerminalInstruction, Variable, VariableDefinition,
};
use metir::types::{Primitive, Type};

fn int32() -> Type {
    Type::Primitive(Primitive::Int32)
}

fn int64() -> Type {
    Type::Primitive(Primitive::Int64)
}

fn boolean() -> Type {
    Type::Primitive(Primitive::Boolean)
}

fn name(name: &str) -> Expression {
    Expression::Variable(Variable::new(name))
}

fn variable(name: &str, type_: Type) -> TypedExpression {
    TypedExpression::new(Expression::Variable(Variable::new(name)), type_)
}

fn check(module: &Module) -> Result<(), Fault> {
    check_types(module, &collect_types(module).unwrap())
}

fn swap_module(new_value_type: Type) -> Module {
    let mut builder = ModuleBuilder::new();
    let p = variable("p", Type::pointer(int32()));
    let old_value = variable("old", int32());
    let new_value = variable("new", new_value_type.clone());
    builder.define_function(
        "swap",
        vec![
            Argument::new("p", Type::pointer(int32())),
            Argument::new("old", int32()),
            Argument::new("new", new_value_type),
        ],
        |mut block: BlockBuilder| {
            let seen = block.compare_and_swap(p, old_value, new_value, "seen");
            block.return_(seen)
        },
        int32(),
        true,
    );
    builder.as_module()
}

#[test]
fn compare_and_swap_on_matching_types_passes() {
    assert_eq!(check(&swap_module(int32())), Ok(()));
}

#[test]
fn compare_and_swap_with_a_new_value_of_another_type_is_a_mismatch() {
    let fault = check(&swap_module(int64())).unwrap_err();
    assert_eq!(fault.kind(), FaultKind::TypeMismatch);
    assert_eq!(fault.name(), "new");
    assert_eq!(fault.expected(), Some(&int32()));
    assert_eq!(fault.found(), Some(&int64()));
    assert_eq!(fault.instruction(), Some("seen"));
}

#[test]
fn compare_and_swap_through_what_is_no_pointer_to_the_type_is_a_mismatch() {
    let module = Module::new(
        vec![],
        vec![],
        vec![],
        vec![FunctionDefinition::new(
            "swap",
            vec![Argument::new("p", int32()), Argument::new("v", int32())],
            Block::new(
                vec![Instruction::CompareAndSwap(CompareAndSwap::new(
                    int32(),
                    name("p"),
                    name("v"),
                    name("v"),
                    "seen",
                ))],
                TerminalInstruction::Return(name("seen")),
            ),
            int32(),
            true,
        )],
    );
    let fault = check(&module).unwrap_err();
    assert_eq!(fault.kind(), FaultKind::TypeMismatch);
    assert_eq!(fault.name(), "p");
    assert_eq!(fault.expected(), Some(&Type::pointer(int32())));
    assert_eq!(fault.found(), Some(&int32()));
}

fn returning(result_type: Type, returned: Type) -> Module {
    let mut builder = ModuleBuilder::new();
    let value = variable("value", returned.clone());
    builder.define_function(
        "f",
        vec![Argument::new("value", returned)],
        |block: BlockBuilder| block.return_(value),
        result_type,
        true,
    );
    builder.as_module()
}

#[test]
fn returning_a_value_of_the_result_type_passes() {
    assert_eq!(check(&returning(int32(), int32())), Ok(()));
}

#[test]
fn returning_a_value_of_another_type_is_a_return_type_mismatch() {
    let fault = check(&returning(int32(), int64())).unwrap_err();
    assert_eq!(fault.kind(), FaultKind::ReturnTypeMismatch);
    assert_eq!(fault.name(), "f");
    assert_eq!(fault.expected(), Some(&int32()));
    assert_eq!(fault.found(), Some(&int64()));
    assert_eq!(fault.instruction(), None);
}

#[test]
fn an_unreachable_end_fits_every_result_type() {
    let mut builder = ModuleBuilder::new();
    builder.define_function("f", vec![], |block: BlockBuilder| block.unreachable(), int32(), true);
    assert_eq!(check(&builder.as_module()), Ok(()));
}

#[test]
fn a_name_that_nothing_binds_is_undefined() {
    let mut builder = ModuleBuilder::new();
    let ghost = variable("ghost", int32());
    builder.define_function(
        "f",
        vec![],
        |block: BlockBuilder| block.return_(ghost),
        int32(),
        true,
    );
    let fault = check(&builder.as_module()).unwrap_err();
    assert_eq!(fault.kind(), FaultKind::UndefinedName);
    assert_eq!(fault.name(), "ghost");
    assert_eq!(fault.expected(), None);
    assert_eq!(fault.found(), None);
}

#[test]
fn a_result_is_in_scope_only_after_its_instruction() {
    let comparison = |name_: &str, lhs: &str| {
        Instruction::ComparisonOperation(ComparisonOperation::new(
            Primitive::Boolean,
            ComparisonOperator::Equal,
            name(lhs),
            name("a"),
            name_,
        ))
    };
    let function = |instructions: Vec<Instruction>| {
        Module::new(
            vec![],
            vec![],
            vec![],
            vec![FunctionDefinition::new(
                "f",
                vec![Argument::new("a", boolean())],
                Block::new(instructions, TerminalInstruction::Return(name("second"))),
                boolean(),
                true,
            )],
        )
    };
    let good = function(vec![comparison("first", "a"), comparison("second", "first")]);
    assert_eq!(check(&good), Ok(()));
    let bad = function(vec![comparison("second", "first"), comparison("first", "a")]);
    let fault = check(&bad).unwrap_err();
    assert_eq!(fault.kind(), FaultKind::UndefinedName);
    assert_eq!(fault.name(), "first");
}

#[test]
fn an_argument_takes_the_place_of_a_module_name() {
    let mut builder = ModuleBuilder::new();
    builder.declare_variable("x", int64());
    let x = variable("x", int32());
    builder.define_function(
        "f",
        vec![Argument::new("x", int32())],
        |block: BlockBuilder| block.return_(x),
        int32(),
        true,
    );
    assert_eq!(check(&builder.as_module()), Ok(()));
}

#[test]
fn a_comparison_asks_both_operands_for_its_kind() {
    let mut table = SymbolTable::new();
    table.insert("a", int32());
    table.insert("b", int32());
    table.insert("c", int64());
    let compare = |operator, lhs: &str, rhs: &str| {
        Expression::ComparisonOperation(ComparisonOperation::new(
            Primitive::Int32,
            operator,
            name(lhs),
            name(rhs),
            "r",
        ))
    };
    assert_eq!(type_of(&compare(ComparisonOperator::LessThan, "a", "b"), &table), Ok(boolean()));
    let fault = type_of(&compare(ComparisonOperator::LessThan, "c", "b"), &table).unwrap_err();
    assert_eq!(fault, Fault::new(FaultKind::TypeMismatch, "c", Some(int32()), Some(int64())));
    let fault = type_of(&compare(ComparisonOperator::Equal, "a", "c"), &table).unwrap_err();
    assert_eq!(fault, Fault::new(FaultKind::TypeMismatch, "c", Some(int32()), Some(int64())));
    let fault = type_of(&compare(ComparisonOperator::Equal, "a", "d"), &table).unwrap_err();
    assert_eq!(fault, Fault::new(FaultKind::UndefinedName, "d", None, None));
}

#[test]
fn an_ordering_operator_is_not_defined_on_booleans() {
    let mut table = SymbolTable::new();
    table.insert("a", boolean());
    table.insert("b", boolean());
    let compare = |operator| {
        Expression::ComparisonOperation(ComparisonOperation::new(
            Primitive::Boolean,
            operator,
            name("a"),
            name("b"),
            "r",
        ))
    };
    assert_eq!(type_of(&compare(ComparisonOperator::Equal), &table), Ok(boolean()));
    assert_eq!(type_of(&compare(ComparisonOperator::NotEqual), &table), Ok(boolean()));
    let fault = type_of(&compare(ComparisonOperator::LessThan), &table).unwrap_err();
    assert_eq!(fault, Fault::new(FaultKind::TypeMismatch, "r", None, Some(boolean())));
}

#[test]
fn operations_nest_as_operands() {
    let mut table = SymbolTable::new();
    table.insert("p", Type::pointer(int32()));
    table.insert("a", int32());
    let swap = Expression::CompareAndSwap(CompareAndSwap::new(
        int32(),
        name("p"),
        name("a"),
        name("a"),
        "seen",
    ));
    let same = Expression::ComparisonOperation(ComparisonOperation::new(
        Primitive::Int32,
        ComparisonOperator::Equal,
        swap,
        name("a"),
        "same",
    ));
    assert_eq!(type_of(&same, &table), Ok(boolean()));
    let wrong = Expression::CompareAndSwap(CompareAndSwap::new(
        int32(),
        name("p"),
        same,
        name("a"),
        "again",
    ));
    let fault = type_of(&wrong, &table).unwrap_err();
    assert_eq!(fault, Fault::new(FaultKind::TypeMismatch, "same", Some(int32()), Some(boolean())));
}

#[test]
fn the_body_of_a_variable_definition_has_the_type_of_the_definition() {
    let module = |type_: Type| {
        Module::new(
            vec![metir::ir::VariableDeclaration::new("y", int32())],
            vec![],
            vec![VariableDefinition::new("x", name("y"), type_, true, true)],
            vec![],
        )
    };
    assert_eq!(check(&module(Type::pointer(int32()))), Ok(()));
    let fault = check(&module(int32())).unwrap_err();
    assert_eq!(
        fault,
        Fault::new(FaultKind::TypeMismatch, "y", Some(int32()), Some(Type::pointer(int32())))
    );
}

#[test]
fn a_later_binding_of_a_name_takes_the_place_of_an_earlier_one() {
    let mut table = SymbolTable::new();
    table.insert("x", int32());
    assert_eq!(table.get("x"), Some(&int32()));
    table.insert("y", boolean());
    table.insert("x", int64());
    assert_eq!(table.get("x"), Some(&int64()));
    assert_eq!(table.get("y"), Some(&boolean()));
    assert_eq!(table.clone().get("x"), Some(&int64()));
    assert_eq!(table.get("z"), None);
}
