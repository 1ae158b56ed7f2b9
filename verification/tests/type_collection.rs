use metir::analysis::{collect_types, FaultKind};
use metir::build::ModuleBuilder;
use metir::ir::{
    Block, Expression, FunctionDeclaration, FunctionDefinition, Module, TerminalInstruction,
    Variable, VariableDeclaration, VariableDefinition,
};
use metir::types::{Function, Primitive, Type};

fn int32() -> Type {
    Type::Primitive(Primitive::Int32)
}

#[test]
fn collection_maps_each_name_to_the_type_that_expressions_see() {
    let mut builder = ModuleBuilder::new();
    let x = builder.declare_variable("x", int32());
    builder.declare_function("f", Function::new(vec![int32()], int32()));
    builder.define_variable("y", x, true, true);
    builder.define_function("g", vec![], |block| block.unreachable(), int32(), true);
    let table = collect_types(&builder.as_module()).unwrap();
    assert_eq!(table.get("x"), Some(&Type::pointer(int32())));
    assert_eq!(table.get("f"), Some(&Type::Function(Function::new(vec![int32()], int32()))));
    assert_eq!(table.get("y"), Some(&Type::pointer(Type::pointer(int32()))));
    assert_eq!(table.get("g"), Some(&Type::Function(Function::new(vec![], int32()))));
    assert_eq!(table.get("z"), None);
}

#[test]
fn collection_never_faults_on_distinct_names_from_the_builder() {
    let mut builder = ModuleBuilder::new();
    for _ in 0..20 {
        let name = builder.generate_name();
        builder.declare_variable(&name, int32());
        builder.define_anonymous_function(vec![], |block| block.unreachable(), int32());
    }
    assert!(collect_types(&builder.as_module()).is_ok());
}

#[test]
fn a_name_registered_twice_in_one_collection_is_a_duplicate() {
    let module = Module::new(
        vec![VariableDeclaration::new("x", int32()), VariableDeclaration::new("x", int32())],
        vec![],
        vec![],
        vec![],
    );
    let fault = collect_types(&module).unwrap_err();
    assert_eq!(fault.kind(), FaultKind::DuplicateName);
    assert_eq!(fault.name(), "x");
    assert_eq!(fault.expected(), None);
    assert_eq!(fault.found(), None);
}

#[test]
fn a_duplicate_is_reported_even_where_the_types_differ() {
    let module = Module::new(
        vec![
            VariableDeclaration::new("x", int32()),
            VariableDeclaration::new("x", Type::pointer(int32())),
        ],
        vec![],
        vec![],
        vec![],
    );
    let fault = collect_types(&module).unwrap_err();
    assert_eq!(fault.kind(), FaultKind::DuplicateName);
    assert_eq!(fault.name(), "x");
}

#[test]
fn a_declaration_and_a_definition_of_different_types_conflict() {
    let module = Module::new(
        vec![VariableDeclaration::new("x", int32())],
        vec![],
        vec![VariableDefinition::new(
            "x",
            Expression::Variable(Variable::new("y")),
            Type::pointer(int32()),
            false,
            true,
        )],
        vec![],
    );
    let fault = collect_types(&module).unwrap_err();
    assert_eq!(fault.kind(), FaultKind::ConflictingDeclaration);
    assert_eq!(fault.name(), "x");
    assert_eq!(fault.expected(), Some(&Type::pointer(int32())));
    assert_eq!(fault.found(), Some(&Type::pointer(Type::pointer(int32()))));
}

#[test]
fn a_declaration_and_a_definition_of_one_type_get_along() {
    let module = Module::new(
        vec![VariableDeclaration::new("x", int32())],
        vec![FunctionDeclaration::new("f", Function::new(vec![], int32()))],
        vec![VariableDefinition::new(
            "x",
            Expression::Variable(Variable::new("y")),
            int32(),
            false,
            true,
        )],
        vec![FunctionDefinition::new(
            "f",
            vec![],
            Block::new(vec![], TerminalInstruction::Unreachable),
            int32(),
            true,
        )],
    );
    let table = collect_types(&module).unwrap();
    assert_eq!(table.get("x"), Some(&Type::pointer(int32())));
    assert_eq!(table.get("f"), Some(&Type::Function(Function::new(vec![], int32()))));
}

#[test]
fn a_variable_and_a_function_of_one_name_conflict() {
    let module = Module::new(
        vec![VariableDeclaration::new("x", int32())],
        vec![FunctionDeclaration::new("x", Function::new(vec![], int32()))],
        vec![],
        vec![],
    );
    let fault = collect_types(&module).unwrap_err();
    assert_eq!(fault.kind(), FaultKind::ConflictingDeclaration);
    assert_eq!(fault.name(), "x");
    assert_eq!(fault.expected(), Some(&Type::pointer(int32())));
    assert_eq!(fault.found(), Some(&Type::Function(Function::new(vec![], int32()))));
}

#[test]
fn the_first_fault_in_order_is_the_one_reported() {
    let module = Module::new(
        vec![VariableDeclaration::new("a", int32())],
        vec![
            FunctionDeclaration::new("a", Function::new(vec![], int32())),
            FunctionDeclaration::new("b", Function::new(vec![], int32())),
            FunctionDeclaration::new("b", Function::new(vec![], int32())),
        ],
        vec![],
        vec![],
    );
    let fault = collect_types(&module).unwrap_err();
    assert_eq!(fault.kind(), FaultKind::ConflictingDeclaration);
    assert_eq!(fault.name(), "a");
}
