use metir::analysis::{check_lifetimes, check_types, collect_types, Fault, FaultKind};
use metir::build::{BlockBuilder, ModuleBuilder, TypedExpression};
use metir::ir::{Argument, Expression, Module, Variable};
use metir::types::{Primitive, Type};

fn int32() -> Type {
    Type::Primitive(Primitive::Int32)
}

fn variable(name: &str, type_: Type) -> TypedExpression {
    TypedExpression::new(Expression::Variable(Variable::new(name)), type_)
}

fn passes_type_check(module: &Module) -> bool {
    check_types(module, &collect_types(module).unwrap()).is_ok()
}

fn swap_on_defined_variable(mutable: bool) -> Module {
    let mut builder = ModuleBuilder::new();
    let y = builder.declare_variable("y", int32());
    let x = builder.define_variable("x", y, mutable, true);
    let a = variable("a", Type::pointer(int32()));
    let b = variable("b", Type::pointer(int32()));
    builder.define_function(
        "f",
        vec![
            Argument::new("a", Type::pointer(int32())),
            Argument::new("b", Type::pointer(int32())),
        ],
        |mut block: BlockBuilder| {
            let seen = block.compare_and_swap(x, a, b, "seen");
            block.return_(seen)
        },
        Type::pointer(int32()),
        true,
    );
    builder.as_module()
}

#[test]
fn compare_and_swap_on_an_immutable_variable_is_a_mutation_of_immutable() {
    let module = swap_on_defined_variable(false);
    assert!(passes_type_check(&module));
    let fault = check_lifetimes(&module).unwrap_err();
    assert_eq!(fault, Fault::new(FaultKind::MutationOfImmutable, "x", None, None).inside("seen"));
    assert_eq!(fault.instruction(), Some("seen"));
}

#[test]
fn compare_and_swap_on_a_mutable_variable_passes() {
    let module = swap_on_defined_variable(true);
    assert!(passes_type_check(&module));
    assert_eq!(check_lifetimes(&module), Ok(()));
}

#[test]
fn compare_and_swap_on_a_declared_variable_passes() {
    let mut builder = ModuleBuilder::new();
    let y = builder.declare_variable("y", int32());
    let a = variable("a", int32());
    builder.define_function(
        "f",
        vec![Argument::new("a", int32())],
        |mut block: BlockBuilder| {
            let seen = block.compare_and_swap(y, a.clone(), a, "seen");
            block.return_(seen)
        },
        int32(),
        true,
    );
    let module = builder.as_module();
    assert!(passes_type_check(&module));
    assert_eq!(check_lifetimes(&module), Ok(()));
}

#[test]
fn an_argument_named_like_an_immutable_variable_may_be_written_through() {
    let mut builder = ModuleBuilder::new();
    let y = builder.declare_variable("y", int32());
    builder.define_variable("x", y, false, true);
    let x = variable("x", Type::pointer(int32()));
    let a = variable("a", int32());
    builder.define_function(
        "f",
        vec![Argument::new("x", Type::pointer(int32())), Argument::new("a", int32())],
        |mut block: BlockBuilder| {
            let seen = block.compare_and_swap(x, a.clone(), a, "seen");
            block.return_(seen)
        },
        int32(),
        true,
    );
    let module = builder.as_module();
    assert!(passes_type_check(&module));
    assert_eq!(check_lifetimes(&module), Ok(()));
}

fn two_users(global: bool) -> Module {
    let mut builder = ModuleBuilder::new();
    let y = builder.declare_variable("y", int32());
    let local = builder.define_variable("local", y, true, global);
    let again = local.clone();
    let result = Type::pointer(Type::pointer(int32()));
    builder.define_function(
        "first",
        vec![],
        |block: BlockBuilder| block.return_(local),
        result.clone(),
        true,
    );
    builder.define_function(
        "second",
        vec![],
        |block: BlockBuilder| block.return_(again),
        result,
        true,
    );
    builder.as_module()
}

#[test]
fn a_local_variable_used_by_a_second_function_is_used_after_its_scope() {
    let module = two_users(false);
    assert!(passes_type_check(&module));
    let fault = check_lifetimes(&module).unwrap_err();
    assert_eq!(fault, Fault::new(FaultKind::UseAfterScope, "local", None, None));
    assert_eq!(fault.instruction(), None);
}

#[test]
fn a_global_variable_may_be_used_by_every_function() {
    let module = two_users(true);
    assert!(passes_type_check(&module));
    assert_eq!(check_lifetimes(&module), Ok(()));
}

#[test]
fn a_local_variable_may_be_used_many_times_by_one_function() {
    let mut builder = ModuleBuilder::new();
    let y = builder.declare_variable("y", int32());
    let local = builder.define_variable("local", y.clone(), true, false);
    let pointer = local.clone();
    builder.define_function(
        "only",
        vec![],
        |mut block: BlockBuilder| {
            let seen = block.compare_and_swap(pointer, y.clone(), y, "seen");
            let again = block.compare_and_swap(local, seen.clone(), seen, "again");
            block.return_(again)
        },
        Type::pointer(int32()),
        true,
    );
    let module = builder.as_module();
    assert!(passes_type_check(&module));
    assert_eq!(check_lifetimes(&module), Ok(()));
}

#[test]
fn an_initialiser_may_not_use_a_local_variable() {
    let mut builder = ModuleBuilder::new();
    let y = builder.declare_variable("y", int32());
    let local = builder.define_variable("local", y, true, false);
    builder.define_variable("keeper", local, true, true);
    let module = builder.as_module();
    assert!(passes_type_check(&module));
    let fault = check_lifetimes(&module).unwrap_err();
    assert_eq!(fault, Fault::new(FaultKind::UseAfterScope, "local", None, None));
}

#[test]
fn a_name_bound_in_the_second_function_is_no_use_of_the_local_variable() {
    let mut builder = ModuleBuilder::new();
    let y = builder.declare_variable("y", int32());
    let local = builder.define_variable("local", y, true, false);
    builder.define_function(
        "first",
        vec![],
        |block: BlockBuilder| block.return_(local),
        Type::pointer(Type::pointer(int32())),
        true,
    );
    let argument = variable("local", int32());
    builder.define_function(
        "second",
        vec![Argument::new("local", int32())],
        |block: BlockBuilder| block.return_(argument),
        int32(),
        true,
    );
    let module = builder.as_module();
    assert!(passes_type_check(&module));
    assert_eq!(check_lifetimes(&module), Ok(()));
}
