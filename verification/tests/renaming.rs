use metir::analysis::{analyze, rename, FaultKind};
use metir::build::{BlockBuilder, ModuleBuilder, TypedExpression};
use metir::ir::{Argument, Expression, Module, TerminalInstruction, Variable};
use metir::names::{is_synthetic_name, make_synthetic_name};
use metir::types::{Primitive, Type};

fn int32() -> Type {
    Type::Primitive(Primitive::Int32)
}

fn variable(name: &str, type_: Type) -> TypedExpression {
    TypedExpression::new(Expression::Variable(Variable::new(name)), type_)
}

fn sample() -> Module {
    let mut builder = ModuleBuilder::new();
    for _ in 0..0x2a {
        builder.generate_name();
    }
    let x = builder.declare_variable("x", int32());
    let temporary = builder.generate_name();
    let argument = builder.generate_name();
    let value = variable(&argument, int32());
    builder.define_anonymous_function(
        vec![Argument::new(&argument, int32())],
        |mut block: BlockBuilder| {
            let seen = block.compare_and_swap(x, value.clone(), value, &temporary);
            block.return_(seen)
        },
        int32(),
    );
    builder.as_module()
}

#[test]
fn renaming_numbers_synthetic_names_in_the_order_in_which_they_occur() {
    let module = sample();
    let function = &module.function_definitions()[0];
    assert_eq!(function.name(), "_metir_2c");
    assert_eq!(function.arguments()[0].name(), "_metir_2b");
    assert_eq!(function.body().instructions()[0].name(), "_metir_2a");

    let renamed = rename(&module);
    assert_eq!(renamed.variable_declarations()[0].name(), "x");
    let function = &renamed.function_definitions()[0];
    assert_eq!(function.name(), "_metir_0");
    assert_eq!(function.arguments()[0].name(), "_metir_1");
    assert_eq!(function.body().instructions()[0].name(), "_metir_2");
    assert_eq!(
        function.body().terminal_instruction(),
        &TerminalInstruction::Return(Expression::Variable(Variable::new("_metir_2")))
    );
    assert_eq!(function.result_type(), &int32());
    assert!(!function.is_global());
}

#[test]
fn renaming_keeps_references_on_what_they_referred_to() {
    let renamed = rename(&sample());
    let function = &renamed.function_definitions()[0];
    match &function.body().instructions()[0] {
        metir::ir::Instruction::CompareAndSwap(swap) => {
            assert_eq!(swap.pointer(), &Expression::Variable(Variable::new("x")));
            assert_eq!(swap.old_value(), &Expression::Variable(Variable::new("_metir_1")));
            assert_eq!(swap.new_value(), &Expression::Variable(Variable::new("_metir_1")));
            assert_eq!(swap.type_(), &int32());
        }
        _ => panic!("a compare-and-swap was expected"),
    }
}

#[test]
fn renaming_is_the_same_on_every_run_and_stable_once_done() {
    let module = sample();
    let once = rename(&module);
    assert_eq!(once, rename(&module));
    assert_eq!(rename(&once), once);
}

#[test]
fn renaming_leaves_a_module_without_synthetic_names_as_it_is() {
    let mut builder = ModuleBuilder::new();
    let x = builder.declare_variable("x", int32());
    builder.define_variable("_metirx", x.clone(), true, true);
    builder.define_variable("metir_0", x, true, true);
    let module = builder.as_module();
    assert_eq!(rename(&module), module);
}

#[test]
fn renaming_gives_different_names_different_names() {
    let mut builder = ModuleBuilder::new();
    let names = ["_metir_zz", "_metir_1", "_metir_0", "plain", "_metir_", "_metir_1x"];
    for name in names {
        builder.declare_variable(name, int32());
    }
    let renamed = rename(&builder.as_module());
    let images: Vec<&str> = renamed.variable_declarations().iter().map(|d| d.name()).collect();
    assert_eq!(images, ["_metir_0", "_metir_1", "_metir_2", "plain", "_metir_3", "_metir_4"]);
    for i in 0..images.len() {
        for j in 0..i {
            assert_ne!(images[i], images[j]);
        }
    }
}

#[test]
fn a_name_is_synthetic_where_it_starts_with_the_prefix() {
    assert!(is_synthetic_name("_metir_0"));
    assert!(is_synthetic_name("_metir_"));
    assert!(is_synthetic_name("_metir_anything"));
    assert!(!is_synthetic_name("_metir"));
    assert!(!is_synthetic_name("metir_0"));
    assert!(!is_synthetic_name(""));
    assert!(!is_synthetic_name("x_metir_0"));
    assert_eq!(make_synthetic_name(0), "_metir_0");
    assert_eq!(make_synthetic_name(0xdead_beef), "_metir_deadbeef");
    assert_eq!(make_synthetic_name(u64::MAX), "_metir_ffffffffffffffff");
}

#[test]
fn the_passes_run_in_order_and_end_with_the_renamed_module() {
    let module = sample();
    assert_eq!(analyze(&module), Ok(rename(&module)));
}

#[test]
fn the_first_pass_that_finds_a_fault_reports_it() {
    let mut builder = ModuleBuilder::new();
    builder.declare_variable("x", int32());
    builder.declare_variable("x", int32());
    let ghost = variable("ghost", int32());
    builder.define_function("f", vec![], |block: BlockBuilder| block.return_(ghost), int32(), true);
    let fault = analyze(&builder.as_module()).unwrap_err();
    assert_eq!(fault.kind(), FaultKind::DuplicateName);

    let mut builder = ModuleBuilder::new();
    let y = builder.declare_variable("y", int32());
    let local = builder.define_variable("local", y, true, false);
    builder.define_variable("keeper", local, true, true);
    let ghost = variable("ghost", int32());
    builder.define_function("f", vec![], |block: BlockBuilder| block.return_(ghost), int32(), true);
    let fault = analyze(&builder.as_module()).unwrap_err();
    assert_eq!(fault.kind(), FaultKind::UndefinedName);
    assert_eq!(fault.name(), "ghost");

    let mut builder = ModuleBuilder::new();
    let y = builder.declare_variable("y", int32());
    let local = builder.define_variable("local", y, true, false);
    builder.define_variable("keeper", local, true, true);
    let fault = analyze(&builder.as_module()).unwrap_err();
    assert_eq!(fault.kind(), FaultKind::UseAfterScope);
    assert_eq!(fault.name(), "local");
}

#[test]
fn an_accepted_module_is_accepted_again_once_renamed() {
    let renamed = analyze(&sample()).unwrap();
    assert_eq!(analyze(&renamed), Ok(renamed.clone()));
    assert_eq!(rename(&renamed), renamed);
}

#[test]
fn a_fault_of_a_renamed_module_goes_by_the_new_name() {
    let mut builder = ModuleBuilder::new();
    for _ in 0..7 {
        builder.generate_name();
    }
    let name = builder.generate_name();
    let y = builder.declare_variable("y", int32());
    let local = builder.define_variable(&name, y, true, false);
    builder.define_variable("keeper", local, true, true);
    let module = builder.as_module();
    let fault = analyze(&module).unwrap_err();
    assert_eq!(fault.kind(), FaultKind::UseAfterScope);
    assert_eq!(fault.name(), "_metir_7");
    let fault = analyze(&rename(&module)).unwrap_err();
    assert_eq!(fault.kind(), FaultKind::UseAfterScope);
    assert_eq!(fault.name(), "_metir_0");
}
