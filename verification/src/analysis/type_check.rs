//! The type check, the second pass. It works out the type of every
//! expression from the types of the names in scope, and holds each
//! operand against the type that its place asks for. It follows the
//! structure of the module alone: the scope of a function body grows by
//! the result of each instruction, in the order of the block.

use super::fault::{
    checked, first_fault, lemma_first_fault_append, lemma_first_fault_at, lemma_first_fault_none,
    located, typed, Fault, FaultKind, FaultView,
};
use super::symbol_table::SymbolTable;
use crate::ir::{
    CompareAndSwap, CompareAndSwapView, ComparisonOperation, ComparisonOperationView, Expression,
    ExpressionView, FunctionDefinition, FunctionDefinitionView, Instruction, InstructionView,
    Module, ModuleView, TerminalInstruction, TerminalInstructionView, VariableDefinitionView,
};
use crate::types::{views, Primitive, Type, TypeView};
use vstd::prelude::*;

verus! {

/// The fault, if any, of a value in a place that asks for type
/// `expected`: the fault met while the value's type was computed, or a
/// type mismatch named after the expression.
pub open spec fn mismatch(
    found: Result<TypeView, FaultView>,
    name: Seq<char>,
    expected: TypeView,
) -> Option<FaultView> {
    match found {
        Err(fault) => Some(fault),
        Ok(type_) => if type_ == expected {
            None
        } else {
            Some(FaultView::type_mismatch(name, expected, type_))
        },
    }
}

/// The type of an expression where `scope` gives the types of the names
/// in scope, or the first fault in it. A variable has the type that the
/// scope gives its name.
pub open spec fn expression_type(
    expression: ExpressionView,
    scope: Map<Seq<char>, TypeView>,
) -> Result<TypeView, FaultView>
    decreases expression,
{
    match expression {
        ExpressionView::Variable(name) => if scope.contains_key(name) {
            Ok(scope[name])
        } else {
            Err(FaultView::undefined_name(name))
        },
        ExpressionView::ComparisonOperation(operation) => comparison_type(operation, scope),
        ExpressionView::CompareAndSwap(operation) => compare_and_swap_type(operation, scope),
    }
}

/// The type of a comparison: a boolean, where both operands are of the
/// scalar kind that the comparison names and its operator is defined on
/// that kind. The operands are checked first, the left one before the
/// right one.
pub open spec fn comparison_type(
    operation: ComparisonOperationView,
    scope: Map<Seq<char>, TypeView>,
) -> Result<TypeView, FaultView>
    decreases operation,
{
    let expected = TypeView::Primitive(operation.type_);
    let lhs = mismatch(expression_type(*operation.lhs, scope), operation.lhs.name(), expected);
    let rhs = mismatch(expression_type(*operation.rhs, scope), operation.rhs.name(), expected);
    if lhs is Some {
        Err(lhs->Some_0)
    } else if rhs is Some {
        Err(rhs->Some_0)
    } else if !operation.operator.defined_for(operation.type_) {
        Err(FaultView::undefined_operator(operation.name, expected))
    } else {
        Ok(TypeView::Primitive(Primitive::Boolean))
    }
}

/// The type of a compare-and-swap: the type that it names, where its
/// pointer points to that type and both values are of it. The operands
/// are checked in the order pointer, old value, new value.
pub open spec fn compare_and_swap_type(
    operation: CompareAndSwapView,
    scope: Map<Seq<char>, TypeView>,
) -> Result<TypeView, FaultView>
    decreases operation,
{
    let pointer = mismatch(
        expression_type(*operation.pointer, scope),
        operation.pointer.name(),
        TypeView::Pointer(Box::new(operation.type_)),
    );
    let old_value = mismatch(
        expression_type(*operation.old_value, scope),
        operation.old_value.name(),
        operation.type_,
    );
    let new_value = mismatch(
        expression_type(*operation.new_value, scope),
        operation.new_value.name(),
        operation.type_,
    );
    if pointer is Some {
        Err(pointer->Some_0)
    } else if old_value is Some {
        Err(old_value->Some_0)
    } else if new_value is Some {
        Err(new_value->Some_0)
    } else {
        Ok(operation.type_)
    }
}

/// The fault, if any, of an expression in a place that asks for type
/// `expected`.
pub open spec fn operand_fault(
    expression: ExpressionView,
    expected: TypeView,
    scope: Map<Seq<char>, TypeView>,
) -> Option<FaultView> {
    mismatch(expression_type(expression, scope), expression.name(), expected)
}

/// The type of the value that an instruction binds to its name.
pub open spec fn instruction_result_type(instruction: InstructionView) -> TypeView {
    match instruction {
        InstructionView::ComparisonOperation(_) => TypeView::Primitive(Primitive::Boolean),
        InstructionView::CompareAndSwap(operation) => operation.type_,
    }
}

/// The fault of an instruction, if any.
pub open spec fn instruction_fault(
    instruction: InstructionView,
    scope: Map<Seq<char>, TypeView>,
) -> Option<FaultView> {
    match expression_type(instruction.expression(), scope) {
        Ok(_) => None,
        Err(fault) => Some(fault),
    }
}

/// The scope of a function's body at its start: `table` and, in place of
/// what it says of their names, the first `n` arguments.
pub open spec fn argument_scope(
    table: Map<Seq<char>, TypeView>,
    function: FunctionDefinitionView,
    n: int,
) -> Map<Seq<char>, TypeView>
    decreases n,
{
    if n <= 0 {
        table
    } else {
        argument_scope(table, function, n - 1).insert(
            function.arguments[n - 1].name,
            function.arguments[n - 1].type_,
        )
    }
}

/// The scope in which instruction `i` of a function's body is checked,
/// and, for `i` the number of instructions, its terminal instruction:
/// the arguments and the results of the instructions before.
pub open spec fn scope_at(
    table: Map<Seq<char>, TypeView>,
    function: FunctionDefinitionView,
    i: int,
) -> Map<Seq<char>, TypeView>
    decreases i,
{
    if i <= 0 {
        argument_scope(table, function, function.arguments.len() as int)
    } else {
        scope_at(table, function, i - 1).insert(
            function.body.instructions[i - 1].name(),
            instruction_result_type(function.body.instructions[i - 1]),
        )
    }
}

/// The fault of a function's terminal instruction, if any: a fault in
/// the value that it returns, or a value that is not of the function's
/// result type.
pub open spec fn terminal_fault(
    function: FunctionDefinitionView,
    scope: Map<Seq<char>, TypeView>,
) -> Option<FaultView> {
    match function.body.terminal_instruction {
        TerminalInstructionView::Unreachable => None,
        TerminalInstructionView::Return(expression) => match expression_type(expression, scope) {
            Err(fault) => Some(fault),
            Ok(type_) => if type_ == function.result_type {
                None
            } else {
                Some(FaultView::return_type_mismatch(function.name, function.result_type, type_))
            },
        },
    }
}

/// For each instruction of a function's body in order, and then for its
/// terminal instruction, its fault or none. The fault of an instruction
/// carries the name of the instruction.
pub open spec fn function_faults(
    function: FunctionDefinitionView,
    table: Map<Seq<char>, TypeView>,
) -> Seq<Option<FaultView>> {
    let n = function.body.instructions.len() as int;
    Seq::new(
        (n + 1) as nat,
        |i: int|
            if i < n {
                located(
                    instruction_fault(function.body.instructions[i], scope_at(table, function, i)),
                    function.body.instructions[i].name(),
                )
            } else {
                terminal_fault(function, scope_at(table, function, n))
            },
    )
}

/// The first fault of a function definition, if any.
pub open spec fn function_fault(
    function: FunctionDefinitionView,
    table: Map<Seq<char>, TypeView>,
) -> Option<FaultView> {
    first_fault(function_faults(function, table))
}

/// The fault of a variable definition, if any: its body is checked
/// against its type, with the names of `table` in scope.
pub open spec fn definition_fault(
    definition: VariableDefinitionView,
    table: Map<Seq<char>, TypeView>,
) -> Option<FaultView> {
    operand_fault(definition.body, definition.type_, table)
}

/// For each variable definition in order, and then for each function
/// definition in order, its first fault or none.
pub open spec fn type_faults(module: ModuleView, table: Map<Seq<char>, TypeView>) -> Seq<
    Option<FaultView>,
> {
    Seq::new(
        module.variable_definitions.len(),
        |i: int| definition_fault(module.variable_definitions[i], table),
    ) + Seq::new(
        module.function_definitions.len(),
        |i: int| function_fault(module.function_definitions[i], table),
    )
}

/// The fault that the type check reports for a module, if any.
pub open spec fn type_fault(module: ModuleView, table: Map<Seq<char>, TypeView>) -> Option<
    FaultView,
> {
    first_fault(type_faults(module, table))
}

/// Checks an expression against the type that its place asks for.
pub fn check_operand(expression: &Expression, expected: &Type, scope: &SymbolTable) -> (r: Result<
    (),
    Fault,
>)
    ensures
        checked(r) == operand_fault(expression@, expected@, scope@),
    decreases expression@, 1nat,
{
    match type_of(expression, scope) {
        Err(fault) => Err(fault),
        Ok(found) => {
            if found.equals(expected) {
                Ok(())
            } else {
                Err(
                    Fault::new(
                        FaultKind::TypeMismatch,
                        expression.name(),
                        Some(expected.clone()),
                        Some(found),
                    ),
                )
            }
        },
    }
}

/// The type of an expression, or the first fault in it.
pub fn type_of(expression: &Expression, scope: &SymbolTable) -> (r: Result<Type, Fault>)
    ensures
        typed(r) == expression_type(expression@, scope@),
    decreases expression@, 0nat,
{
    match expression {
        Expression::Variable(variable) => {
            match scope.get(variable.name()) {
                Some(type_) => Ok(type_.clone()),
                None => Err(Fault::new(FaultKind::UndefinedName, variable.name(), None, None)),
            }
        },
        Expression::ComparisonOperation(operation) => type_of_comparison(operation, scope),
        Expression::CompareAndSwap(operation) => type_of_compare_and_swap(operation, scope),
    }
}

/// The type of a comparison, or the first fault in it.
pub fn type_of_comparison(operation: &ComparisonOperation, scope: &SymbolTable) -> (r: Result<
    Type,
    Fault,
>)
    ensures
        typed(r) == comparison_type(operation@, scope@),
    decreases operation@, 0nat,
{
    let expected = Type::Primitive(operation.type_());
    match check_operand(operation.lhs(), &expected, scope) {
        Err(fault) => {
            return Err(fault);
        },
        Ok(_) => {},
    }
    match check_operand(operation.rhs(), &expected, scope) {
        Err(fault) => {
            return Err(fault);
        },
        Ok(_) => {},
    }
    if !operation.operator().is_defined_for(operation.type_()) {
        return Err(Fault::new(FaultKind::TypeMismatch, operation.name(), None, Some(expected)));
    }
    Ok(Type::Primitive(Primitive::Boolean))
}

/// The type of a compare-and-swap, or the first fault in it.
pub fn type_of_compare_and_swap(operation: &CompareAndSwap, scope: &SymbolTable) -> (r: Result<
    Type,
    Fault,
>)
    ensures
        typed(r) == compare_and_swap_type(operation@, scope@),
    decreases operation@, 0nat,
{
    let pointer = Type::pointer(operation.type_().clone());
    match check_operand(operation.pointer(), &pointer, scope) {
        Err(fault) => {
            return Err(fault);
        },
        Ok(_) => {},
    }
    match check_operand(operation.old_value(), operation.type_(), scope) {
        Err(fault) => {
            return Err(fault);
        },
        Ok(_) => {},
    }
    match check_operand(operation.new_value(), operation.type_(), scope) {
        Err(fault) => {
            return Err(fault);
        },
        Ok(_) => {},
    }
    Ok(operation.type_().clone())
}

/// The type of the value that an instruction binds, or the first fault
/// in the instruction.
fn type_of_instruction(instruction: &Instruction, scope: &SymbolTable) -> (r: Result<Type, Fault>)
    ensures
        typed(r) == expression_type(instruction@.expression(), scope@),
        r is Ok ==> r->Ok_0@ == instruction_result_type(instruction@),
{
    match instruction {
        Instruction::ComparisonOperation(operation) => type_of_comparison(operation, scope),
        Instruction::CompareAndSwap(operation) => type_of_compare_and_swap(operation, scope),
    }
}

/// Checks a function definition: each instruction of its body in order,
/// with the arguments and the results of the instructions before it in
/// scope, and then its terminal instruction.
pub fn check_function(function: &FunctionDefinition, table: &SymbolTable) -> (r: Result<(), Fault>)
    ensures
        checked(r) == function_fault(function@, table@),
{
    let ghost faults = function_faults(function@, table@);
    let mut scope = table.clone();
    let arguments = function.arguments();
    let mut i: usize = 0;
    while i < arguments.len()
        invariant
            i <= arguments.len(),
            views(arguments@) == function@.arguments,
            scope@ == argument_scope(table@, function@, i as int),
        decreases arguments.len() - i,
    {
        assert(views(arguments@)[i as int] == arguments[i as int]@);
        scope.insert(arguments[i].name(), arguments[i].type_().clone());
        i += 1;
    }
    let instructions = function.body().instructions();
    let mut i: usize = 0;
    while i < instructions.len()
        invariant
            i <= instructions.len(),
            views(instructions@) == function@.body.instructions,
            faults == function_faults(function@, table@),
            scope@ == scope_at(table@, function@, i as int),
            forall|j: int| 0 <= j < i ==> faults[j] is None,
        decreases instructions.len() - i,
    {
        assert(views(instructions@)[i as int] == instructions[i as int]@);
        assert(faults[i as int] == located(
            instruction_fault(
                function@.body.instructions[i as int],
                scope_at(table@, function@, i as int),
            ),
            function@.body.instructions[i as int].name(),
        ));
        match type_of_instruction(&instructions[i], &scope) {
            Err(fault) => {
                proof {
                    lemma_first_fault_at(faults, i as int);
                }
                return Err(fault.inside(instructions[i].name()));
            },
            Ok(type_) => {
                scope.insert(instructions[i].name(), type_);
            },
        }
        i += 1;
    }
    let ghost n = instructions.len() as int;
    assert(faults[n] == terminal_fault(function@, scope_at(table@, function@, n)));
    match function.body().terminal_instruction() {
        TerminalInstruction::Unreachable => {},
        TerminalInstruction::Return(expression) => {
            match type_of(expression, &scope) {
                Err(fault) => {
                    proof {
                        lemma_first_fault_at(faults, n);
                    }
                    return Err(fault);
                },
                Ok(found) => {
                    if !found.equals(function.result_type()) {
                        proof {
                            lemma_first_fault_at(faults, n);
                        }
                        return Err(
                            Fault::new(
                                FaultKind::ReturnTypeMismatch,
                                function.name(),
                                Some(function.result_type().clone()),
                                Some(found),
                            ),
                        );
                    }
                },
            }
        },
    }
    proof {
        lemma_first_fault_none(faults);
    }
    Ok(())
}

/// The type check, the second pass: every variable definition in order,
/// then every function definition in order, against the types that
/// `table` gives the names of the module. It reports the first fault.
pub fn check_types(module: &Module, table: &SymbolTable) -> (r: Result<(), Fault>)
    ensures
        checked(r) == type_fault(module@, table@),
{
    let ghost first = Seq::new(
        module@.variable_definitions.len(),
        |i: int| definition_fault(module@.variable_definitions[i], table@),
    );
    let ghost second = Seq::new(
        module@.function_definitions.len(),
        |i: int| function_fault(module@.function_definitions[i], table@),
    );
    assert(type_faults(module@, table@) =~= first + second);
    proof {
        lemma_first_fault_append(first, second);
    }
    let definitions = module.variable_definitions();
    let mut i: usize = 0;
    while i < definitions.len()
        invariant
            i <= definitions.len(),
            views(definitions@) == module@.variable_definitions,
            first.len() == definitions.len(),
            type_fault(module@, table@) == if first_fault(first) is Some {
                first_fault(first)
            } else {
                first_fault(second)
            },
            forall|j: int|
                0 <= j < first.len() ==> first[j] == definition_fault(
                    module@.variable_definitions[j],
                    table@,
                ),
            forall|j: int| 0 <= j < i ==> first[j] is None,
        decreases definitions.len() - i,
    {
        assert(views(definitions@)[i as int] == definitions[i as int]@);
        match check_operand(definitions[i].body(), definitions[i].type_(), table) {
            Err(fault) => {
                proof {
                    lemma_first_fault_at(first, i as int);
                }
                return Err(fault);
            },
            Ok(_) => {},
        }
        i += 1;
    }
    proof {
        lemma_first_fault_none(first);
    }
    let definitions = module.function_definitions();
    let mut i: usize = 0;
    while i < definitions.len()
        invariant
            i <= definitions.len(),
            views(definitions@) == module@.function_definitions,
            second.len() == definitions.len(),
            type_fault(module@, table@) == first_fault(second),
            forall|j: int|
                0 <= j < second.len() ==> second[j] == function_fault(
                    module@.function_definitions[j],
                    table@,
                ),
            forall|j: int| 0 <= j < i ==> second[j] is None,
        decreases definitions.len() - i,
    {
        assert(views(definitions@)[i as int] == definitions[i as int]@);
        match check_function(&definitions[i], table) {
            Err(fault) => {
                proof {
                    lemma_first_fault_at(second, i as int);
                }
                return Err(fault);
            },
            Ok(_) => {},
        }
        i += 1;
    }
    proof {
        lemma_first_fault_none(second);
    }
    Ok(())
}

} // verus!
