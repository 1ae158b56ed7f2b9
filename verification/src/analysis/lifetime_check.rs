//! The lifetime check, the third pass. A variable definition that is
//! global lives as long as the program. One that is not lives in the
//! body of the first function definition that uses it: a later function
//! that uses it, or the initialiser of a variable definition, uses it
//! outside its scope. A compare-and-swap writes, so its pointer may not
//! be the address of a variable definition that is not mutable. A name
//! that a function binds itself, as an argument or as the result of an
//! earlier instruction, is no reference to a variable of the module.

use super::fault::{
    checked, first_fault, lemma_first_fault_append, lemma_first_fault_at, lemma_first_fault_none,
    located, Fault, FaultKind, FaultView,
};
use crate::ir::{
    CompareAndSwap, ComparisonOperation, Expression, ExpressionView, FunctionDefinition,
    FunctionDefinitionView, Instruction, Module, ModuleView, TerminalInstruction,
    TerminalInstructionView,
};
use crate::text::same_text;
use crate::types::views;
use vstd::prelude::*;

verus! {

/// A place in the body of a function definition: the index of the
/// function among the function definitions of its module, and the index
/// of an instruction of its body, or the number of its instructions for
/// its terminal instruction.
#[derive(Clone, Copy, Debug, PartialEq, Eq)]
pub struct Place {
    pub function: usize,
    pub position: usize,
}

/// Whether an expression refers to `name`.
pub open spec fn mentions(expression: ExpressionView, name: Seq<char>) -> bool
    decreases expression,
{
    match expression {
        ExpressionView::Variable(variable) => variable == name,
        ExpressionView::ComparisonOperation(operation) => mentions(*operation.lhs, name)
            || mentions(*operation.rhs, name),
        ExpressionView::CompareAndSwap(operation) => mentions(*operation.pointer, name)
            || mentions(*operation.old_value, name) || mentions(*operation.new_value, name),
    }
}

/// Whether `name` is bound at position `i` of a function's body: it is
/// the name of an argument, or of the result of an instruction before
/// `i`.
pub open spec fn bound_before(function: FunctionDefinitionView, i: int, name: Seq<char>) -> bool {
    ||| exists|a: int|
        0 <= a < function.arguments.len() && (#[trigger] function.arguments[a]).name == name
    ||| exists|j: int|
        0 <= j < i && j < function.body.instructions.len()
            && (#[trigger] function.body.instructions[j]).name() == name
}

/// Whether instruction `i` of a function's body refers to `name`, or,
/// for `i` the number of instructions, the value that the function
/// returns.
pub open spec fn item_mentions(function: FunctionDefinitionView, i: int, name: Seq<char>) -> bool {
    if 0 <= i < function.body.instructions.len() {
        mentions(function.body.instructions[i].expression(), name)
    } else {
        match function.body.terminal_instruction {
            TerminalInstructionView::Return(expression) => mentions(expression, name),
            TerminalInstructionView::Unreachable => false,
        }
    }
}

/// Whether the body of a function uses what the module registers under
/// `name`: it refers to the name at a position where the function itself
/// does not bind it.
pub open spec fn uses(function: FunctionDefinitionView, name: Seq<char>) -> bool {
    exists|i: int|
        0 <= i <= function.body.instructions.len() && #[trigger] item_mentions(function, i, name)
            && !bound_before(function, i, name)
}

/// Whether `name` is that of a variable definition that is not global.
pub open spec fn is_local(module: ModuleView, name: Seq<char>) -> bool {
    exists|d: int|
        0 <= d < module.variable_definitions.len() && (
        #[trigger] module.variable_definitions[d]).name == name
            && !module.variable_definitions[d].global
}

/// Whether `name` is that of a variable definition that is not mutable.
pub open spec fn is_immutable(module: ModuleView, name: Seq<char>) -> bool {
    exists|d: int|
        0 <= d < module.variable_definitions.len() && (
        #[trigger] module.variable_definitions[d]).name == name
            && !module.variable_definitions[d].mutable
}

/// Whether the function that `place` lies in binds `name` at `place`.
/// Outside function bodies nothing is bound.
pub open spec fn bound(module: ModuleView, place: Option<Place>, name: Seq<char>) -> bool {
    match place {
        None => false,
        Some(place) => bound_before(
            module.function_definitions[place.function as int],
            place.position as int,
            name,
        ),
    }
}

/// Whether the variable that the module registers under `name` cannot
/// be used at `place`. A variable definition that is not global lives in
/// the body of the first function definition that uses it, and nowhere
/// else: not in the initialiser of a variable definition, and not in the
/// body of a later function.
pub open spec fn outlived(module: ModuleView, place: Option<Place>, name: Seq<char>) -> bool {
    is_local(module, name) && match place {
        None => true,
        Some(place) => exists|k: int|
            0 <= k < place.function && k < module.function_definitions.len() && uses(
                #[trigger] module.function_definitions[k],
                name,
            ),
    }
}

/// The first lifetime fault of an expression at `place`, if any. Its
/// operands are visited in order. A reference to a name that is not
/// bound at `place` is at fault where the variable cannot be used there.
/// A compare-and-swap writes, so its pointer, once visited, is at fault
/// where it is the address of an immutable variable.
pub open spec fn expression_lifetime_fault(
    module: ModuleView,
    place: Option<Place>,
    expression: ExpressionView,
) -> Option<FaultView>
    decreases expression,
{
    match expression {
        ExpressionView::Variable(name) => if !bound(module, place, name) && outlived(
            module,
            place,
            name,
        ) {
            Some(FaultView::use_after_scope(name))
        } else {
            None
        },
        ExpressionView::ComparisonOperation(operation) => {
            let lhs = expression_lifetime_fault(module, place, *operation.lhs);
            if lhs is Some {
                lhs
            } else {
                expression_lifetime_fault(module, place, *operation.rhs)
            }
        },
        ExpressionView::CompareAndSwap(operation) => {
            let pointer = expression_lifetime_fault(module, place, *operation.pointer);
            let old_value = expression_lifetime_fault(module, place, *operation.old_value);
            if pointer is Some {
                pointer
            } else if writes_immutable(module, place, *operation.pointer) {
                Some(FaultView::mutation_of_immutable(operation.pointer.name()))
            } else if old_value is Some {
                old_value
            } else {
                expression_lifetime_fault(module, place, *operation.new_value)
            }
        },
    }
}

/// Whether `pointer`, as the pointer of an instruction that writes, is
/// the address of an immutable variable: a reference to a name that is
/// not bound at `place` and that a variable definition registers as not
/// mutable.
pub open spec fn writes_immutable(
    module: ModuleView,
    place: Option<Place>,
    pointer: ExpressionView,
) -> bool {
    pointer is Variable && !bound(module, place, pointer.name()) && is_immutable(
        module,
        pointer.name(),
    )
}

/// For each instruction of the body of function definition `k` in order,
/// and then for the value that it returns, its first lifetime fault or
/// none. The fault of an instruction carries the name of the
/// instruction.
pub open spec fn function_lifetime_faults(module: ModuleView, k: int) -> Seq<Option<FaultView>> {
    let function = module.function_definitions[k];
    let n = function.body.instructions.len() as int;
    Seq::new(
        (n + 1) as nat,
        |i: int|
            if i < n {
                located(
                    expression_lifetime_fault(
                        module,
                        Some(Place { function: k as usize, position: i as usize }),
                        function.body.instructions[i].expression(),
                    ),
                    function.body.instructions[i].name(),
                )
            } else {
                match function.body.terminal_instruction {
                    TerminalInstructionView::Return(expression) => expression_lifetime_fault(
                        module,
                        Some(Place { function: k as usize, position: n as usize }),
                        expression,
                    ),
                    TerminalInstructionView::Unreachable => None,
                }
            },
    )
}

/// The first lifetime fault of function definition `k`, if any.
pub open spec fn function_lifetime_fault(module: ModuleView, k: int) -> Option<FaultView> {
    first_fault(function_lifetime_faults(module, k))
}

/// For the initialiser of each variable definition in order, and then
/// for each function definition in order, its first lifetime fault or
/// none.
pub open spec fn lifetime_faults(module: ModuleView) -> Seq<Option<FaultView>> {
    Seq::new(
        module.variable_definitions.len(),
        |i: int| expression_lifetime_fault(module, None, module.variable_definitions[i].body),
    ) + Seq::new(
        module.function_definitions.len(),
        |k: int| function_lifetime_fault(module, k),
    )
}

/// The fault that the lifetime check reports for a module, if any.
pub open spec fn lifetime_fault(module: ModuleView) -> Option<FaultView> {
    first_fault(lifetime_faults(module))
}

/// Whether `place` is a place of `module`.
pub open spec fn place_in(module: ModuleView, place: Option<Place>) -> bool {
    match place {
        None => true,
        Some(place) => place.function < module.function_definitions.len() && place.position
            <= module.function_definitions[place.function as int].body.instructions.len(),
    }
}

fn expression_mentions(expression: &Expression, name: &str) -> (r: bool)
    ensures
        r == mentions(expression@, name@),
    decreases expression@, 0nat,
{
    match expression {
        Expression::Variable(variable) => same_text(variable.name(), name),
        Expression::ComparisonOperation(operation) => {
            assert(expression@->ComparisonOperation_0 == operation@);
            comparison_mentions(operation, name)
        },
        Expression::CompareAndSwap(operation) => {
            assert(expression@->CompareAndSwap_0 == operation@);
            compare_and_swap_mentions(operation, name)
        },
    }
}

fn comparison_mentions(operation: &ComparisonOperation, name: &str) -> (r: bool)
    ensures
        r == mentions(ExpressionView::ComparisonOperation(operation@), name@),
    decreases operation@, 0nat,
{
    expression_mentions(operation.lhs(), name) || expression_mentions(operation.rhs(), name)
}

fn compare_and_swap_mentions(operation: &CompareAndSwap, name: &str) -> (r: bool)
    ensures
        r == mentions(ExpressionView::CompareAndSwap(operation@), name@),
    decreases operation@, 0nat,
{
    expression_mentions(operation.pointer(), name) || expression_mentions(
        operation.old_value(),
        name,
    ) || expression_mentions(operation.new_value(), name)
}

fn is_bound_before(function: &FunctionDefinition, i: usize, name: &str) -> (r: bool)
    requires
        i <= function@.body.instructions.len(),
    ensures
        r == bound_before(function@, i as int, name@),
{
    let arguments = function.arguments();
    let mut a: usize = 0;
    while a < arguments.len()
        invariant
            a <= arguments.len(),
            views(arguments@) == function@.arguments,
            forall|b: int| 0 <= b < a ==> (#[trigger] function@.arguments[b]).name != name@,
        decreases arguments.len() - a,
    {
        assert(views(arguments@)[a as int] == arguments[a as int]@);
        if same_text(arguments[a].name(), name) {
            return true;
        }
        a += 1;
    }
    let instructions = function.body().instructions();
    let mut j: usize = 0;
    while j < i
        invariant
            j <= i <= instructions.len(),
            views(instructions@) == function@.body.instructions,
            forall|b: int|
                0 <= b < j ==> (#[trigger] function@.body.instructions[b]).name() != name@,
        decreases i - j,
    {
        assert(views(instructions@)[j as int] == instructions[j as int]@);
        if same_text(instructions[j].name(), name) {
            return true;
        }
        j += 1;
    }
    false
}

fn does_item_mention(function: &FunctionDefinition, i: usize, name: &str) -> (r: bool)
    requires
        i <= function@.body.instructions.len(),
    ensures
        r == item_mentions(function@, i as int, name@),
{
    let instructions = function.body().instructions();
    if i < instructions.len() {
        assert(views(instructions@)[i as int] == instructions[i as int]@);
        match &instructions[i] {
            Instruction::ComparisonOperation(operation) => comparison_mentions(operation, name),
            Instruction::CompareAndSwap(operation) => compare_and_swap_mentions(operation, name),
        }
    } else {
        match function.body().terminal_instruction() {
            TerminalInstruction::Return(expression) => expression_mentions(expression, name),
            TerminalInstruction::Unreachable => false,
        }
    }
}

fn does_use(function: &FunctionDefinition, name: &str) -> (r: bool)
    ensures
        r == uses(function@, name@),
{
    let n = function.body().instructions().len();
    let mut i: usize = 0;
    while i < n
        invariant
            i <= n,
            n == function@.body.instructions.len(),
            forall|j: int|
                0 <= j < i ==> !(#[trigger] item_mentions(function@, j, name@) && !bound_before(
                    function@,
                    j,
                    name@,
                )),
        decreases n - i,
    {
        if does_item_mention(function, i, name) && !is_bound_before(function, i, name) {
            return true;
        }
        i += 1;
    }
    does_item_mention(function, n, name) && !is_bound_before(function, n, name)
}

fn is_local_name(module: &Module, name: &str) -> (r: bool)
    ensures
        r == is_local(module@, name@),
{
    let definitions = module.variable_definitions();
    let mut d: usize = 0;
    while d < definitions.len()
        invariant
            d <= definitions.len(),
            views(definitions@) == module@.variable_definitions,
            forall|e: int|
                0 <= e < d ==> !((#[trigger] module@.variable_definitions[e]).name == name@
                    && !module@.variable_definitions[e].global),
        decreases definitions.len() - d,
    {
        assert(views(definitions@)[d as int] == definitions[d as int]@);
        if same_text(definitions[d].name(), name) && !definitions[d].is_global() {
            return true;
        }
        d += 1;
    }
    false
}

fn is_immutable_name(module: &Module, name: &str) -> (r: bool)
    ensures
        r == is_immutable(module@, name@),
{
    let definitions = module.variable_definitions();
    let mut d: usize = 0;
    while d < definitions.len()
        invariant
            d <= definitions.len(),
            views(definitions@) == module@.variable_definitions,
            forall|e: int|
                0 <= e < d ==> !((#[trigger] module@.variable_definitions[e]).name == name@
                    && !module@.variable_definitions[e].mutable),
        decreases definitions.len() - d,
    {
        assert(views(definitions@)[d as int] == definitions[d as int]@);
        if same_text(definitions[d].name(), name) && !definitions[d].is_mutable() {
            return true;
        }
        d += 1;
    }
    false
}

fn is_bound(module: &Module, place: Option<Place>, name: &str) -> (r: bool)
    requires
        place_in(module@, place),
    ensures
        r == bound(module@, place, name@),
{
    match place {
        None => false,
        Some(place) => {
            let functions = module.function_definitions();
            assert(views(functions@)[place.function as int] == functions[place.function as int]@);
            is_bound_before(&functions[place.function], place.position, name)
        },
    }
}

fn is_outlived(module: &Module, place: Option<Place>, name: &str) -> (r: bool)
    requires
        place_in(module@, place),
    ensures
        r == outlived(module@, place, name@),
{
    if !is_local_name(module, name) {
        return false;
    }
    match place {
        None => true,
        Some(inside) => {
            let functions = module.function_definitions();
            let mut k: usize = 0;
            while k < inside.function
                invariant
                    k <= inside.function < functions.len(),
                    place == Some(inside),
                    is_local(module@, name@),
                    views(functions@) == module@.function_definitions,
                    forall|j: int|
                        0 <= j < k ==> !uses(#[trigger] module@.function_definitions[j], name@),
                decreases inside.function - k,
            {
                assert(views(functions@)[k as int] == functions[k as int]@);
                if does_use(&functions[k], name) {
                    assert(uses(module@.function_definitions[k as int], name@));
                    return true;
                }
                k += 1;
            }
            false
        },
    }
}

/// The first lifetime fault of an expression at `place`, if any.
pub fn check_expression_lifetimes(
    module: &Module,
    place: Option<Place>,
    expression: &Expression,
) -> (r: Result<(), Fault>)
    requires
        place_in(module@, place),
    ensures
        checked(r) == expression_lifetime_fault(module@, place, expression@),
    decreases expression@,
{
    match expression {
        Expression::Variable(variable) => {
            if !is_bound(module, place, variable.name()) && is_outlived(
                module,
                place,
                variable.name(),
            ) {
                Err(Fault::new(FaultKind::UseAfterScope, variable.name(), None, None))
            } else {
                Ok(())
            }
        },
        Expression::ComparisonOperation(operation) => check_comparison_lifetimes(
            module,
            place,
            operation,
        ),
        Expression::CompareAndSwap(operation) => check_compare_and_swap_lifetimes(
            module,
            place,
            operation,
        ),
    }
}

fn check_comparison_lifetimes(
    module: &Module,
    place: Option<Place>,
    operation: &ComparisonOperation,
) -> (r: Result<(), Fault>)
    requires
        place_in(module@, place),
    ensures
        checked(r) == expression_lifetime_fault(
            module@,
            place,
            ExpressionView::ComparisonOperation(operation@),
        ),
    decreases operation@,
{
    match check_expression_lifetimes(module, place, operation.lhs()) {
        Err(fault) => Err(fault),
        Ok(_) => check_expression_lifetimes(module, place, operation.rhs()),
    }
}

fn check_compare_and_swap_lifetimes(
    module: &Module,
    place: Option<Place>,
    operation: &CompareAndSwap,
) -> (r: Result<(), Fault>)
    requires
        place_in(module@, place),
    ensures
        checked(r) == expression_lifetime_fault(
            module@,
            place,
            ExpressionView::CompareAndSwap(operation@),
        ),
    decreases operation@,
{
    match check_expression_lifetimes(module, place, operation.pointer()) {
        Err(fault) => {
            return Err(fault);
        },
        Ok(_) => {},
    }
    match operation.pointer() {
        Expression::Variable(variable) => {
            if !is_bound(module, place, variable.name()) && is_immutable_name(
                module,
                variable.name(),
            ) {
                return Err(Fault::new(FaultKind::MutationOfImmutable, variable.name(), None, None));
            }
        },
        _ => {},
    }
    match check_expression_lifetimes(module, place, operation.old_value()) {
        Err(fault) => {
            return Err(fault);
        },
        Ok(_) => {},
    }
    check_expression_lifetimes(module, place, operation.new_value())
}

/// The first lifetime fault of function definition `k`, if any: its
/// body is walked in order, each instruction with the names in scope at
/// its position.
pub fn check_function_lifetimes(module: &Module, k: usize) -> (r: Result<(), Fault>)
    requires
        k < module@.function_definitions.len(),
    ensures
        checked(r) == function_lifetime_fault(module@, k as int),
{
    let ghost faults = function_lifetime_faults(module@, k as int);
    let functions = module.function_definitions();
    assert(views(functions@)[k as int] == functions[k as int]@);
    let function = &functions[k];
    let instructions = function.body().instructions();
    let n = instructions.len();
    let mut i: usize = 0;
    while i < n
        invariant
            i <= n,
            n == instructions.len(),
            k < module@.function_definitions.len(),
            function@ == module@.function_definitions[k as int],
            views(instructions@) == function@.body.instructions,
            faults == function_lifetime_faults(module@, k as int),
            forall|j: int| 0 <= j < i ==> faults[j] is None,
        decreases n - i,
    {
        assert(views(instructions@)[i as int] == instructions[i as int]@);
        let place = Some(Place { function: k, position: i });
        let checked = match &instructions[i] {
            Instruction::ComparisonOperation(operation) => check_comparison_lifetimes(
                module,
                place,
                operation,
            ),
            Instruction::CompareAndSwap(operation) => check_compare_and_swap_lifetimes(
                module,
                place,
                operation,
            ),
        };
        match checked {
            Err(fault) => {
                proof {
                    lemma_first_fault_at(faults, i as int);
                }
                return Err(fault.inside(instructions[i].name()));
            },
            Ok(_) => {},
        }
        i += 1;
    }
    match function.body().terminal_instruction() {
        TerminalInstruction::Unreachable => {},
        TerminalInstruction::Return(expression) => {
            match check_expression_lifetimes(
                module,
                Some(Place { function: k, position: n }),
                expression,
            ) {
                Err(fault) => {
                    proof {
                        lemma_first_fault_at(faults, n as int);
                    }
                    return Err(fault);
                },
                Ok(_) => {},
            }
        },
    }
    proof {
        lemma_first_fault_none(faults);
    }
    Ok(())
}

/// The lifetime check, the third pass: the initialiser of every variable
/// definition in order, then the body of every function definition in
/// order. It reports the first fault.
pub fn check_lifetimes(module: &Module) -> (r: Result<(), Fault>)
    ensures
        checked(r) == lifetime_fault(module@),
{
    let ghost first = Seq::new(
        module@.variable_definitions.len(),
        |i: int| expression_lifetime_fault(module@, None, module@.variable_definitions[i].body),
    );
    let ghost second = Seq::new(
        module@.function_definitions.len(),
        |k: int| function_lifetime_fault(module@, k),
    );
    assert(lifetime_faults(module@) =~= first + second);
    proof {
        lemma_first_fault_append(first, second);
    }
    let definitions = module.variable_definitions();
    let mut i: usize = 0;
    while i < definitions.len()
        invariant
            i <= definitions.len(),
            views(definitions@) == module@.variable_definitions,
            first.len() == definitions.len(),
            lifetime_fault(module@) == if first_fault(first) is Some {
                first_fault(first)
            } else {
                first_fault(second)
            },
            forall|j: int|
                0 <= j < first.len() ==> first[j] == expression_lifetime_fault(
                    module@,
                    None,
                    module@.variable_definitions[j].body,
                ),
            forall|j: int| 0 <= j < i ==> first[j] is None,
        decreases definitions.len() - i,
    {
        assert(views(definitions@)[i as int] == definitions[i as int]@);
        match check_expression_lifetimes(module, None, definitions[i].body()) {
            Err(fault) => {
                proof {
                    lemma_first_fault_at(first, i as int);
                }
                return Err(fault);
            },
            Ok(_) => {},
        }
        i += 1;
    }
    proof {
        lemma_first_fault_none(first);
    }
    let n = module.function_definitions().len();
    let mut k: usize = 0;
    while k < n
        invariant
            k <= n,
            n == module@.function_definitions.len(),
            second.len() == n,
            lifetime_fault(module@) == first_fault(second),
            forall|j: int|
                0 <= j < second.len() ==> second[j] == function_lifetime_fault(module@, j),
            forall|j: int| 0 <= j < k ==> second[j] is None,
        decreases n - k,
    {
        match check_function_lifetimes(module, k) {
            Err(fault) => {
                proof {
                    lemma_first_fault_at(second, k as int);
                }
                return Err(fault);
            },
            Ok(_) => {},
        }
        k += 1;
    }
    proof {
        lemma_first_fault_none(second);
    }
    Ok(())
}

} // verus!
