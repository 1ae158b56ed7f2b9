//! Renaming, the last pass. The synthetic names of a module are numbered
//! in the order in which they first occur, and each gives way to the
//! synthetic name of its number. Other names stay. The new name of a
//! name depends on the module alone.

use crate::ir::{
    Argument, ArgumentView, Block, BlockView, CompareAndSwap, CompareAndSwapView,
    ComparisonOperation, ComparisonOperationView, Expression, ExpressionView, FunctionDeclaration,
    FunctionDeclarationView, FunctionDefinition, FunctionDefinitionView, Instruction,
    InstructionView, Module, ModuleView, TerminalInstruction, TerminalInstructionView, Variable,
    VariableDeclaration, VariableDeclarationView, VariableDefinition, VariableDefinitionView,
};
use super::type_collection::{
    collection_fault, compatible, lemma_collection_characterised, module_symbols, SymbolView,
};
use crate::names::{is_synthetic, is_synthetic_name, make_synthetic_name, synthetic_name};
use crate::text::same_text;
use crate::types::views;
use vstd::prelude::*;

verus! {

/// The list of synthetic names met so far, after `name` is met: a
/// synthetic name that the list lacks goes to its end.
pub open spec fn noted(table: Seq<Seq<char>>, name: Seq<char>) -> Seq<Seq<char>> {
    if is_synthetic(name) && !table.contains(name) {
        table.push(name)
    } else {
        table
    }
}

/// The list of synthetic names met so far, after `names` are met in
/// order.
pub open spec fn noted_all(table: Seq<Seq<char>>, names: Seq<Seq<char>>) -> Seq<Seq<char>>
    decreases names.len(),
{
    if names.len() == 0 {
        table
    } else {
        noted(noted_all(table, names.drop_last()), names.last())
    }
}

/// The first `n` of `parts`, one after the other.
pub open spec fn joined(parts: Seq<Seq<Seq<char>>>, n: int) -> Seq<Seq<char>>
    decreases n,
{
    if n <= 0 {
        Seq::empty()
    } else {
        joined(parts, n - 1) + parts[n - 1]
    }
}

/// The names that occur in an expression, in the order in which the
/// pass meets them: those of the operands in order, then the name that
/// the operation binds.
pub open spec fn expression_names(expression: ExpressionView) -> Seq<Seq<char>>
    decreases expression,
{
    match expression {
        ExpressionView::Variable(name) => seq![name],
        ExpressionView::ComparisonOperation(operation) => expression_names(*operation.lhs)
            + expression_names(*operation.rhs) + seq![operation.name],
        ExpressionView::CompareAndSwap(operation) => expression_names(*operation.pointer)
            + expression_names(*operation.old_value) + expression_names(*operation.new_value)
            + seq![operation.name],
    }
}

/// The names that occur in a terminal instruction.
pub open spec fn terminal_names(terminal: TerminalInstructionView) -> Seq<Seq<char>> {
    match terminal {
        TerminalInstructionView::Return(expression) => expression_names(expression),
        TerminalInstructionView::Unreachable => Seq::empty(),
    }
}

/// The names that occur in each instruction of a block.
pub open spec fn instruction_parts(block: BlockView) -> Seq<Seq<Seq<char>>> {
    Seq::new(
        block.instructions.len(),
        |i: int| expression_names(block.instructions[i].expression()),
    )
}

/// The names that occur in a block: those of its instructions in order,
/// then those of its terminal instruction.
pub open spec fn block_names(block: BlockView) -> Seq<Seq<char>> {
    joined(instruction_parts(block), block.instructions.len() as int) + terminal_names(
        block.terminal_instruction,
    )
}

/// The name of each argument of a function.
pub open spec fn argument_parts(function: FunctionDefinitionView) -> Seq<Seq<Seq<char>>> {
    Seq::new(function.arguments.len(), |i: int| seq![function.arguments[i].name])
}

/// The names that occur in a function definition: its own, those of its
/// arguments, those of its body.
pub open spec fn function_names(function: FunctionDefinitionView) -> Seq<Seq<char>> {
    seq![function.name] + joined(argument_parts(function), function.arguments.len() as int)
        + block_names(function.body)
}

/// The names that occur in a variable definition: its own, then those of
/// its body.
pub open spec fn definition_names(definition: VariableDefinitionView) -> Seq<Seq<char>> {
    seq![definition.name] + expression_names(definition.body)
}

/// The name of each variable declaration of a module.
pub open spec fn variable_declaration_parts(module: ModuleView) -> Seq<Seq<Seq<char>>> {
    Seq::new(
        module.variable_declarations.len(),
        |i: int| seq![module.variable_declarations[i].name],
    )
}

/// The name of each function declaration of a module.
pub open spec fn function_declaration_parts(module: ModuleView) -> Seq<Seq<Seq<char>>> {
    Seq::new(
        module.function_declarations.len(),
        |i: int| seq![module.function_declarations[i].name],
    )
}

/// The names that occur in each variable definition of a module.
pub open spec fn variable_definition_parts(module: ModuleView) -> Seq<Seq<Seq<char>>> {
    Seq::new(
        module.variable_definitions.len(),
        |i: int| definition_names(module.variable_definitions[i]),
    )
}

/// The names that occur in each function definition of a module.
pub open spec fn function_definition_parts(module: ModuleView) -> Seq<Seq<Seq<char>>> {
    Seq::new(
        module.function_definitions.len(),
        |i: int| function_names(module.function_definitions[i]),
    )
}

/// Every occurrence of a name in a module, in the order in which the
/// pass meets them: the four collections in order, each in its own
/// order.
pub open spec fn module_names(module: ModuleView) -> Seq<Seq<char>> {
    joined(variable_declaration_parts(module), module.variable_declarations.len() as int) + joined(
        function_declaration_parts(module),
        module.function_declarations.len() as int,
    ) + joined(variable_definition_parts(module), module.variable_definitions.len() as int)
        + joined(function_definition_parts(module), module.function_definitions.len() as int)
}

/// The synthetic names of a module, each once, in the order in which
/// they first occur.
pub open spec fn synthetic_names(module: ModuleView) -> Seq<Seq<char>> {
    noted_all(Seq::empty(), module_names(module))
}

/// The index at which `name` first stands in `table`, or the length of
/// `table` if it does not.
pub open spec fn position(table: Seq<Seq<char>>, name: Seq<char>) -> int
    decreases table.len(),
{
    if table.len() == 0 || table[0] == name {
        0
    } else {
        1 + position(table.drop_first(), name)
    }
}

/// The name that takes the place of `name`: for a name of `table`, the
/// synthetic name that has its index in `table` for number; any other
/// name stays.
pub open spec fn renamed_name(table: Seq<Seq<char>>, name: Seq<char>) -> Seq<char> {
    if table.contains(name) {
        synthetic_name(position(table, name) as nat)
    } else {
        name
    }
}

/// An expression with every name in it renamed.
pub open spec fn renamed_expression(
    table: Seq<Seq<char>>,
    expression: ExpressionView,
) -> ExpressionView
    decreases expression,
{
    match expression {
        ExpressionView::Variable(name) => ExpressionView::Variable(renamed_name(table, name)),
        ExpressionView::ComparisonOperation(operation) => ExpressionView::ComparisonOperation(
            renamed_comparison(table, operation),
        ),
        ExpressionView::CompareAndSwap(operation) => ExpressionView::CompareAndSwap(
            renamed_compare_and_swap(table, operation),
        ),
    }
}

/// A comparison with every name in it renamed.
pub open spec fn renamed_comparison(
    table: Seq<Seq<char>>,
    operation: ComparisonOperationView,
) -> ComparisonOperationView
    decreases operation,
{
    ComparisonOperationView {
        type_: operation.type_,
        operator: operation.operator,
        lhs: Box::new(renamed_expression(table, *operation.lhs)),
        rhs: Box::new(renamed_expression(table, *operation.rhs)),
        name: renamed_name(table, operation.name),
    }
}

/// A compare-and-swap with every name in it renamed.
pub open spec fn renamed_compare_and_swap(
    table: Seq<Seq<char>>,
    operation: CompareAndSwapView,
) -> CompareAndSwapView
    decreases operation,
{
    CompareAndSwapView {
        type_: operation.type_,
        pointer: Box::new(renamed_expression(table, *operation.pointer)),
        old_value: Box::new(renamed_expression(table, *operation.old_value)),
        new_value: Box::new(renamed_expression(table, *operation.new_value)),
        name: renamed_name(table, operation.name),
    }
}

/// An instruction with every name in it renamed.
pub open spec fn renamed_instruction(
    table: Seq<Seq<char>>,
    instruction: InstructionView,
) -> InstructionView {
    match instruction {
        InstructionView::ComparisonOperation(operation) => InstructionView::ComparisonOperation(
            renamed_comparison(table, operation),
        ),
        InstructionView::CompareAndSwap(operation) => InstructionView::CompareAndSwap(
            renamed_compare_and_swap(table, operation),
        ),
    }
}

/// A terminal instruction with every name in it renamed.
pub open spec fn renamed_terminal(
    table: Seq<Seq<char>>,
    terminal: TerminalInstructionView,
) -> TerminalInstructionView {
    match terminal {
        TerminalInstructionView::Return(expression) => TerminalInstructionView::Return(
            renamed_expression(table, expression),
        ),
        TerminalInstructionView::Unreachable => TerminalInstructionView::Unreachable,
    }
}

/// A block with every name in it renamed.
pub open spec fn renamed_block(table: Seq<Seq<char>>, block: BlockView) -> BlockView {
    BlockView {
        instructions: Seq::new(
            block.instructions.len(),
            |i: int| renamed_instruction(table, block.instructions[i]),
        ),
        terminal_instruction: renamed_terminal(table, block.terminal_instruction),
    }
}

/// An argument with its name renamed.
pub open spec fn renamed_argument(table: Seq<Seq<char>>, argument: ArgumentView) -> ArgumentView {
    ArgumentView { name: renamed_name(table, argument.name), type_: argument.type_ }
}

/// A variable declaration with its name renamed.
pub open spec fn renamed_variable_declaration(
    table: Seq<Seq<char>>,
    declaration: VariableDeclarationView,
) -> VariableDeclarationView {
    VariableDeclarationView {
        name: renamed_name(table, declaration.name),
        type_: declaration.type_,
    }
}

/// A function declaration with its name renamed.
pub open spec fn renamed_function_declaration(
    table: Seq<Seq<char>>,
    declaration: FunctionDeclarationView,
) -> FunctionDeclarationView {
    FunctionDeclarationView {
        name: renamed_name(table, declaration.name),
        type_: declaration.type_,
    }
}

/// A variable definition with every name in it renamed.
pub open spec fn renamed_variable_definition(
    table: Seq<Seq<char>>,
    definition: VariableDefinitionView,
) -> VariableDefinitionView {
    VariableDefinitionView {
        name: renamed_name(table, definition.name),
        body: renamed_expression(table, definition.body),
        type_: definition.type_,
        mutable: definition.mutable,
        global: definition.global,
    }
}

/// A function definition with every name in it renamed.
pub open spec fn renamed_function_definition(
    table: Seq<Seq<char>>,
    definition: FunctionDefinitionView,
) -> FunctionDefinitionView {
    FunctionDefinitionView {
        name: renamed_name(table, definition.name),
        arguments: Seq::new(
            definition.arguments.len(),
            |i: int| renamed_argument(table, definition.arguments[i]),
        ),
        body: renamed_block(table, definition.body),
        result_type: definition.result_type,
        global: definition.global,
    }
}

/// A module after renaming: every occurrence of a synthetic name gives
/// way to the synthetic name whose number is the rank of the old name
/// among the synthetic names of the module, in the order in which they
/// first occur. Nothing else changes.
pub open spec fn renamed_module(module: ModuleView) -> ModuleView {
    let table = synthetic_names(module);
    ModuleView {
        variable_declarations: Seq::new(
            module.variable_declarations.len(),
            |i: int| renamed_variable_declaration(table, module.variable_declarations[i]),
        ),
        function_declarations: Seq::new(
            module.function_declarations.len(),
            |i: int| renamed_function_declaration(table, module.function_declarations[i]),
        ),
        variable_definitions: Seq::new(
            module.variable_definitions.len(),
            |i: int| renamed_variable_definition(table, module.variable_definitions[i]),
        ),
        function_definitions: Seq::new(
            module.function_definitions.len(),
            |i: int| renamed_function_definition(table, module.function_definitions[i]),
        ),
    }
}

/// Meeting two lists of names one after the other is meeting the one
/// list that they make.
pub proof fn lemma_noted_all_append(
    table: Seq<Seq<char>>,
    a: Seq<Seq<char>>,
    b: Seq<Seq<char>>,
)
    ensures
        noted_all(table, a + b) == noted_all(noted_all(table, a), b),
    decreases b.len(),
{
    if b.len() == 0 {
        assert(a + b =~= a);
    } else {
        assert((a + b).drop_last() =~= a + b.drop_last());
        assert((a + b).last() == b.last());
        lemma_noted_all_append(table, a, b.drop_last());
    }
}

/// Every synthetic name that is met is in the list afterwards.
pub proof fn lemma_noted_all_notes(table: Seq<Seq<char>>, names: Seq<Seq<char>>, name: Seq<char>)
    requires
        names.contains(name),
        is_synthetic(name),
    ensures
        noted_all(table, names).contains(name),
    decreases names.len(),
{
    let before = noted_all(table, names.drop_last());
    let after = noted_all(table, names);
    if names.last() == name {
        if before.contains(name) {
            let i = choose|i: int| 0 <= i < before.len() && before[i] == name;
            assert(after[i] == name);
        } else {
            assert(after[before.len() as int] == name);
        }
    } else {
        let i = choose|i: int| 0 <= i < names.len() && names[i] == name;
        assert(names.drop_last()[i] == name);
        lemma_noted_all_notes(table, names.drop_last(), name);
        let j = choose|j: int| 0 <= j < before.len() && before[j] == name;
        assert(after[j] == name);
    }
}

/// A list of synthetic names stays one.
pub proof fn lemma_noted_all_synthetic(table: Seq<Seq<char>>, names: Seq<Seq<char>>)
    requires
        forall|i: int| 0 <= i < table.len() ==> is_synthetic(#[trigger] table[i]),
    ensures
        forall|i: int|
            0 <= i < noted_all(table, names).len() ==> is_synthetic(
                #[trigger] noted_all(table, names)[i],
            ),
    decreases names.len(),
{
    if names.len() > 0 {
        lemma_noted_all_synthetic(table, names.drop_last());
        let before = noted_all(table, names.drop_last());
        let after = noted_all(table, names);
        assert forall|i: int| 0 <= i < after.len() implies is_synthetic(#[trigger] after[i]) by {
            if i < before.len() {
                assert(after[i] == before[i]);
            }
        }
    }
}

/// The position of a name of the list is the first index at which it
/// stands.
pub proof fn lemma_position(table: Seq<Seq<char>>, name: Seq<char>)
    requires
        table.contains(name),
    ensures
        0 <= position(table, name) < table.len(),
        table[position(table, name)] == name,
        forall|j: int| 0 <= j < position(table, name) ==> table[j] != name,
    decreases table.len(),
{
    if table[0] != name {
        let rest = table.drop_first();
        let i = choose|i: int| 0 <= i < table.len() && table[i] == name;
        assert(rest[i - 1] == name);
        lemma_position(rest, name);
        assert forall|j: int| 0 <= j < position(table, name) implies table[j] != name by {
            if j > 0 {
                assert(rest[j - 1] == table[j]);
            }
        }
    }
}

/// Renaming is one-to-one on the names that occur in a module: two names
/// that differ give way to two names that differ.
pub proof fn lemma_renaming_injective(module: ModuleView, a: Seq<char>, b: Seq<char>)
    requires
        module_names(module).contains(a),
        module_names(module).contains(b),
        a != b,
    ensures
        renamed_name(synthetic_names(module), a) != renamed_name(synthetic_names(module), b),
{
    let table = synthetic_names(module);
    lemma_noted_all_synthetic(Seq::empty(), module_names(module));
    if is_synthetic(a) {
        lemma_noted_all_notes(Seq::empty(), module_names(module), a);
        lemma_position(table, a);
        crate::names::lemma_synthetic_name_is_synthetic(position(table, a) as nat);
    }
    if is_synthetic(b) {
        lemma_noted_all_notes(Seq::empty(), module_names(module), b);
        lemma_position(table, b);
        crate::names::lemma_synthetic_name_is_synthetic(position(table, b) as nat);
    }
    if is_synthetic(a) && is_synthetic(b) {
        crate::names::lemma_synthetic_names_distinct(
            position(table, a) as nat,
            position(table, b) as nat,
        );
    }
}

/// Renaming leaves alone every name that is not synthetic.
pub proof fn lemma_renaming_keeps_other_names(module: ModuleView, name: Seq<char>)
    requires
        !is_synthetic(name),
    ensures
        renamed_name(synthetic_names(module), name) == name,
{
    lemma_noted_all_synthetic(Seq::empty(), module_names(module));
}

/// What stands in one of the first `n` parts stands in what they make.
proof fn lemma_joined_contains(parts: Seq<Seq<Seq<char>>>, n: int, k: int, name: Seq<char>)
    requires
        0 <= k < n <= parts.len(),
        parts[k].contains(name),
    ensures
        joined(parts, n).contains(name),
    decreases n,
{
    let before = joined(parts, n - 1);
    if k == n - 1 {
        let i = choose|i: int| 0 <= i < parts[k].len() && parts[k][i] == name;
        assert((before + parts[k])[before.len() + i] == name);
    } else {
        lemma_joined_contains(parts, n - 1, k, name);
        let i = choose|i: int| 0 <= i < before.len() && before[i] == name;
        assert((before + parts[n - 1])[i] == name);
    }
}

/// What stands in one of two lists stands in the list that they make.
proof fn lemma_append_contains(a: Seq<Seq<char>>, b: Seq<Seq<char>>, name: Seq<char>)
    requires
        a.contains(name) || b.contains(name),
    ensures
        (a + b).contains(name),
{
    if a.contains(name) {
        let i = choose|i: int| 0 <= i < a.len() && a[i] == name;
        assert((a + b)[i] == name);
    } else {
        let i = choose|i: int| 0 <= i < b.len() && b[i] == name;
        assert((a + b)[a.len() + i] == name);
    }
}

/// The name of every variable declaration occurs in the module.
proof fn lemma_variable_declaration_occurs(module: ModuleView, k: int)
    requires
        0 <= k < module.variable_declarations.len(),
    ensures
        module_names(module).contains(module.variable_declarations[k].name),
{
    let name = module.variable_declarations[k].name;
    let a = joined(variable_declaration_parts(module), module.variable_declarations.len() as int);
    let b = joined(function_declaration_parts(module), module.function_declarations.len() as int);
    let c = joined(variable_definition_parts(module), module.variable_definitions.len() as int);
    let d = joined(function_definition_parts(module), module.function_definitions.len() as int);
    assert(variable_declaration_parts(module)[k][0] == name);
    lemma_joined_contains(
        variable_declaration_parts(module),
        module.variable_declarations.len() as int,
        k,
        name,
    );
    lemma_append_contains(a, b, name);
    lemma_append_contains(a + b, c, name);
    lemma_append_contains(a + b + c, d, name);
}

/// The name of every function declaration occurs in the module.
proof fn lemma_function_declaration_occurs(module: ModuleView, k: int)
    requires
        0 <= k < module.function_declarations.len(),
    ensures
        module_names(module).contains(module.function_declarations[k].name),
{
    let name = module.function_declarations[k].name;
    let a = joined(variable_declaration_parts(module), module.variable_declarations.len() as int);
    let b = joined(function_declaration_parts(module), module.function_declarations.len() as int);
    let c = joined(variable_definition_parts(module), module.variable_definitions.len() as int);
    let d = joined(function_definition_parts(module), module.function_definitions.len() as int);
    assert(function_declaration_parts(module)[k][0] == name);
    lemma_joined_contains(
        function_declaration_parts(module),
        module.function_declarations.len() as int,
        k,
        name,
    );
    lemma_append_contains(a, b, name);
    lemma_append_contains(a + b, c, name);
    lemma_append_contains(a + b + c, d, name);
}

/// The name of every variable definition occurs in the module.
pub(super) proof fn lemma_variable_definition_occurs(module: ModuleView, k: int)
    requires
        0 <= k < module.variable_definitions.len(),
    ensures
        module_names(module).contains(module.variable_definitions[k].name),
{
    let name = module.variable_definitions[k].name;
    let a = joined(variable_declaration_parts(module), module.variable_declarations.len() as int);
    let b = joined(function_declaration_parts(module), module.function_declarations.len() as int);
    let c = joined(variable_definition_parts(module), module.variable_definitions.len() as int);
    let d = joined(function_definition_parts(module), module.function_definitions.len() as int);
    assert(variable_definition_parts(module)[k][0] == name);
    lemma_joined_contains(
        variable_definition_parts(module),
        module.variable_definitions.len() as int,
        k,
        name,
    );
    lemma_append_contains(a + b, c, name);
    lemma_append_contains(a + b + c, d, name);
}

/// The name of every function definition occurs in the module.
proof fn lemma_function_definition_occurs(module: ModuleView, k: int)
    requires
        0 <= k < module.function_definitions.len(),
    ensures
        module_names(module).contains(module.function_definitions[k].name),
{
    let name = module.function_definitions[k].name;
    let a = joined(variable_declaration_parts(module), module.variable_declarations.len() as int);
    let b = joined(function_declaration_parts(module), module.function_declarations.len() as int);
    let c = joined(variable_definition_parts(module), module.variable_definitions.len() as int);
    let d = joined(function_definition_parts(module), module.function_definitions.len() as int);
    assert(function_definition_parts(module)[k][0] == name);
    lemma_joined_contains(
        function_definition_parts(module),
        module.function_definitions.len() as int,
        k,
        name,
    );
    lemma_append_contains(a + b + c, d, name);
}

/// The name of every symbol of a module occurs in the module.
pub(super) proof fn lemma_symbol_occurs(module: ModuleView, i: int)
    requires
        0 <= i < module_symbols(module).len(),
    ensures
        module_names(module).contains(module_symbols(module)[i].name),
{
    let a = module.variable_declarations.len() as int;
    let b = module.function_declarations.len() as int;
    let c = module.variable_definitions.len() as int;
    if i < a {
        lemma_variable_declaration_occurs(module, i);
    } else if i < a + b {
        lemma_function_declaration_occurs(module, i - a);
    } else if i < a + b + c {
        lemma_variable_definition_occurs(module, i - a - b);
    } else {
        lemma_function_definition_occurs(module, i - a - b - c);
    }
}

/// The symbols of the renamed module are those of the module, renamed.
pub(super) proof fn lemma_renamed_symbol(module: ModuleView, i: int)
    requires
        0 <= i < module_symbols(module).len(),
    ensures
        module_symbols(renamed_module(module)).len() == module_symbols(module).len(),
        module_symbols(renamed_module(module))[i] == (SymbolView {
            kind: module_symbols(module)[i].kind,
            name: renamed_name(synthetic_names(module), module_symbols(module)[i].name),
            type_: module_symbols(module)[i].type_,
        }),
{
    let a = module.variable_declarations.len() as int;
    let b = module.function_declarations.len() as int;
    let c = module.variable_definitions.len() as int;
    if i >= a + b + c {
        let k = i - a - b - c;
        let table = synthetic_names(module);
        let before = module.function_definitions[k];
        let after = renamed_module(module).function_definitions[k];
        assert(after == renamed_function_definition(table, before));
        assert(after.type_().arguments =~= before.type_().arguments);
    }
}

/// A module that type collection accepts is accepted again once it is
/// renamed. So in the renamed module no name stands twice in one
/// collection.
pub proof fn lemma_renaming_keeps_collection(module: ModuleView)
    requires
        collection_fault(module) is None,
    ensures
        collection_fault(renamed_module(module)) is None,
        compatible(module_symbols(renamed_module(module))),
{
    let before = module_symbols(module);
    let after = module_symbols(renamed_module(module));
    lemma_collection_characterised(module);
    lemma_collection_characterised(renamed_module(module));
    assert forall|i: int, j: int|
        0 <= i < j < after.len() && (#[trigger] after[i]).name == (
        #[trigger] after[j]).name implies after[i].kind != after[j].kind && after[i].type_
        == after[j].type_ by {
        lemma_renamed_symbol(module, i);
        lemma_renamed_symbol(module, j);
        lemma_symbol_occurs(module, i);
        lemma_symbol_occurs(module, j);
        if before[i].name != before[j].name {
            lemma_renaming_injective(module, before[i].name, before[j].name);
        }
    }
}

/// Meeting one name.
proof fn lemma_noted_all_one(table: Seq<Seq<char>>, name: Seq<char>)
    ensures
        noted_all(table, seq![name]) == noted(table, name),
{
    assert(seq![name].drop_last() =~= Seq::<Seq<char>>::empty());
    assert(noted_all(table, seq![name].drop_last()) == table);
}

/// The index at which `name` first stands in `table`, if it does.
fn find_name(table: &Vec<String>, name: &str) -> (r: Option<usize>)
    ensures
        match r {
            Some(i) => views(table@).contains(name@) && position(views(table@), name@) == i,
            None => !views(table@).contains(name@),
        },
{
    let mut i: usize = 0;
    while i < table.len()
        invariant
            i <= table.len(),
            forall|j: int| 0 <= j < i ==> views(table@)[j] != name@,
        decreases table.len() - i,
    {
        if same_text(table[i].as_str(), name) {
            proof {
                assert(views(table@)[i as int] == name@);
                lemma_position(views(table@), name@);
            }
            return Some(i);
        }
        i += 1;
    }
    None
}

fn note(table: &mut Vec<String>, name: &str)
    ensures
        views(final(table)@) == noted(views(old(table)@), name@),
{
    if is_synthetic_name(name) {
        if find_name(table, name).is_none() {
            table.push(name.to_owned());
            assert(views(table@) =~= views(old(table)@).push(name@));
        }
    }
}

fn note_expression(table: &mut Vec<String>, expression: &Expression)
    ensures
        views(final(table)@) == noted_all(views(old(table)@), expression_names(expression@)),
    decreases expression@, 0nat,
{
    match expression {
        Expression::Variable(variable) => {
            note(table, variable.name());
            proof {
                lemma_noted_all_one(views(old(table)@), variable@);
            }
        },
        Expression::ComparisonOperation(operation) => {
            assert(expression@->ComparisonOperation_0 == operation@);
            note_comparison(table, operation);
        },
        Expression::CompareAndSwap(operation) => {
            assert(expression@->CompareAndSwap_0 == operation@);
            note_compare_and_swap(table, operation);
        },
    }
}

fn note_comparison(table: &mut Vec<String>, operation: &ComparisonOperation)
    ensures
        views(final(table)@) == noted_all(
            views(old(table)@),
            expression_names(ExpressionView::ComparisonOperation(operation@)),
        ),
    decreases operation@, 0nat,
{
    let ghost start = views(table@);
    let ghost lhs = expression_names(*operation@.lhs);
    let ghost rhs = expression_names(*operation@.rhs);
    note_expression(table, operation.lhs());
    note_expression(table, operation.rhs());
    let ghost operands = views(table@);
    note(table, operation.name());
    proof {
        lemma_noted_all_append(start, lhs, rhs);
        lemma_noted_all_one(operands, operation@.name);
        lemma_noted_all_append(start, lhs + rhs, seq![operation@.name]);
    }
}

fn note_compare_and_swap(table: &mut Vec<String>, operation: &CompareAndSwap)
    ensures
        views(final(table)@) == noted_all(
            views(old(table)@),
            expression_names(ExpressionView::CompareAndSwap(operation@)),
        ),
    decreases operation@, 0nat,
{
    let ghost start = views(table@);
    let ghost pointer = expression_names(*operation@.pointer);
    let ghost old_value = expression_names(*operation@.old_value);
    let ghost new_value = expression_names(*operation@.new_value);
    note_expression(table, operation.pointer());
    note_expression(table, operation.old_value());
    note_expression(table, operation.new_value());
    let ghost operands = views(table@);
    note(table, operation.name());
    proof {
        lemma_noted_all_append(start, pointer, old_value);
        lemma_noted_all_append(start, pointer + old_value, new_value);
        lemma_noted_all_one(operands, operation@.name);
        lemma_noted_all_append(start, pointer + old_value + new_value, seq![operation@.name]);
    }
}

fn note_block(table: &mut Vec<String>, block: &Block)
    ensures
        views(final(table)@) == noted_all(views(old(table)@), block_names(block@)),
{
    let ghost start = views(table@);
    let ghost parts = instruction_parts(block@);
    let instructions = block.instructions();
    let mut i: usize = 0;
    while i < instructions.len()
        invariant
            i <= instructions.len(),
            views(instructions@) == block@.instructions,
            parts == instruction_parts(block@),
            views(table@) == noted_all(start, joined(parts, i as int)),
        decreases instructions.len() - i,
    {
        assert(views(instructions@)[i as int] == instructions[i as int]@);
        match &instructions[i] {
            Instruction::ComparisonOperation(operation) => note_comparison(table, operation),
            Instruction::CompareAndSwap(operation) => note_compare_and_swap(table, operation),
        }
        proof {
            lemma_noted_all_append(start, joined(parts, i as int), parts[i as int]);
        }
        i += 1;
    }
    let ghost body = joined(parts, instructions.len() as int);
    match block.terminal_instruction() {
        TerminalInstruction::Return(expression) => {
            note_expression(table, expression);
        },
        TerminalInstruction::Unreachable => {},
    }
    proof {
        lemma_noted_all_append(start, body, terminal_names(block@.terminal_instruction));
    }
}

fn note_function(table: &mut Vec<String>, function: &FunctionDefinition)
    ensures
        views(final(table)@) == noted_all(views(old(table)@), function_names(function@)),
{
    let ghost start = views(table@);
    let ghost parts = argument_parts(function@);
    note(table, function.name());
    let ghost named = views(table@);
    let arguments = function.arguments();
    let mut i: usize = 0;
    while i < arguments.len()
        invariant
            i <= arguments.len(),
            views(arguments@) == function@.arguments,
            parts == argument_parts(function@),
            views(table@) == noted_all(named, joined(parts, i as int)),
        decreases arguments.len() - i,
    {
        assert(views(arguments@)[i as int] == arguments[i as int]@);
        let ghost before = views(table@);
        note(table, arguments[i].name());
        proof {
            lemma_noted_all_one(before, arguments[i as int]@.name);
            lemma_noted_all_append(named, joined(parts, i as int), parts[i as int]);
        }
        i += 1;
    }
    let ghost listed = joined(parts, arguments.len() as int);
    note_block(table, function.body());
    proof {
        lemma_noted_all_one(start, function@.name);
        lemma_noted_all_append(start, seq![function@.name], listed);
        lemma_noted_all_append(start, seq![function@.name] + listed, block_names(function@.body));
    }
}

/// The synthetic names of a module, each once, in the order in which
/// they first occur.
fn collect_synthetic_names(module: &Module) -> (r: Vec<String>)
    ensures
        views(r@) == synthetic_names(module@),
{
    let mut table: Vec<String> = Vec::new();
    let ghost start = views(table@);
    assert(start =~= Seq::<Seq<char>>::empty());

    let ghost parts = variable_declaration_parts(module@);
    let declarations = module.variable_declarations();
    let mut i: usize = 0;
    while i < declarations.len()
        invariant
            i <= declarations.len(),
            views(declarations@) == module@.variable_declarations,
            parts == variable_declaration_parts(module@),
            views(table@) == noted_all(start, joined(parts, i as int)),
        decreases declarations.len() - i,
    {
        assert(views(declarations@)[i as int] == declarations[i as int]@);
        let ghost before = views(table@);
        note(&mut table, declarations[i].name());
        proof {
            lemma_noted_all_one(before, declarations[i as int]@.name);
            lemma_noted_all_append(start, joined(parts, i as int), parts[i as int]);
        }
        i += 1;
    }
    let ghost first = joined(parts, declarations.len() as int);

    let ghost parts = function_declaration_parts(module@);
    let ghost declared = views(table@);
    let declarations = module.function_declarations();
    let mut i: usize = 0;
    while i < declarations.len()
        invariant
            i <= declarations.len(),
            views(declarations@) == module@.function_declarations,
            parts == function_declaration_parts(module@),
            views(table@) == noted_all(declared, joined(parts, i as int)),
        decreases declarations.len() - i,
    {
        assert(views(declarations@)[i as int] == declarations[i as int]@);
        let ghost before = views(table@);
        note(&mut table, declarations[i].name());
        proof {
            lemma_noted_all_one(before, declarations[i as int]@.name);
            lemma_noted_all_append(declared, joined(parts, i as int), parts[i as int]);
        }
        i += 1;
    }
    let ghost second = joined(parts, declarations.len() as int);
    proof {
        lemma_noted_all_append(start, first, second);
    }

    let ghost parts = variable_definition_parts(module@);
    let ghost declared = views(table@);
    let definitions = module.variable_definitions();
    let mut i: usize = 0;
    while i < definitions.len()
        invariant
            i <= definitions.len(),
            views(definitions@) == module@.variable_definitions,
            parts == variable_definition_parts(module@),
            views(table@) == noted_all(declared, joined(parts, i as int)),
        decreases definitions.len() - i,
    {
        assert(views(definitions@)[i as int] == definitions[i as int]@);
        let ghost before = views(table@);
        note(&mut table, definitions[i].name());
        let ghost named = views(table@);
        note_expression(&mut table, definitions[i].body());
        proof {
            lemma_noted_all_one(before, definitions[i as int]@.name);
            lemma_noted_all_append(
                before,
                seq![definitions[i as int]@.name],
                expression_names(definitions[i as int]@.body),
            );
            lemma_noted_all_append(declared, joined(parts, i as int), parts[i as int]);
        }
        i += 1;
    }
    let ghost third = joined(parts, definitions.len() as int);
    proof {
        lemma_noted_all_append(start, first + second, third);
    }

    let ghost parts = function_definition_parts(module@);
    let ghost declared = views(table@);
    let definitions = module.function_definitions();
    let mut i: usize = 0;
    while i < definitions.len()
        invariant
            i <= definitions.len(),
            views(definitions@) == module@.function_definitions,
            parts == function_definition_parts(module@),
            views(table@) == noted_all(declared, joined(parts, i as int)),
        decreases definitions.len() - i,
    {
        assert(views(definitions@)[i as int] == definitions[i as int]@);
        note_function(&mut table, &definitions[i]);
        proof {
            lemma_noted_all_append(declared, joined(parts, i as int), parts[i as int]);
        }
        i += 1;
    }
    let ghost fourth = joined(parts, definitions.len() as int);
    proof {
        lemma_noted_all_append(start, first + second + third, fourth);
    }
    table
}

/// The name that takes the place of `name`.
fn rename_name(table: &Vec<String>, name: &str) -> (r: String)
    ensures
        r@ == renamed_name(views(table@), name@),
{
    match find_name(table, name) {
        Some(i) => make_synthetic_name(i as u64),
        None => name.to_owned(),
    }
}

fn rename_expression(table: &Vec<String>, expression: &Expression) -> (r: Expression)
    ensures
        r@ == renamed_expression(views(table@), expression@),
    decreases expression@, 0nat,
{
    match expression {
        Expression::Variable(variable) => Expression::Variable(
            Variable::new(rename_name(table, variable.name()).as_str()),
        ),
        Expression::ComparisonOperation(operation) => {
            assert(expression@->ComparisonOperation_0 == operation@);
            Expression::ComparisonOperation(rename_comparison(table, operation))
        },
        Expression::CompareAndSwap(operation) => {
            assert(expression@->CompareAndSwap_0 == operation@);
            Expression::CompareAndSwap(rename_compare_and_swap(table, operation))
        },
    }
}

fn rename_comparison(table: &Vec<String>, operation: &ComparisonOperation) -> (r:
    ComparisonOperation)
    ensures
        r@ == renamed_comparison(views(table@), operation@),
    decreases operation@, 0nat,
{
    ComparisonOperation::new(
        operation.type_(),
        operation.operator(),
        rename_expression(table, operation.lhs()),
        rename_expression(table, operation.rhs()),
        rename_name(table, operation.name()).as_str(),
    )
}

fn rename_compare_and_swap(table: &Vec<String>, operation: &CompareAndSwap) -> (r: CompareAndSwap)
    ensures
        r@ == renamed_compare_and_swap(views(table@), operation@),
    decreases operation@, 0nat,
{
    CompareAndSwap::new(
        operation.type_().clone(),
        rename_expression(table, operation.pointer()),
        rename_expression(table, operation.old_value()),
        rename_expression(table, operation.new_value()),
        rename_name(table, operation.name()).as_str(),
    )
}

fn rename_instruction(table: &Vec<String>, instruction: &Instruction) -> (r: Instruction)
    ensures
        r@ == renamed_instruction(views(table@), instruction@),
{
    match instruction {
        Instruction::ComparisonOperation(operation) => Instruction::ComparisonOperation(
            rename_comparison(table, operation),
        ),
        Instruction::CompareAndSwap(operation) => Instruction::CompareAndSwap(
            rename_compare_and_swap(table, operation),
        ),
    }
}

fn rename_block(table: &Vec<String>, block: &Block) -> (r: Block)
    ensures
        r@ == renamed_block(views(table@), block@),
{
    let instructions = block.instructions();
    let mut renamed: Vec<Instruction> = Vec::new();
    let mut i: usize = 0;
    while i < instructions.len()
        invariant
            i <= instructions.len(),
            renamed.len() == i,
            views(instructions@) == block@.instructions,
            forall|j: int|
                0 <= j < i ==> renamed[j]@ == renamed_instruction(
                    views(table@),
                    block@.instructions[j],
                ),
        decreases instructions.len() - i,
    {
        assert(views(instructions@)[i as int] == instructions[i as int]@);
        renamed.push(rename_instruction(table, &instructions[i]));
        i += 1;
    }
    let terminal = match block.terminal_instruction() {
        TerminalInstruction::Return(expression) => TerminalInstruction::Return(
            rename_expression(table, expression),
        ),
        TerminalInstruction::Unreachable => TerminalInstruction::Unreachable,
    };
    let r = Block::new(renamed, terminal);
    assert(r@.instructions =~= renamed_block(views(table@), block@).instructions);
    r
}

fn rename_function(table: &Vec<String>, function: &FunctionDefinition) -> (r: FunctionDefinition)
    ensures
        r@ == renamed_function_definition(views(table@), function@),
{
    let arguments = function.arguments();
    let mut renamed: Vec<Argument> = Vec::new();
    let mut i: usize = 0;
    while i < arguments.len()
        invariant
            i <= arguments.len(),
            renamed.len() == i,
            views(arguments@) == function@.arguments,
            forall|j: int|
                0 <= j < i ==> renamed[j]@ == renamed_argument(
                    views(table@),
                    function@.arguments[j],
                ),
        decreases arguments.len() - i,
    {
        assert(views(arguments@)[i as int] == arguments[i as int]@);
        renamed.push(
            Argument::new(
                rename_name(table, arguments[i].name()).as_str(),
                arguments[i].type_().clone(),
            ),
        );
        i += 1;
    }
    let r = FunctionDefinition::new(
        rename_name(table, function.name()).as_str(),
        renamed,
        rename_block(table, function.body()),
        function.result_type().clone(),
        function.is_global(),
    );
    assert(r@.arguments =~= renamed_function_definition(views(table@), function@).arguments);
    r
}

/// Renaming, the last pass: the module with every synthetic name
/// replaced by the synthetic name whose number is its rank among the
/// synthetic names of the module, in the order in which they first
/// occur. The result depends on the module alone.
pub fn rename(module: &Module) -> (r: Module)
    ensures
        r@ == renamed_module(module@),
{
    let table = collect_synthetic_names(module);
    let ghost names = views(table@);

    let declarations = module.variable_declarations();
    let mut variable_declarations: Vec<VariableDeclaration> = Vec::new();
    let mut i: usize = 0;
    while i < declarations.len()
        invariant
            i <= declarations.len(),
            variable_declarations.len() == i,
            names == views(table@),
            views(declarations@) == module@.variable_declarations,
            forall|j: int|
                0 <= j < i ==> variable_declarations[j]@ == renamed_variable_declaration(
                    names,
                    module@.variable_declarations[j],
                ),
        decreases declarations.len() - i,
    {
        assert(views(declarations@)[i as int] == declarations[i as int]@);
        variable_declarations.push(
            VariableDeclaration::new(
                rename_name(&table, declarations[i].name()).as_str(),
                declarations[i].type_().clone(),
            ),
        );
        i += 1;
    }

    let declarations = module.function_declarations();
    let mut function_declarations: Vec<FunctionDeclaration> = Vec::new();
    let mut i: usize = 0;
    while i < declarations.len()
        invariant
            i <= declarations.len(),
            function_declarations.len() == i,
            names == views(table@),
            views(declarations@) == module@.function_declarations,
            forall|j: int|
                0 <= j < i ==> function_declarations[j]@ == renamed_function_declaration(
                    names,
                    module@.function_declarations[j],
                ),
        decreases declarations.len() - i,
    {
        assert(views(declarations@)[i as int] == declarations[i as int]@);
        function_declarations.push(
            FunctionDeclaration::new(
                rename_name(&table, declarations[i].name()).as_str(),
                declarations[i].type_().clone(),
            ),
        );
        i += 1;
    }

    let definitions = module.variable_definitions();
    let mut variable_definitions: Vec<VariableDefinition> = Vec::new();
    let mut i: usize = 0;
    while i < definitions.len()
        invariant
            i <= definitions.len(),
            variable_definitions.len() == i,
            names == views(table@),
            views(definitions@) == module@.variable_definitions,
            forall|j: int|
                0 <= j < i ==> variable_definitions[j]@ == renamed_variable_definition(
                    names,
                    module@.variable_definitions[j],
                ),
        decreases definitions.len() - i,
    {
        assert(views(definitions@)[i as int] == definitions[i as int]@);
        variable_definitions.push(
            VariableDefinition::new(
                rename_name(&table, definitions[i].name()).as_str(),
                rename_expression(&table, definitions[i].body()),
                definitions[i].type_().clone(),
                definitions[i].is_mutable(),
                definitions[i].is_global(),
            ),
        );
        i += 1;
    }

    let definitions = module.function_definitions();
    let mut function_definitions: Vec<FunctionDefinition> = Vec::new();
    let mut i: usize = 0;
    while i < definitions.len()
        invariant
            i <= definitions.len(),
            function_definitions.len() == i,
            names == views(table@),
            views(definitions@) == module@.function_definitions,
            forall|j: int|
                0 <= j < i ==> function_definitions[j]@ == renamed_function_definition(
                    names,
                    module@.function_definitions[j],
                ),
        decreases definitions.len() - i,
    {
        assert(views(definitions@)[i as int] == definitions[i as int]@);
        function_definitions.push(rename_function(&table, &definitions[i]));
        i += 1;
    }

    let r = Module::new(
        variable_declarations,
        function_declarations,
        variable_definitions,
        function_definitions,
    );
    let ghost expected = renamed_module(module@);
    assert(r@.variable_declarations =~= expected.variable_declarations);
    assert(r@.function_declarations =~= expected.function_declarations);
    assert(r@.variable_definitions =~= expected.variable_definitions);
    assert(r@.function_definitions =~= expected.function_definitions);
    r
}

} // verus!
