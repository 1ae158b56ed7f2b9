//! Renaming a renamed module: nothing is left to do.

use super::preservation::{covers, lemma_module_one_to_one, one_to_one};
use super::renaming::{
    argument_parts, block_names, definition_names, expression_names, function_declaration_parts,
    function_definition_parts, function_names, instruction_parts, joined, lemma_noted_all_synthetic,
    lemma_position, module_names, noted, noted_all, position, renamed_argument, renamed_block,
    renamed_expression, renamed_function_declaration, renamed_function_definition,
    renamed_instruction, renamed_module, renamed_name, renamed_variable_declaration,
    renamed_variable_definition, synthetic_names, terminal_names, variable_declaration_parts,
    variable_definition_parts,
};
use crate::ir::{
    BlockView, ExpressionView, FunctionDefinitionView, InstructionView, ModuleView,
    TerminalInstructionView, VariableDefinitionView,
};
use crate::names::{
    is_synthetic, lemma_synthetic_name_is_synthetic, lemma_synthetic_names_distinct, synthetic_name,
};
use vstd::prelude::*;

verus! {

/// The new names of a list of names, in order.
pub open spec fn renamed_names(table: Seq<Seq<char>>, names: Seq<Seq<char>>) -> Seq<Seq<char>> {
    Seq::new(names.len(), |i: int| renamed_name(table, names[i]))
}

/// The first `n` synthetic names, in the order of their numbers.
pub open spec fn first_synthetic_names(n: nat) -> Seq<Seq<char>> {
    Seq::new(n, |k: int| synthetic_name(k as nat))
}

/// Whether renaming with `table` keeps apart, on `names`, the names that
/// have the shape of a synthetic name and those that have not.
pub open spec fn keeps_shape(table: Seq<Seq<char>>, names: Seq<Seq<char>>) -> bool {
    forall|name: Seq<char>| #[trigger]
        names.contains(name) ==> is_synthetic(renamed_name(table, name)) == is_synthetic(name)
}

/// Renaming with a table of synthetic names keeps the shape of every
/// name.
pub proof fn lemma_keeps_shape(table: Seq<Seq<char>>, names: Seq<Seq<char>>)
    requires
        forall|i: int| 0 <= i < table.len() ==> is_synthetic(#[trigger] table[i]),
    ensures
        keeps_shape(table, names),
{
    assert forall|name: Seq<char>| #[trigger] names.contains(name) implies is_synthetic(
        renamed_name(table, name),
    ) == is_synthetic(name) by {
        if table.contains(name) {
            lemma_position(table, name);
            lemma_synthetic_name_is_synthetic(position(table, name) as nat);
        }
    }
}

/// The new names of two lists, one after the other, are the new names
/// of the list that they make.
pub proof fn lemma_renamed_names_append(
    table: Seq<Seq<char>>,
    a: Seq<Seq<char>>,
    b: Seq<Seq<char>>,
)
    ensures
        renamed_names(table, a + b) == renamed_names(table, a) + renamed_names(table, b),
{
    assert(renamed_names(table, a + b) =~= renamed_names(table, a) + renamed_names(table, b));
}

/// The new name of a name stands in the new names of a list exactly
/// where the name stands in the list.
proof fn lemma_renamed_names_contains(
    table: Seq<Seq<char>>,
    universe: Seq<Seq<char>>,
    names: Seq<Seq<char>>,
    name: Seq<char>,
)
    requires
        one_to_one(table, universe),
        covers(universe, names),
        universe.contains(name),
    ensures
        renamed_names(table, names).contains(renamed_name(table, name)) == names.contains(name),
{
    let renamed = renamed_names(table, names);
    if names.contains(name) {
        let i = choose|i: int| 0 <= i < names.len() && names[i] == name;
        assert(renamed[i] == renamed_name(table, name));
    }
    if renamed.contains(renamed_name(table, name)) {
        let i = choose|i: int| 0 <= i < renamed.len() && renamed[i] == renamed_name(table, name);
        assert(universe.contains(names[i]));
        assert(names[i] == name);
    }
}

/// Meeting the new names of names, from the new names of a list, gives
/// the new names of what meeting the names from the list gives.
pub proof fn lemma_noted_all_renamed(
    table: Seq<Seq<char>>,
    universe: Seq<Seq<char>>,
    start: Seq<Seq<char>>,
    names: Seq<Seq<char>>,
)
    requires
        one_to_one(table, universe),
        keeps_shape(table, universe),
        covers(universe, start),
        covers(universe, names),
    ensures
        noted_all(renamed_names(table, start), renamed_names(table, names)) == renamed_names(
            table,
            noted_all(start, names),
        ),
        covers(universe, noted_all(start, names)),
    decreases names.len(),
{
    if names.len() == 0 {
        assert(renamed_names(table, names).len() == 0);
    } else {
        let rest = names.drop_last();
        let last = names.last();
        assert forall|i: int| 0 <= i < rest.len() implies universe.contains(
            #[trigger] rest[i],
        ) by {
            assert(rest[i] == names[i]);
        }
        lemma_noted_all_renamed(table, universe, start, rest);
        let before = noted_all(start, rest);
        assert(renamed_names(table, names).drop_last() =~= renamed_names(table, rest));
        assert(renamed_names(table, names).last() == renamed_name(table, last));
        assert(universe.contains(names[names.len() - 1]));
        lemma_renamed_names_contains(table, universe, before, last);
        assert(renamed_names(table, before.push(last)) =~= renamed_names(table, before).push(
            renamed_name(table, last),
        ));
        assert forall|i: int| 0 <= i < noted(before, last).len() implies universe.contains(
            #[trigger] noted(before, last)[i],
        ) by {
            if i < before.len() {
                assert(noted(before, last)[i] == before[i]);
            }
        }
    }
}

/// A list without repetition stays one as names are met.
pub proof fn lemma_noted_all_distinct(start: Seq<Seq<char>>, names: Seq<Seq<char>>)
    requires
        start.no_duplicates(),
    ensures
        noted_all(start, names).no_duplicates(),
    decreases names.len(),
{
    if names.len() > 0 {
        lemma_noted_all_distinct(start, names.drop_last());
    }
}

/// The new names of a table without repetition are the first synthetic
/// names, as many as the table has names.
pub proof fn lemma_renamed_table(table: Seq<Seq<char>>)
    requires
        table.no_duplicates(),
    ensures
        renamed_names(table, table) == first_synthetic_names(table.len()),
{
    assert forall|k: int| 0 <= k < table.len() implies renamed_name(table, #[trigger] table[k])
        == synthetic_name(k as nat) by {
        assert(table.contains(table[k]));
        lemma_position(table, table[k]);
    }
    assert(renamed_names(table, table) =~= first_synthetic_names(table.len()));
}

/// Renaming with the first synthetic names for table changes no name.
pub proof fn lemma_first_synthetic_names_rename_nothing(n: nat, name: Seq<char>)
    ensures
        renamed_name(first_synthetic_names(n), name) == name,
{
    let table = first_synthetic_names(n);
    if table.contains(name) {
        lemma_position(table, name);
        let k = choose|k: int| 0 <= k < table.len() && table[k] == name;
        let p = position(table, name);
        if p != k {
            lemma_synthetic_names_distinct(p as nat, k as nat);
        }
    }
}

/// The names that occur in a renamed expression are the new names of
/// those that occur in the expression.
pub proof fn lemma_renamed_expression_names(table: Seq<Seq<char>>, expression: ExpressionView)
    ensures
        expression_names(renamed_expression(table, expression)) == renamed_names(
            table,
            expression_names(expression),
        ),
    decreases expression,
{
    match expression {
        ExpressionView::Variable(name) => {
            assert(seq![renamed_name(table, name)] =~= renamed_names(table, seq![name]));
        },
        ExpressionView::ComparisonOperation(operation) => {
            let lhs = expression_names(*operation.lhs);
            let rhs = expression_names(*operation.rhs);
            lemma_renamed_expression_names(table, *operation.lhs);
            lemma_renamed_expression_names(table, *operation.rhs);
            lemma_renamed_names_append(table, lhs, rhs);
            lemma_renamed_names_append(table, lhs + rhs, seq![operation.name]);
            assert(seq![renamed_name(table, operation.name)] =~= renamed_names(
                table,
                seq![operation.name],
            ));
        },
        ExpressionView::CompareAndSwap(operation) => {
            let pointer = expression_names(*operation.pointer);
            let old_value = expression_names(*operation.old_value);
            let new_value = expression_names(*operation.new_value);
            lemma_renamed_expression_names(table, *operation.pointer);
            lemma_renamed_expression_names(table, *operation.old_value);
            lemma_renamed_expression_names(table, *operation.new_value);
            lemma_renamed_names_append(table, pointer, old_value);
            lemma_renamed_names_append(table, pointer + old_value, new_value);
            lemma_renamed_names_append(
                table,
                pointer + old_value + new_value,
                seq![operation.name],
            );
            assert(seq![renamed_name(table, operation.name)] =~= renamed_names(
                table,
                seq![operation.name],
            ));
        },
    }
}

/// Parts that are the new names of other parts make the new names of
/// what the other parts make.
pub proof fn lemma_renamed_joined(
    table: Seq<Seq<char>>,
    before: Seq<Seq<Seq<char>>>,
    after: Seq<Seq<Seq<char>>>,
    n: int,
)
    requires
        0 <= n <= before.len(),
        after.len() == before.len(),
        forall|k: int| 0 <= k < n ==> #[trigger] after[k] == renamed_names(table, before[k]),
    ensures
        joined(after, n) == renamed_names(table, joined(before, n)),
    decreases n,
{
    if n <= 0 {
        assert(joined(after, n) =~= renamed_names(table, joined(before, n)));
    } else {
        lemma_renamed_joined(table, before, after, n - 1);
        lemma_renamed_names_append(table, joined(before, n - 1), before[n - 1]);
    }
}

/// The names that occur in a renamed block are the new names of those
/// that occur in the block.
pub proof fn lemma_renamed_block_names(table: Seq<Seq<char>>, block: BlockView)
    ensures
        block_names(renamed_block(table, block)) == renamed_names(table, block_names(block)),
{
    let renamed = renamed_block(table, block);
    let before = instruction_parts(block);
    let after = instruction_parts(renamed);
    let n = block.instructions.len() as int;
    assert forall|k: int| 0 <= k < n implies #[trigger] after[k] == renamed_names(
        table,
        before[k],
    ) by {
        let instruction = block.instructions[k];
        assert(renamed.instructions[k] == renamed_instruction(table, instruction));
        assert(renamed_instruction(table, instruction).expression() == renamed_expression(
            table,
            instruction.expression(),
        ));
        lemma_renamed_expression_names(table, instruction.expression());
    }
    lemma_renamed_joined(table, before, after, n);
    match block.terminal_instruction {
        TerminalInstructionView::Return(expression) => {
            lemma_renamed_expression_names(table, expression);
        },
        TerminalInstructionView::Unreachable => {
            assert(renamed_names(table, Seq::<Seq<char>>::empty()) =~= Seq::<Seq<char>>::empty());
        },
    }
    lemma_renamed_names_append(
        table,
        joined(before, n),
        terminal_names(block.terminal_instruction),
    );
}

/// The names that occur in a renamed function definition are the new
/// names of those that occur in the function definition.
pub proof fn lemma_renamed_function_names(table: Seq<Seq<char>>, function: FunctionDefinitionView)
    ensures
        function_names(renamed_function_definition(table, function)) == renamed_names(
            table,
            function_names(function),
        ),
{
    let renamed = renamed_function_definition(table, function);
    let before = argument_parts(function);
    let after = argument_parts(renamed);
    let n = function.arguments.len() as int;
    assert forall|k: int| 0 <= k < n implies #[trigger] after[k] == renamed_names(
        table,
        before[k],
    ) by {
        assert(renamed.arguments[k] == renamed_argument(table, function.arguments[k]));
        assert(after[k] =~= renamed_names(table, before[k]));
    }
    lemma_renamed_joined(table, before, after, n);
    lemma_renamed_block_names(table, function.body);
    assert(seq![renamed.name] =~= renamed_names(table, seq![function.name]));
    lemma_renamed_names_append(table, seq![function.name], joined(before, n));
    lemma_renamed_names_append(
        table,
        seq![function.name] + joined(before, n),
        block_names(function.body),
    );
}

/// The names that occur in a renamed variable definition are the new
/// names of those that occur in the variable definition.
pub proof fn lemma_renamed_definition_names(
    table: Seq<Seq<char>>,
    definition: VariableDefinitionView,
)
    ensures
        definition_names(renamed_variable_definition(table, definition)) == renamed_names(
            table,
            definition_names(definition),
        ),
{
    lemma_renamed_expression_names(table, definition.body);
    assert(seq![renamed_name(table, definition.name)] =~= renamed_names(
        table,
        seq![definition.name],
    ));
    lemma_renamed_names_append(table, seq![definition.name], expression_names(definition.body));
}

/// The names that occur in a renamed module are the new names of those
/// that occur in the module.
pub proof fn lemma_renamed_module_names(module: ModuleView)
    ensures
        module_names(renamed_module(module)) == renamed_names(
            synthetic_names(module),
            module_names(module),
        ),
{
    let table = synthetic_names(module);
    let renamed = renamed_module(module);

    let a = variable_declaration_parts(module);
    let a2 = variable_declaration_parts(renamed);
    let na = module.variable_declarations.len() as int;
    assert forall|k: int| 0 <= k < na implies #[trigger] a2[k] == renamed_names(table, a[k]) by {
        assert(renamed.variable_declarations[k] == renamed_variable_declaration(
            table,
            module.variable_declarations[k],
        ));
        assert(a2[k] =~= renamed_names(table, a[k]));
    }
    lemma_renamed_joined(table, a, a2, na);

    let b = function_declaration_parts(module);
    let b2 = function_declaration_parts(renamed);
    let nb = module.function_declarations.len() as int;
    assert forall|k: int| 0 <= k < nb implies #[trigger] b2[k] == renamed_names(table, b[k]) by {
        assert(renamed.function_declarations[k] == renamed_function_declaration(
            table,
            module.function_declarations[k],
        ));
        assert(b2[k] =~= renamed_names(table, b[k]));
    }
    lemma_renamed_joined(table, b, b2, nb);

    let c = variable_definition_parts(module);
    let c2 = variable_definition_parts(renamed);
    let nc = module.variable_definitions.len() as int;
    assert forall|k: int| 0 <= k < nc implies #[trigger] c2[k] == renamed_names(table, c[k]) by {
        assert(renamed.variable_definitions[k] == renamed_variable_definition(
            table,
            module.variable_definitions[k],
        ));
        lemma_renamed_definition_names(table, module.variable_definitions[k]);
    }
    lemma_renamed_joined(table, c, c2, nc);

    let d = function_definition_parts(module);
    let d2 = function_definition_parts(renamed);
    let nd = module.function_definitions.len() as int;
    assert forall|k: int| 0 <= k < nd implies #[trigger] d2[k] == renamed_names(table, d[k]) by {
        assert(renamed.function_definitions[k] == renamed_function_definition(
            table,
            module.function_definitions[k],
        ));
        lemma_renamed_function_names(table, module.function_definitions[k]);
    }
    lemma_renamed_joined(table, d, d2, nd);

    lemma_renamed_names_append(table, joined(a, na), joined(b, nb));
    lemma_renamed_names_append(table, joined(a, na) + joined(b, nb), joined(c, nc));
    lemma_renamed_names_append(
        table,
        joined(a, na) + joined(b, nb) + joined(c, nc),
        joined(d, nd),
    );
}

/// Whether renaming with `table` changes no name.
pub open spec fn renames_nothing(table: Seq<Seq<char>>) -> bool {
    forall|name: Seq<char>| #[trigger] renamed_name(table, name) == name
}

/// Renaming that changes no name changes no expression.
pub proof fn lemma_unchanged_expression(table: Seq<Seq<char>>, expression: ExpressionView)
    requires
        renames_nothing(table),
    ensures
        renamed_expression(table, expression) == expression,
    decreases expression,
{
    match expression {
        ExpressionView::Variable(name) => {},
        ExpressionView::ComparisonOperation(operation) => {
            lemma_unchanged_expression(table, *operation.lhs);
            lemma_unchanged_expression(table, *operation.rhs);
        },
        ExpressionView::CompareAndSwap(operation) => {
            lemma_unchanged_expression(table, *operation.pointer);
            lemma_unchanged_expression(table, *operation.old_value);
            lemma_unchanged_expression(table, *operation.new_value);
        },
    }
}

/// Renaming that changes no name changes no instruction.
proof fn lemma_unchanged_instruction(table: Seq<Seq<char>>, instruction: InstructionView)
    requires
        renames_nothing(table),
    ensures
        renamed_instruction(table, instruction) == instruction,
{
    lemma_unchanged_expression(table, instruction.expression());
    assert(renamed_instruction(table, instruction).expression() == renamed_expression(
        table,
        instruction.expression(),
    ));
}

/// Renaming that changes no name changes no function definition.
proof fn lemma_unchanged_function(table: Seq<Seq<char>>, function: FunctionDefinitionView)
    requires
        renames_nothing(table),
    ensures
        renamed_function_definition(table, function) == function,
{
    let renamed = renamed_function_definition(table, function);
    assert(renamed.arguments =~= function.arguments);
    assert forall|i: int| 0 <= i < function.body.instructions.len() implies (
    #[trigger] renamed.body.instructions[i]) == function.body.instructions[i] by {
        lemma_unchanged_instruction(table, function.body.instructions[i]);
    }
    assert(renamed.body.instructions =~= function.body.instructions);
    match function.body.terminal_instruction {
        TerminalInstructionView::Return(expression) => {
            lemma_unchanged_expression(table, expression);
        },
        TerminalInstructionView::Unreachable => {},
    }
}

/// Renaming is idempotent: a renamed module is its own renaming.
pub proof fn lemma_renaming_idempotent(module: ModuleView)
    ensures
        renamed_module(renamed_module(module)) == renamed_module(module),
{
    let table = synthetic_names(module);
    let names = module_names(module);
    let once = renamed_module(module);
    let twice = renamed_module(once);
    let second = synthetic_names(once);

    lemma_module_one_to_one(module);
    lemma_noted_all_synthetic(Seq::empty(), names);
    lemma_keeps_shape(table, names);
    lemma_renamed_module_names(module);
    assert(renamed_names(table, Seq::<Seq<char>>::empty()) =~= Seq::<Seq<char>>::empty());
    lemma_noted_all_renamed(table, names, Seq::empty(), names);
    lemma_noted_all_distinct(Seq::empty(), names);
    lemma_renamed_table(table);
    assert(second == first_synthetic_names(table.len()));
    assert forall|name: Seq<char>| #[trigger] renamed_name(second, name) == name by {
        lemma_first_synthetic_names_rename_nothing(table.len(), name);
    }

    assert(twice.variable_declarations =~= once.variable_declarations);
    assert(twice.function_declarations =~= once.function_declarations);
    assert forall|i: int| 0 <= i < once.variable_definitions.len() implies (
    #[trigger] twice.variable_definitions[i]) == once.variable_definitions[i] by {
        lemma_unchanged_expression(second, once.variable_definitions[i].body);
    }
    assert(twice.variable_definitions =~= once.variable_definitions);
    assert forall|i: int| 0 <= i < once.function_definitions.len() implies (
    #[trigger] twice.function_definitions[i]) == once.function_definitions[i] by {
        lemma_unchanged_function(second, once.function_definitions[i]);
    }
    assert(twice.function_definitions =~= once.function_definitions);
}

} // verus!
