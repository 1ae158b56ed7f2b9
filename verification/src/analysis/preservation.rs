//! Renaming and the checks before it: what the checks say of a module
//! they say of the renamed module too, name for name.

use super::fault::{first_fault, FaultView};
use super::lifetime_check::{
    bound, bound_before, expression_lifetime_fault, function_lifetime_fault,
    function_lifetime_faults, is_immutable, is_local, item_mentions, lifetime_fault,
    lifetime_faults, mentions, outlived, place_in, uses, Place,
};
use super::pipeline::{analysis_fault, collected_types};
use super::renaming::{
    argument_parts, block_names, definition_names, expression_names, function_definition_parts,
    function_names, instruction_parts, joined, lemma_renamed_symbol, lemma_renaming_injective,
    lemma_symbol_occurs, lemma_variable_definition_occurs, module_names, renamed_expression,
    renamed_function_definition, renamed_instruction, renamed_module, renamed_name,
    renamed_variable_definition, synthetic_names, terminal_names, variable_definition_parts,
};
use super::type_check::{
    argument_scope, definition_fault, expression_type, function_fault, function_faults,
    instruction_result_type, scope_at, type_fault, type_faults,
};
use super::type_collection::{
    collection_fault, collection_fault_at, collection_faults, duplicated_at, module_symbols,
    symbol_map,
};
use crate::ir::{ExpressionView, FunctionDefinitionView, ModuleView, TerminalInstructionView};
use crate::types::TypeView;
use vstd::prelude::*;

verus! {

/// Whether renaming with `table` is one-to-one on `names`.
pub open spec fn one_to_one(table: Seq<Seq<char>>, names: Seq<Seq<char>>) -> bool {
    forall|a: Seq<char>, b: Seq<char>|
        #![trigger names.contains(a), names.contains(b)]
        names.contains(a) && names.contains(b) && a != b ==> renamed_name(table, a)
            != renamed_name(table, b)
}

/// Whether every name of `part` is one of `names`.
pub open spec fn covers(names: Seq<Seq<char>>, part: Seq<Seq<char>>) -> bool {
    forall|i: int| 0 <= i < part.len() ==> names.contains(#[trigger] part[i])
}

/// Whether every name that `scope` binds is one of `names`.
pub open spec fn within(names: Seq<Seq<char>>, scope: Map<Seq<char>, TypeView>) -> bool {
    forall|name: Seq<char>| #[trigger] scope.contains_key(name) ==> names.contains(name)
}

/// The scope that binds the new name of each name of `scope` to what
/// `scope` binds the old name to.
pub open spec fn renamed_scope(
    table: Seq<Seq<char>>,
    scope: Map<Seq<char>, TypeView>,
) -> Map<Seq<char>, TypeView> {
    Map::new(
        |new: Seq<char>|
            exists|old: Seq<char>| #[trigger]
                scope.contains_key(old) && renamed_name(table, old) == new,
        |new: Seq<char>|
            scope[choose|old: Seq<char>| #[trigger]
                scope.contains_key(old) && renamed_name(table, old) == new],
    )
}

/// A fault with its names renamed.
pub open spec fn renamed_fault(table: Seq<Seq<char>>, fault: FaultView) -> FaultView {
    FaultView {
        kind: fault.kind,
        name: renamed_name(table, fault.name),
        expected: fault.expected,
        found: fault.found,
        instruction: match fault.instruction {
            Some(instruction) => Some(renamed_name(table, instruction)),
            None => None,
        },
    }
}

/// What a check found, with the name of the fault renamed.
pub open spec fn renamed_finding(
    table: Seq<Seq<char>>,
    finding: Option<FaultView>,
) -> Option<FaultView> {
    match finding {
        Some(fault) => Some(renamed_fault(table, fault)),
        None => None,
    }
}

/// A type that was computed, or the fault met instead with its name
/// renamed.
pub open spec fn renamed_typing(
    table: Seq<Seq<char>>,
    typing: Result<TypeView, FaultView>,
) -> Result<TypeView, FaultView> {
    match typing {
        Ok(type_) => Ok(type_),
        Err(fault) => Err(renamed_fault(table, fault)),
    }
}

/// Two lists cover what each of them covers.
pub proof fn lemma_covers_append(names: Seq<Seq<char>>, a: Seq<Seq<char>>, b: Seq<Seq<char>>)
    ensures
        covers(names, a + b) <==> covers(names, a) && covers(names, b),
{
    if covers(names, a + b) {
        assert forall|i: int| 0 <= i < a.len() implies names.contains(#[trigger] a[i]) by {
            assert((a + b)[i] == a[i]);
        }
        assert forall|i: int| 0 <= i < b.len() implies names.contains(#[trigger] b[i]) by {
            assert((a + b)[a.len() + i] == b[i]);
        }
    }
}

/// The renamed scope binds the new name of a name exactly where the
/// scope binds the name, and to the same type.
pub proof fn lemma_renamed_scope_binds(
    table: Seq<Seq<char>>,
    names: Seq<Seq<char>>,
    scope: Map<Seq<char>, TypeView>,
    name: Seq<char>,
)
    requires
        one_to_one(table, names),
        within(names, scope),
        names.contains(name),
    ensures
        renamed_scope(table, scope).contains_key(renamed_name(table, name)) == scope.contains_key(
            name,
        ),
        scope.contains_key(name) ==> renamed_scope(table, scope)[renamed_name(table, name)]
            == scope[name],
{
    let new = renamed_name(table, name);
    if renamed_scope(table, scope).contains_key(new) {
        let old = choose|old: Seq<char>| #[trigger]
            scope.contains_key(old) && renamed_name(table, old) == new;
        assert(names.contains(old));
        assert(old == name);
    }
}

/// Binding a name in a scope and renaming is renaming and binding the
/// new name.
pub proof fn lemma_renamed_scope_insert(
    table: Seq<Seq<char>>,
    names: Seq<Seq<char>>,
    scope: Map<Seq<char>, TypeView>,
    name: Seq<char>,
    type_: TypeView,
)
    requires
        one_to_one(table, names),
        within(names, scope),
        names.contains(name),
    ensures
        renamed_scope(table, scope.insert(name, type_)) == renamed_scope(table, scope).insert(
            renamed_name(table, name),
            type_,
        ),
        within(names, scope.insert(name, type_)),
{
    let bound = scope.insert(name, type_);
    let left = renamed_scope(table, bound);
    let right = renamed_scope(table, scope).insert(renamed_name(table, name), type_);
    assert forall|new: Seq<char>| #[trigger]
        left.dom().contains(new) == right.dom().contains(new) && (left.dom().contains(new)
            ==> left[new] == right[new]) by {
        if left.contains_key(new) {
            let old = choose|old: Seq<char>| #[trigger]
                bound.contains_key(old) && renamed_name(table, old) == new;
            assert(names.contains(old));
            if old != name {
                assert(scope.contains_key(old));
                lemma_renamed_scope_binds(table, names, scope, old);
            }
        }
        if right.contains_key(new) {
            if new == renamed_name(table, name) {
                assert(bound.contains_key(name));
            } else {
                let old = choose|old: Seq<char>| #[trigger]
                    scope.contains_key(old) && renamed_name(table, old) == new;
                assert(bound.contains_key(old));
                assert(names.contains(old));
                lemma_renamed_scope_binds(table, names, scope, old);
            }
        }
    }
    assert(left.dom() =~= right.dom());
    assert(left =~= right);
}

/// A renamed expression goes by the new name of the name that the
/// expression goes by.
pub proof fn lemma_renamed_expression_name(table: Seq<Seq<char>>, expression: ExpressionView)
    ensures
        renamed_expression(table, expression).name() == renamed_name(table, expression.name()),
{
}

/// A renamed expression has, in the renamed scope, the type that the
/// expression has in the scope, or the same fault under its new name.
pub proof fn lemma_renamed_expression_type(
    table: Seq<Seq<char>>,
    names: Seq<Seq<char>>,
    scope: Map<Seq<char>, TypeView>,
    expression: ExpressionView,
)
    requires
        one_to_one(table, names),
        within(names, scope),
        covers(names, expression_names(expression)),
    ensures
        expression_type(renamed_expression(table, expression), renamed_scope(table, scope))
            == renamed_typing(table, expression_type(expression, scope)),
    decreases expression,
{
    let new_scope = renamed_scope(table, scope);
    match expression {
        ExpressionView::Variable(name) => {
            assert(expression_names(expression)[0] == name);
            lemma_renamed_scope_binds(table, names, scope, name);
        },
        ExpressionView::ComparisonOperation(operation) => {
            let lhs = expression_names(*operation.lhs);
            let rhs = expression_names(*operation.rhs);
            lemma_covers_append(names, lhs + rhs, seq![operation.name]);
            lemma_covers_append(names, lhs, rhs);
            lemma_renamed_expression_type(table, names, scope, *operation.lhs);
            lemma_renamed_expression_type(table, names, scope, *operation.rhs);
            lemma_renamed_expression_name(table, *operation.lhs);
            lemma_renamed_expression_name(table, *operation.rhs);
        },
        ExpressionView::CompareAndSwap(operation) => {
            let pointer = expression_names(*operation.pointer);
            let old_value = expression_names(*operation.old_value);
            let new_value = expression_names(*operation.new_value);
            lemma_covers_append(names, pointer + old_value + new_value, seq![operation.name]);
            lemma_covers_append(names, pointer + old_value, new_value);
            lemma_covers_append(names, pointer, old_value);
            lemma_renamed_expression_type(table, names, scope, *operation.pointer);
            lemma_renamed_expression_type(table, names, scope, *operation.old_value);
            lemma_renamed_expression_type(table, names, scope, *operation.new_value);
            lemma_renamed_expression_name(table, *operation.pointer);
            lemma_renamed_expression_name(table, *operation.old_value);
            lemma_renamed_expression_name(table, *operation.new_value);
        },
    }
}

/// What covers the first `n` parts covers each of them.
pub proof fn lemma_covers_part(
    names: Seq<Seq<char>>,
    parts: Seq<Seq<Seq<char>>>,
    n: int,
    k: int,
)
    requires
        0 <= k < n <= parts.len(),
        covers(names, joined(parts, n)),
    ensures
        covers(names, parts[k]),
    decreases n,
{
    lemma_covers_append(names, joined(parts, n - 1), parts[n - 1]);
    if k < n - 1 {
        lemma_covers_part(names, parts, n - 1, k);
    }
}

/// The first fault of renamed findings is the first fault, renamed.
pub proof fn lemma_renamed_first_fault(
    table: Seq<Seq<char>>,
    before: Seq<Option<FaultView>>,
    after: Seq<Option<FaultView>>,
)
    requires
        after.len() == before.len(),
        forall|i: int| 0 <= i < before.len() ==> after[i] == renamed_finding(table, before[i]),
    ensures
        first_fault(after) == renamed_finding(table, first_fault(before)),
    decreases before.len(),
{
    if before.len() > 0 {
        assert(after[0] == renamed_finding(table, before[0]));
        assert forall|i: int| 0 <= i < before.drop_first().len() implies after.drop_first()[i]
            == renamed_finding(table, before.drop_first()[i]) by {
            assert(after[i + 1] == renamed_finding(table, before[i + 1]));
        }
        lemma_renamed_first_fault(table, before.drop_first(), after.drop_first());
    }
}

/// The parts of the names of a function definition are covered where
/// the names are.
proof fn lemma_covers_function(names: Seq<Seq<char>>, function: FunctionDefinitionView)
    requires
        covers(names, function_names(function)),
    ensures
        names.contains(function.name),
        covers(names, joined(argument_parts(function), function.arguments.len() as int)),
        covers(
            names,
            joined(instruction_parts(function.body), function.body.instructions.len() as int),
        ),
        covers(names, terminal_names(function.body.terminal_instruction)),
{
    let own = seq![function.name];
    let arguments = joined(argument_parts(function), function.arguments.len() as int);
    let body = block_names(function.body);
    lemma_covers_append(names, own + arguments, body);
    lemma_covers_append(names, own, arguments);
    lemma_covers_append(
        names,
        joined(instruction_parts(function.body), function.body.instructions.len() as int),
        terminal_names(function.body.terminal_instruction),
    );
    assert(own[0] == function.name);
}

/// The scope of the arguments of a renamed function is the scope of the
/// arguments of the function, renamed.
proof fn lemma_renamed_argument_scope(
    table: Seq<Seq<char>>,
    names: Seq<Seq<char>>,
    scope: Map<Seq<char>, TypeView>,
    function: FunctionDefinitionView,
    n: int,
)
    requires
        one_to_one(table, names),
        within(names, scope),
        covers(names, function_names(function)),
        0 <= n <= function.arguments.len(),
    ensures
        argument_scope(
            renamed_scope(table, scope),
            renamed_function_definition(table, function),
            n,
        ) == renamed_scope(table, argument_scope(scope, function, n)),
        within(names, argument_scope(scope, function, n)),
    decreases n,
{
    if n > 0 {
        lemma_renamed_argument_scope(table, names, scope, function, n - 1);
        lemma_covers_function(names, function);
        lemma_covers_part(
            names,
            argument_parts(function),
            function.arguments.len() as int,
            n - 1,
        );
        assert(argument_parts(function)[n - 1][0] == function.arguments[n - 1].name);
        lemma_renamed_scope_insert(
            table,
            names,
            argument_scope(scope, function, n - 1),
            function.arguments[n - 1].name,
            function.arguments[n - 1].type_,
        );
    }
}

/// The name of instruction `i` of a function is covered where the names
/// of the function are, and so are the names in the instruction.
proof fn lemma_covers_instruction(
    names: Seq<Seq<char>>,
    function: FunctionDefinitionView,
    i: int,
)
    requires
        covers(names, function_names(function)),
        0 <= i < function.body.instructions.len(),
    ensures
        names.contains(function.body.instructions[i].name()),
        covers(names, expression_names(function.body.instructions[i].expression())),
{
    lemma_covers_function(names, function);
    lemma_covers_part(
        names,
        instruction_parts(function.body),
        function.body.instructions.len() as int,
        i,
    );
    let part = expression_names(function.body.instructions[i].expression());
    assert(instruction_parts(function.body)[i] == part);
    assert(part[part.len() - 1] == function.body.instructions[i].name());
}

/// The scope at a position of a renamed function is the scope at that
/// position of the function, renamed.
proof fn lemma_renamed_scope_at(
    table: Seq<Seq<char>>,
    names: Seq<Seq<char>>,
    scope: Map<Seq<char>, TypeView>,
    function: FunctionDefinitionView,
    i: int,
)
    requires
        one_to_one(table, names),
        within(names, scope),
        covers(names, function_names(function)),
        0 <= i <= function.body.instructions.len(),
    ensures
        scope_at(renamed_scope(table, scope), renamed_function_definition(table, function), i)
            == renamed_scope(table, scope_at(scope, function, i)),
        within(names, scope_at(scope, function, i)),
    decreases i,
{
    if i <= 0 {
        lemma_renamed_argument_scope(
            table,
            names,
            scope,
            function,
            function.arguments.len() as int,
        );
    } else {
        lemma_renamed_scope_at(table, names, scope, function, i - 1);
        lemma_covers_instruction(names, function, i - 1);
        let instruction = function.body.instructions[i - 1];
        lemma_renamed_scope_insert(
            table,
            names,
            scope_at(scope, function, i - 1),
            instruction.name(),
            instruction_result_type(instruction),
        );
        let renamed = renamed_function_definition(table, function).body.instructions[i - 1];
        assert(renamed == renamed_instruction(table, instruction));
    }
}

/// The type check finds in a renamed function what it finds in the
/// function, name for name.
pub proof fn lemma_renamed_function_fault(
    table: Seq<Seq<char>>,
    names: Seq<Seq<char>>,
    scope: Map<Seq<char>, TypeView>,
    function: FunctionDefinitionView,
)
    requires
        one_to_one(table, names),
        within(names, scope),
        covers(names, function_names(function)),
    ensures
        function_fault(renamed_function_definition(table, function), renamed_scope(table, scope))
            == renamed_finding(table, function_fault(function, scope)),
{
    let renamed = renamed_function_definition(table, function);
    let before = function_faults(function, scope);
    let after = function_faults(renamed, renamed_scope(table, scope));
    let n = function.body.instructions.len() as int;
    assert forall|i: int| 0 <= i < before.len() implies after[i] == renamed_finding(
        table,
        before[i],
    ) by {
        lemma_renamed_scope_at(table, names, scope, function, i);
        if i < n {
            lemma_covers_instruction(names, function, i);
            let instruction = function.body.instructions[i];
            assert(renamed.body.instructions[i] == renamed_instruction(table, instruction));
            assert(renamed_instruction(table, instruction).expression() == renamed_expression(
                table,
                instruction.expression(),
            ));
            lemma_renamed_expression_type(
                table,
                names,
                scope_at(scope, function, i),
                instruction.expression(),
            );
        } else {
            lemma_covers_function(names, function);
            match function.body.terminal_instruction {
                TerminalInstructionView::Return(expression) => {
                    lemma_renamed_expression_type(
                        table,
                        names,
                        scope_at(scope, function, n),
                        expression,
                    );
                },
                TerminalInstructionView::Unreachable => {},
            }
        }
    }
    lemma_renamed_first_fault(table, before, after);
}

/// Renaming a module is one-to-one on the names that occur in it.
pub proof fn lemma_module_one_to_one(module: ModuleView)
    ensures
        one_to_one(synthetic_names(module), module_names(module)),
{
    let table = synthetic_names(module);
    let names = module_names(module);
    assert forall|a: Seq<char>, b: Seq<char>|
        #![trigger names.contains(a), names.contains(b)]
        names.contains(a) && names.contains(b) && a != b implies renamed_name(table, a)
        != renamed_name(table, b) by {
        lemma_renaming_injective(module, a, b);
    }
}

/// The names that occur in a module cover those that occur in each of
/// its definitions.
proof fn lemma_module_covers(module: ModuleView)
    ensures
        forall|i: int|
            0 <= i < module.variable_definitions.len() ==> covers(
                module_names(module),
                definition_names(#[trigger] module.variable_definitions[i]),
            ),
        forall|i: int|
            0 <= i < module.function_definitions.len() ==> covers(
                module_names(module),
                function_names(#[trigger] module.function_definitions[i]),
            ),
{
    let names = module_names(module);
    let a = joined(
        super::renaming::variable_declaration_parts(module),
        module.variable_declarations.len() as int,
    );
    let b = joined(
        super::renaming::function_declaration_parts(module),
        module.function_declarations.len() as int,
    );
    let c = joined(variable_definition_parts(module), module.variable_definitions.len() as int);
    let d = joined(function_definition_parts(module), module.function_definitions.len() as int);
    assert(covers(names, names));
    lemma_covers_append(names, a + b + c, d);
    lemma_covers_append(names, a + b, c);
    assert forall|i: int| 0 <= i < module.variable_definitions.len() implies covers(
        names,
        definition_names(#[trigger] module.variable_definitions[i]),
    ) by {
        lemma_covers_part(
            names,
            variable_definition_parts(module),
            module.variable_definitions.len() as int,
            i,
        );
    }
    assert forall|i: int| 0 <= i < module.function_definitions.len() implies covers(
        names,
        function_names(#[trigger] module.function_definitions[i]),
    ) by {
        lemma_covers_part(
            names,
            function_definition_parts(module),
            module.function_definitions.len() as int,
            i,
        );
    }
}

/// The type check finds in a renamed module, under the renamed scope,
/// what it finds in the module, name for name.
pub proof fn lemma_renamed_type_fault(module: ModuleView, scope: Map<Seq<char>, TypeView>)
    requires
        within(module_names(module), scope),
    ensures
        type_fault(renamed_module(module), renamed_scope(synthetic_names(module), scope))
            == renamed_finding(synthetic_names(module), type_fault(module, scope)),
{
    let table = synthetic_names(module);
    let names = module_names(module);
    let renamed = renamed_module(module);
    let before = type_faults(module, scope);
    let after = type_faults(renamed, renamed_scope(table, scope));
    let n = module.variable_definitions.len() as int;
    lemma_module_one_to_one(module);
    lemma_module_covers(module);
    assert forall|i: int| 0 <= i < before.len() implies after[i] == renamed_finding(
        table,
        before[i],
    ) by {
        if i < n {
            let definition = module.variable_definitions[i];
            assert(renamed.variable_definitions[i] == renamed_variable_definition(
                table,
                definition,
            ));
            assert(before[i] == definition_fault(definition, scope));
            lemma_covers_append(names, seq![definition.name], expression_names(definition.body));
            lemma_renamed_expression_type(table, names, scope, definition.body);
        } else {
            let function = module.function_definitions[i - n];
            assert(renamed.function_definitions[i - n] == renamed_function_definition(
                table,
                function,
            ));
            assert(before[i] == function_fault(function, scope));
            lemma_renamed_function_fault(table, names, scope, function);
        }
    }
    lemma_renamed_first_fault(table, before, after);
}

/// The first `n` symbols of a renamed module bind what the first `n`
/// symbols of the module bind, renamed.
proof fn lemma_renamed_symbol_map(module: ModuleView, n: int)
    requires
        0 <= n <= module_symbols(module).len(),
    ensures
        symbol_map(module_symbols(renamed_module(module)), n) == renamed_scope(
            synthetic_names(module),
            symbol_map(module_symbols(module), n),
        ),
        within(module_names(module), symbol_map(module_symbols(module), n)),
    decreases n,
{
    let table = synthetic_names(module);
    let before = module_symbols(module);
    if n <= 0 {
        assert(renamed_scope(table, Map::<Seq<char>, TypeView>::empty()) =~= Map::<
            Seq<char>,
            TypeView,
        >::empty());
    } else {
        lemma_renamed_symbol_map(module, n - 1);
        lemma_renamed_symbol(module, n - 1);
        lemma_symbol_occurs(module, n - 1);
        lemma_module_one_to_one(module);
        lemma_renamed_scope_insert(
            table,
            module_names(module),
            symbol_map(before, n - 1),
            before[n - 1].name,
            before[n - 1].type_,
        );
    }
}

/// The table that type collection makes of a renamed module is the
/// table that it makes of the module, renamed.
pub proof fn lemma_renamed_collected_types(module: ModuleView)
    ensures
        collected_types(renamed_module(module)) == renamed_scope(
            synthetic_names(module),
            collected_types(module),
        ),
        within(module_names(module), collected_types(module)),
{
    let n = module_symbols(module).len() as int;
    if n > 0 {
        lemma_renamed_symbol(module, 0);
    } else {
        assert(module_symbols(renamed_module(module)).len() == 0);
    }
    lemma_renamed_symbol_map(module, n);
}

/// The type check finds in a renamed module what it finds in the module,
/// name for name, each against the table that type collection makes of
/// it.
pub proof fn lemma_renaming_keeps_types(module: ModuleView)
    ensures
        type_fault(renamed_module(module), collected_types(renamed_module(module)))
            == renamed_finding(
            synthetic_names(module),
            type_fault(module, collected_types(module)),
        ),
{
    lemma_renamed_collected_types(module);
    lemma_renamed_type_fault(module, collected_types(module));
}

/// A renamed expression refers to the new name of a name exactly where
/// the expression refers to the name.
pub proof fn lemma_renamed_mentions(
    table: Seq<Seq<char>>,
    names: Seq<Seq<char>>,
    expression: ExpressionView,
    name: Seq<char>,
)
    requires
        one_to_one(table, names),
        covers(names, expression_names(expression)),
        names.contains(name),
    ensures
        mentions(renamed_expression(table, expression), renamed_name(table, name)) == mentions(
            expression,
            name,
        ),
    decreases expression,
{
    match expression {
        ExpressionView::Variable(variable) => {
            assert(expression_names(expression)[0] == variable);
        },
        ExpressionView::ComparisonOperation(operation) => {
            let lhs = expression_names(*operation.lhs);
            let rhs = expression_names(*operation.rhs);
            lemma_covers_append(names, lhs + rhs, seq![operation.name]);
            lemma_covers_append(names, lhs, rhs);
            lemma_renamed_mentions(table, names, *operation.lhs, name);
            lemma_renamed_mentions(table, names, *operation.rhs, name);
        },
        ExpressionView::CompareAndSwap(operation) => {
            let pointer = expression_names(*operation.pointer);
            let old_value = expression_names(*operation.old_value);
            let new_value = expression_names(*operation.new_value);
            lemma_covers_append(names, pointer + old_value + new_value, seq![operation.name]);
            lemma_covers_append(names, pointer + old_value, new_value);
            lemma_covers_append(names, pointer, old_value);
            lemma_renamed_mentions(table, names, *operation.pointer, name);
            lemma_renamed_mentions(table, names, *operation.old_value, name);
            lemma_renamed_mentions(table, names, *operation.new_value, name);
        },
    }
}

/// A renamed function binds the new name of a name at a position exactly
/// where the function binds the name there.
pub proof fn lemma_renamed_bound_before(
    table: Seq<Seq<char>>,
    names: Seq<Seq<char>>,
    function: FunctionDefinitionView,
    i: int,
    name: Seq<char>,
)
    requires
        one_to_one(table, names),
        covers(names, function_names(function)),
        names.contains(name),
    ensures
        bound_before(renamed_function_definition(table, function), i, renamed_name(table, name))
            == bound_before(function, i, name),
{
    let renamed = renamed_function_definition(table, function);
    let new = renamed_name(table, name);
    lemma_covers_function(names, function);
    if bound_before(function, i, name) {
        if exists|a: int|
            0 <= a < function.arguments.len() && (#[trigger] function.arguments[a]).name == name {
            let a = choose|a: int|
                0 <= a < function.arguments.len() && (#[trigger] function.arguments[a]).name
                    == name;
            assert(renamed.arguments[a].name == new);
        } else {
            let j = choose|j: int|
                0 <= j < i && j < function.body.instructions.len() && (
                #[trigger] function.body.instructions[j]).name() == name;
            assert(renamed.body.instructions[j] == renamed_instruction(
                table,
                function.body.instructions[j],
            ));
            assert(renamed.body.instructions[j].name() == new);
        }
    }
    if bound_before(renamed, i, new) {
        if exists|a: int|
            0 <= a < renamed.arguments.len() && (#[trigger] renamed.arguments[a]).name == new {
            let a = choose|a: int|
                0 <= a < renamed.arguments.len() && (#[trigger] renamed.arguments[a]).name == new;
            lemma_covers_part(
                names,
                argument_parts(function),
                function.arguments.len() as int,
                a,
            );
            assert(argument_parts(function)[a][0] == function.arguments[a].name);
            assert(names.contains(function.arguments[a].name));
            assert(function.arguments[a].name == name);
        } else {
            let j = choose|j: int|
                0 <= j < i && j < renamed.body.instructions.len() && (
                #[trigger] renamed.body.instructions[j]).name() == new;
            lemma_covers_instruction(names, function, j);
            assert(renamed.body.instructions[j] == renamed_instruction(
                table,
                function.body.instructions[j],
            ));
            assert(names.contains(function.body.instructions[j].name()));
            assert(function.body.instructions[j].name() == name);
        }
    }
}

/// An item of a renamed function refers to the new name of a name
/// exactly where the item of the function refers to the name.
pub proof fn lemma_renamed_item_mentions(
    table: Seq<Seq<char>>,
    names: Seq<Seq<char>>,
    function: FunctionDefinitionView,
    i: int,
    name: Seq<char>,
)
    requires
        one_to_one(table, names),
        covers(names, function_names(function)),
        names.contains(name),
    ensures
        item_mentions(renamed_function_definition(table, function), i, renamed_name(table, name))
            == item_mentions(function, i, name),
{
    let renamed = renamed_function_definition(table, function);
    if 0 <= i < function.body.instructions.len() {
        lemma_covers_instruction(names, function, i);
        let instruction = function.body.instructions[i];
        assert(renamed.body.instructions[i] == renamed_instruction(table, instruction));
        assert(renamed_instruction(table, instruction).expression() == renamed_expression(
            table,
            instruction.expression(),
        ));
        lemma_renamed_mentions(table, names, instruction.expression(), name);
    } else {
        lemma_covers_function(names, function);
        match function.body.terminal_instruction {
            TerminalInstructionView::Return(expression) => {
                lemma_renamed_mentions(table, names, expression, name);
            },
            TerminalInstructionView::Unreachable => {},
        }
    }
}

/// A renamed function uses the new name of a name exactly where the
/// function uses the name.
pub proof fn lemma_renamed_uses(
    table: Seq<Seq<char>>,
    names: Seq<Seq<char>>,
    function: FunctionDefinitionView,
    name: Seq<char>,
)
    requires
        one_to_one(table, names),
        covers(names, function_names(function)),
        names.contains(name),
    ensures
        uses(renamed_function_definition(table, function), renamed_name(table, name)) == uses(
            function,
            name,
        ),
{
    let renamed = renamed_function_definition(table, function);
    let new = renamed_name(table, name);
    if uses(function, name) {
        let i = choose|i: int|
            0 <= i <= function.body.instructions.len() && #[trigger] item_mentions(
                function,
                i,
                name,
            ) && !bound_before(function, i, name);
        lemma_renamed_item_mentions(table, names, function, i, name);
        lemma_renamed_bound_before(table, names, function, i, name);
        assert(item_mentions(renamed, i, new) && !bound_before(renamed, i, new));
    }
    if uses(renamed, new) {
        let i = choose|i: int|
            0 <= i <= renamed.body.instructions.len() && #[trigger] item_mentions(renamed, i, new)
                && !bound_before(renamed, i, new);
        lemma_renamed_item_mentions(table, names, function, i, name);
        lemma_renamed_bound_before(table, names, function, i, name);
        assert(item_mentions(function, i, name) && !bound_before(function, i, name));
    }
}

/// The new name of a name is that of a local variable of the renamed
/// module exactly where the name is that of a local variable of the
/// module, and likewise for immutable variables.
pub proof fn lemma_renamed_variables(module: ModuleView, name: Seq<char>)
    requires
        module_names(module).contains(name),
    ensures
        is_local(renamed_module(module), renamed_name(synthetic_names(module), name)) == is_local(
            module,
            name,
        ),
        is_immutable(renamed_module(module), renamed_name(synthetic_names(module), name))
            == is_immutable(module, name),
{
    let table = synthetic_names(module);
    let renamed = renamed_module(module);
    let new = renamed_name(table, name);
    lemma_module_one_to_one(module);
    assert forall|d: int| 0 <= d < module.variable_definitions.len() implies ((
    #[trigger] renamed.variable_definitions[d]).name == new) == (
    module.variable_definitions[d].name == name) && renamed.variable_definitions[d].global
        == module.variable_definitions[d].global && renamed.variable_definitions[d].mutable
        == module.variable_definitions[d].mutable by {
        assert(renamed.variable_definitions[d] == renamed_variable_definition(
            table,
            module.variable_definitions[d],
        ));
        lemma_variable_definition_occurs(module, d);
    }
    if is_local(module, name) {
        let d = choose|d: int|
            0 <= d < module.variable_definitions.len() && (
            #[trigger] module.variable_definitions[d]).name == name
                && !module.variable_definitions[d].global;
        assert(renamed.variable_definitions[d].name == new);
    }
    if is_local(renamed, new) {
        let d = choose|d: int|
            0 <= d < renamed.variable_definitions.len() && (
            #[trigger] renamed.variable_definitions[d]).name == new
                && !renamed.variable_definitions[d].global;
        assert(module.variable_definitions[d].name == name);
    }
    if is_immutable(module, name) {
        let d = choose|d: int|
            0 <= d < module.variable_definitions.len() && (
            #[trigger] module.variable_definitions[d]).name == name
                && !module.variable_definitions[d].mutable;
        assert(renamed.variable_definitions[d].name == new);
    }
    if is_immutable(renamed, new) {
        let d = choose|d: int|
            0 <= d < renamed.variable_definitions.len() && (
            #[trigger] renamed.variable_definitions[d]).name == new
                && !renamed.variable_definitions[d].mutable;
        assert(module.variable_definitions[d].name == name);
    }
}

/// At a place of the renamed module the new name of a name is bound, or
/// cannot be used, exactly where the name is at that place of the
/// module.
pub proof fn lemma_renamed_place(module: ModuleView, place: Option<Place>, name: Seq<char>)
    requires
        place_in(module, place),
        module_names(module).contains(name),
    ensures
        bound(renamed_module(module), place, renamed_name(synthetic_names(module), name)) == bound(
            module,
            place,
            name,
        ),
        outlived(renamed_module(module), place, renamed_name(synthetic_names(module), name))
            == outlived(module, place, name),
{
    let table = synthetic_names(module);
    let names = module_names(module);
    let renamed = renamed_module(module);
    let new = renamed_name(table, name);
    lemma_module_one_to_one(module);
    lemma_module_covers(module);
    lemma_renamed_variables(module, name);
    match place {
        None => {},
        Some(inside) => {
            let k = inside.function as int;
            assert(renamed.function_definitions[k] == renamed_function_definition(
                table,
                module.function_definitions[k],
            ));
            lemma_renamed_bound_before(
                table,
                names,
                module.function_definitions[k],
                inside.position as int,
                name,
            );
            assert forall|j: int| 0 <= j < module.function_definitions.len() implies uses(
                #[trigger] renamed.function_definitions[j],
                new,
            ) == uses(module.function_definitions[j], name) by {
                assert(renamed.function_definitions[j] == renamed_function_definition(
                    table,
                    module.function_definitions[j],
                ));
                lemma_renamed_uses(table, names, module.function_definitions[j], name);
            }
            if outlived(module, place, name) {
                let j = choose|j: int|
                    0 <= j < inside.function && j < module.function_definitions.len() && uses(
                        #[trigger] module.function_definitions[j],
                        name,
                    );
                assert(uses(renamed.function_definitions[j], new));
            }
            if outlived(renamed, place, new) {
                let j = choose|j: int|
                    0 <= j < inside.function && j < renamed.function_definitions.len() && uses(
                        #[trigger] renamed.function_definitions[j],
                        new,
                    );
                assert(uses(module.function_definitions[j], name));
            }
        },
    }
}

/// The lifetime check finds in a renamed expression what it finds in the
/// expression, name for name.
pub proof fn lemma_renamed_expression_lifetime(
    module: ModuleView,
    place: Option<Place>,
    expression: ExpressionView,
)
    requires
        place_in(module, place),
        covers(module_names(module), expression_names(expression)),
    ensures
        expression_lifetime_fault(
            renamed_module(module),
            place,
            renamed_expression(synthetic_names(module), expression),
        ) == renamed_finding(
            synthetic_names(module),
            expression_lifetime_fault(module, place, expression),
        ),
    decreases expression,
{
    let names = module_names(module);
    match expression {
        ExpressionView::Variable(name) => {
            assert(expression_names(expression)[0] == name);
            lemma_renamed_place(module, place, name);
        },
        ExpressionView::ComparisonOperation(operation) => {
            let lhs = expression_names(*operation.lhs);
            let rhs = expression_names(*operation.rhs);
            lemma_covers_append(names, lhs + rhs, seq![operation.name]);
            lemma_covers_append(names, lhs, rhs);
            lemma_renamed_expression_lifetime(module, place, *operation.lhs);
            lemma_renamed_expression_lifetime(module, place, *operation.rhs);
        },
        ExpressionView::CompareAndSwap(operation) => {
            let pointer = expression_names(*operation.pointer);
            let old_value = expression_names(*operation.old_value);
            let new_value = expression_names(*operation.new_value);
            lemma_covers_append(names, pointer + old_value + new_value, seq![operation.name]);
            lemma_covers_append(names, pointer + old_value, new_value);
            lemma_covers_append(names, pointer, old_value);
            lemma_renamed_expression_lifetime(module, place, *operation.pointer);
            lemma_renamed_expression_lifetime(module, place, *operation.old_value);
            lemma_renamed_expression_lifetime(module, place, *operation.new_value);
            lemma_renamed_expression_name(synthetic_names(module), *operation.pointer);
            if *operation.pointer is Variable {
                let name = operation.pointer.name();
                assert(pointer[0] == name);
                lemma_renamed_place(module, place, name);
                lemma_renamed_variables(module, name);
            }
        },
    }
}

/// The lifetime check finds in a function of a renamed module what it
/// finds in the function of the module, name for name.
pub proof fn lemma_renamed_function_lifetime(module: ModuleView, k: int)
    requires
        0 <= k < module.function_definitions.len(),
        module.function_definitions.len() <= usize::MAX,
        module.function_definitions[k].body.instructions.len() <= usize::MAX,
    ensures
        function_lifetime_fault(renamed_module(module), k) == renamed_finding(
            synthetic_names(module),
            function_lifetime_fault(module, k),
        ),
{
    let table = synthetic_names(module);
    let names = module_names(module);
    let renamed = renamed_module(module);
    let function = module.function_definitions[k];
    let before = function_lifetime_faults(module, k);
    let after = function_lifetime_faults(renamed, k);
    let n = function.body.instructions.len() as int;
    lemma_module_covers(module);
    assert(renamed.function_definitions[k] == renamed_function_definition(table, function));
    assert forall|i: int| 0 <= i < before.len() implies after[i] == renamed_finding(
        table,
        before[i],
    ) by {
        let place = Some(Place { function: k as usize, position: i as usize });
        assert(place_in(module, place));
        if i < n {
            lemma_covers_instruction(names, function, i);
            let instruction = function.body.instructions[i];
            assert(renamed.function_definitions[k].body.instructions[i] == renamed_instruction(
                table,
                instruction,
            ));
            assert(renamed_instruction(table, instruction).expression() == renamed_expression(
                table,
                instruction.expression(),
            ));
            lemma_renamed_expression_lifetime(module, place, instruction.expression());
        } else {
            lemma_covers_function(names, function);
            match function.body.terminal_instruction {
                TerminalInstructionView::Return(expression) => {
                    lemma_renamed_expression_lifetime(module, place, expression);
                },
                TerminalInstructionView::Unreachable => {},
            }
        }
    }
    lemma_renamed_first_fault(table, before, after);
}

/// The lifetime check finds in a renamed module what it finds in the
/// module, name for name.
pub proof fn lemma_renaming_keeps_lifetimes(module: ModuleView)
    requires
        module.representable(),
    ensures
        lifetime_fault(renamed_module(module)) == renamed_finding(
            synthetic_names(module),
            lifetime_fault(module),
        ),
{
    let table = synthetic_names(module);
    let names = module_names(module);
    let renamed = renamed_module(module);
    let before = lifetime_faults(module);
    let after = lifetime_faults(renamed);
    let n = module.variable_definitions.len() as int;
    lemma_module_covers(module);
    assert forall|i: int| 0 <= i < before.len() implies after[i] == renamed_finding(
        table,
        before[i],
    ) by {
        if i < n {
            let definition = module.variable_definitions[i];
            assert(renamed.variable_definitions[i] == renamed_variable_definition(
                table,
                definition,
            ));
            lemma_covers_append(names, seq![definition.name], expression_names(definition.body));
            lemma_renamed_expression_lifetime(module, None, definition.body);
        } else {
            assert(before[i] == function_lifetime_fault(module, i - n));
            assert(after[i] == function_lifetime_fault(renamed, i - n));
            lemma_renamed_function_lifetime(module, i - n);
        }
    }
    lemma_renamed_first_fault(table, before, after);
}

/// Type collection finds at a symbol of a renamed module what it finds
/// at the symbol of the module, name for name.
proof fn lemma_renamed_collection_fault_at(module: ModuleView, i: int)
    requires
        0 <= i < module_symbols(module).len(),
    ensures
        collection_fault_at(module_symbols(renamed_module(module)), i) == renamed_finding(
            synthetic_names(module),
            collection_fault_at(module_symbols(module), i),
        ),
{
    let table = synthetic_names(module);
    let names = module_names(module);
    let before = module_symbols(module);
    let after = module_symbols(renamed_module(module));
    lemma_module_one_to_one(module);
    lemma_renamed_symbol(module, i);
    lemma_symbol_occurs(module, i);
    assert forall|j: int| 0 <= j < i implies (#[trigger] after[j].kind == after[i].kind
        && after[j].name == after[i].name) == (before[j].kind == before[i].kind && before[j].name
        == before[i].name) by {
        lemma_renamed_symbol(module, j);
        lemma_symbol_occurs(module, j);
    }
    if duplicated_at(before, i) {
        let j = choose|j: int|
            0 <= j < i && #[trigger] before[j].kind == before[i].kind && before[j].name
                == before[i].name;
        assert(after[j].kind == after[i].kind && after[j].name == after[i].name);
    }
    if duplicated_at(after, i) {
        let j = choose|j: int|
            0 <= j < i && #[trigger] after[j].kind == after[i].kind && after[j].name
                == after[i].name;
        assert(before[j].kind == before[i].kind && before[j].name == before[i].name);
    }
    lemma_renamed_symbol_map(module, i);
    lemma_renamed_scope_binds(table, names, symbol_map(before, i), before[i].name);
}

/// Type collection finds in a renamed module what it finds in the
/// module, name for name.
pub proof fn lemma_renaming_keeps_collection_fault(module: ModuleView)
    ensures
        collection_fault(renamed_module(module)) == renamed_finding(
            synthetic_names(module),
            collection_fault(module),
        ),
{
    let table = synthetic_names(module);
    let before = collection_faults(module_symbols(module));
    let after = collection_faults(module_symbols(renamed_module(module)));
    if module_symbols(module).len() > 0 {
        lemma_renamed_symbol(module, 0);
    }
    assert forall|i: int| 0 <= i < before.len() implies after[i] == renamed_finding(
        table,
        before[i],
    ) by {
        lemma_renamed_collection_fault_at(module, i);
    }
    lemma_renamed_first_fault(table, before, after);
}

/// The passes find in a renamed module what they find in the module,
/// name for name. So a module that they accept is accepted again once
/// it is renamed.
pub proof fn lemma_renaming_keeps_analysis(module: ModuleView)
    requires
        module.representable(),
    ensures
        analysis_fault(renamed_module(module)) == renamed_finding(
            synthetic_names(module),
            analysis_fault(module),
        ),
        analysis_fault(module) is None ==> analysis_fault(renamed_module(module)) is None,
{
    lemma_renaming_keeps_collection_fault(module);
    lemma_renaming_keeps_types(module);
    lemma_renaming_keeps_lifetimes(module);
}

} // verus!
