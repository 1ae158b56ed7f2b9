//! Type collection, the first pass. It visits every name that a module
//! registers and makes the table from name to type. A name may stand
//! once in each collection, and where it stands in several, its type is
//! the same in all of them.

use super::fault::{
    first_fault, lemma_first_fault_at, lemma_first_fault_none, Fault, FaultKind, FaultView,
};
use super::symbol_table::SymbolTable;
use crate::ir::{
    FunctionDeclarationView, FunctionDefinitionView, Module, ModuleView, VariableDeclarationView,
    VariableDefinitionView,
};
use crate::text::same_text;
use crate::types::{views, Type, TypeView};
use vstd::prelude::*;

verus! {

/// The collection of a module that a name is registered in.
#[derive(Clone, Copy, Debug, PartialEq, Eq, Hash, Structural)]
pub enum SymbolKind {
    VariableDeclaration,
    FunctionDeclaration,
    VariableDefinition,
    FunctionDefinition,
}

/// A registered name with the type that expressions see it at: for a
/// variable the pointer to its value, for a function its function type.
pub struct SymbolView {
    pub kind: SymbolKind,
    pub name: Seq<char>,
    pub type_: TypeView,
}

/// The symbols of the variable declarations of a module.
pub open spec fn variable_declaration_symbols(module: ModuleView) -> Seq<SymbolView> {
    Seq::new(
        module.variable_declarations.len(),
        |i: int|
            SymbolView {
                kind: SymbolKind::VariableDeclaration,
                name: module.variable_declarations[i].name,
                type_: TypeView::Pointer(Box::new(module.variable_declarations[i].type_)),
            },
    )
}

/// The symbols of the function declarations of a module.
pub open spec fn function_declaration_symbols(module: ModuleView) -> Seq<SymbolView> {
    Seq::new(
        module.function_declarations.len(),
        |i: int|
            SymbolView {
                kind: SymbolKind::FunctionDeclaration,
                name: module.function_declarations[i].name,
                type_: TypeView::Function(module.function_declarations[i].type_),
            },
    )
}

/// The symbols of the variable definitions of a module.
pub open spec fn variable_definition_symbols(module: ModuleView) -> Seq<SymbolView> {
    Seq::new(
        module.variable_definitions.len(),
        |i: int|
            SymbolView {
                kind: SymbolKind::VariableDefinition,
                name: module.variable_definitions[i].name,
                type_: TypeView::Pointer(Box::new(module.variable_definitions[i].type_)),
            },
    )
}

/// The symbols of the function definitions of a module.
pub open spec fn function_definition_symbols(module: ModuleView) -> Seq<SymbolView> {
    Seq::new(
        module.function_definitions.len(),
        |i: int|
            SymbolView {
                kind: SymbolKind::FunctionDefinition,
                name: module.function_definitions[i].name,
                type_: TypeView::Function(module.function_definitions[i].type_()),
            },
    )
}

/// The names that a module registers, in the order in which the pass
/// visits them: variable declarations, function declarations, variable
/// definitions, function definitions, each collection in its own order.
pub open spec fn module_symbols(module: ModuleView) -> Seq<SymbolView> {
    variable_declaration_symbols(module) + function_declaration_symbols(module)
        + variable_definition_symbols(module) + function_definition_symbols(module)
}

/// The map from name to type that the first `n` symbols make.
pub open spec fn symbol_map(symbols: Seq<SymbolView>, n: int) -> Map<Seq<char>, TypeView>
    decreases n,
{
    if n <= 0 {
        Map::empty()
    } else {
        symbol_map(symbols, n - 1).insert(symbols[n - 1].name, symbols[n - 1].type_)
    }
}

/// Whether an earlier symbol of the same collection has the name of
/// symbol `i`.
pub open spec fn duplicated_at(symbols: Seq<SymbolView>, i: int) -> bool {
    exists|j: int|
        0 <= j < i && #[trigger] symbols[j].kind == symbols[i].kind && symbols[j].name
            == symbols[i].name
}

/// The fault of symbol `i`, given the symbols before it: its name is
/// already registered in its own collection, or it is registered in
/// another collection with a different type.
pub open spec fn collection_fault_at(symbols: Seq<SymbolView>, i: int) -> Option<FaultView> {
    let symbol = symbols[i];
    let known = symbol_map(symbols, i);
    if duplicated_at(symbols, i) {
        Some(FaultView::duplicate_name(symbol.name))
    } else if known.contains_key(symbol.name) && known[symbol.name] != symbol.type_ {
        Some(FaultView::conflicting_declaration(symbol.name, known[symbol.name], symbol.type_))
    } else {
        None
    }
}

/// The fault that type collection reports for a module, if any: that of
/// the first symbol at fault.
pub open spec fn collection_fault(module: ModuleView) -> Option<FaultView> {
    first_fault(collection_faults(module_symbols(module)))
}

/// For each symbol in order, its fault or none.
pub open spec fn collection_faults(symbols: Seq<SymbolView>) -> Seq<Option<FaultView>> {
    Seq::new(symbols.len(), |i: int| collection_fault_at(symbols, i))
}

struct Symbol {
    kind: SymbolKind,
    name: String,
    type_: Type,
}

impl View for Symbol {
    type V = SymbolView;

    closed spec fn view(&self) -> SymbolView {
        SymbolView { kind: self.kind, name: self.name@, type_: self.type_@ }
    }
}

/// The symbols of a module, in order.
fn symbols_of(module: &Module) -> (r: Vec<Symbol>)
    ensures
        views(r@) == module_symbols(module@),
{
    let mut r: Vec<Symbol> = Vec::new();
    let ghost a = variable_declaration_symbols(module@);
    let ghost b = function_declaration_symbols(module@);
    let ghost c = variable_definition_symbols(module@);
    let ghost d = function_definition_symbols(module@);
    let ghost all = module_symbols(module@);

    let declarations = module.variable_declarations();
    let mut i: usize = 0;
    while i < declarations.len()
        invariant
            i <= declarations.len(),
            views(declarations@) == module@.variable_declarations,
            a == variable_declaration_symbols(module@),
            all == a + b + c + d,
            r.len() == i,
            forall|j: int| 0 <= j < r.len() ==> r[j]@ == all[j],
        decreases declarations.len() - i,
    {
        assert(views(declarations@)[i as int] == declarations[i as int]@);
        assert(all[i as int] == a[i as int]);
        r.push(
            Symbol {
                kind: SymbolKind::VariableDeclaration,
                name: declarations[i].name().to_owned(),
                type_: Type::pointer(declarations[i].type_().clone()),
            },
        );
        i += 1;
    }

    let declarations = module.function_declarations();
    let mut i: usize = 0;
    while i < declarations.len()
        invariant
            i <= declarations.len(),
            views(declarations@) == module@.function_declarations,
            b == function_declaration_symbols(module@),
            all == a + b + c + d,
            r.len() == a.len() + i,
            forall|j: int| 0 <= j < r.len() ==> r[j]@ == all[j],
        decreases declarations.len() - i,
    {
        assert(views(declarations@)[i as int] == declarations[i as int]@);
        assert(all[a.len() + i] == b[i as int]);
        r.push(
            Symbol {
                kind: SymbolKind::FunctionDeclaration,
                name: declarations[i].name().to_owned(),
                type_: Type::Function(declarations[i].type_().clone()),
            },
        );
        i += 1;
    }

    let definitions = module.variable_definitions();
    let mut i: usize = 0;
    while i < definitions.len()
        invariant
            i <= definitions.len(),
            views(definitions@) == module@.variable_definitions,
            c == variable_definition_symbols(module@),
            all == a + b + c + d,
            r.len() == a.len() + b.len() + i,
            forall|j: int| 0 <= j < r.len() ==> r[j]@ == all[j],
        decreases definitions.len() - i,
    {
        assert(views(definitions@)[i as int] == definitions[i as int]@);
        assert(all[a.len() + b.len() + i] == c[i as int]);
        r.push(
            Symbol {
                kind: SymbolKind::VariableDefinition,
                name: definitions[i].name().to_owned(),
                type_: Type::pointer(definitions[i].type_().clone()),
            },
        );
        i += 1;
    }

    let definitions = module.function_definitions();
    let mut i: usize = 0;
    while i < definitions.len()
        invariant
            i <= definitions.len(),
            views(definitions@) == module@.function_definitions,
            d == function_definition_symbols(module@),
            all == a + b + c + d,
            r.len() == a.len() + b.len() + c.len() + i,
            forall|j: int| 0 <= j < r.len() ==> r[j]@ == all[j],
        decreases definitions.len() - i,
    {
        assert(views(definitions@)[i as int] == definitions[i as int]@);
        assert(all[a.len() + b.len() + c.len() + i] == d[i as int]);
        r.push(
            Symbol {
                kind: SymbolKind::FunctionDefinition,
                name: definitions[i].name().to_owned(),
                type_: Type::Function(definitions[i].type_()),
            },
        );
        i += 1;
    }
    assert(views(r@) =~= all);
    r
}

/// Whether an earlier symbol of the same collection has the name of
/// symbol `i`.
fn registered_before(symbols: &Vec<Symbol>, i: usize) -> (r: bool)
    requires
        i < symbols.len(),
    ensures
        r == duplicated_at(views(symbols@), i as int),
{
    let ghost model = views(symbols@);
    let mut j: usize = 0;
    while j < i
        invariant
            j <= i < symbols.len(),
            model == views(symbols@),
            forall|k: int|
                0 <= k < j ==> !(#[trigger] model[k].kind == model[i as int].kind && model[k].name
                    == model[i as int].name),
        decreases i - j,
    {
        assert(symbols[j as int]@ == model[j as int]);
        assert(symbols[i as int]@ == model[i as int]);
        if symbols[j].kind == symbols[i].kind && same_text(
            symbols[j].name.as_str(),
            symbols[i].name.as_str(),
        ) {
            assert(model[j as int].kind == model[i as int].kind);
            return true;
        }
        j += 1;
    }
    false
}

/// Type collection, the first pass: the table from every name that the
/// module registers to its type, or the first fault in the order of
/// [`module_symbols`].
pub fn collect_types(module: &Module) -> (r: Result<SymbolTable, Fault>)
    ensures
        match r {
            Ok(table) => collection_fault(module@) is None && table@ == symbol_map(
                module_symbols(module@),
                module_symbols(module@).len() as int,
            ),
            Err(fault) => collection_fault(module@) == Some(fault@),
        },
{
    let symbols = symbols_of(module);
    let ghost model = module_symbols(module@);
    let ghost faults = collection_faults(model);
    let mut table = SymbolTable::new();
    let mut i: usize = 0;
    while i < symbols.len()
        invariant
            i <= symbols.len(),
            views(symbols@) == model,
            model == module_symbols(module@),
            faults == collection_faults(model),
            table@ == symbol_map(model, i as int),
            forall|j: int| 0 <= j < i ==> faults[j] is None,
        decreases symbols.len() - i,
    {
        let symbol = &symbols[i];
        assert(symbol@ == model[i as int]);
        assert(faults[i as int] == collection_fault_at(model, i as int));
        if registered_before(&symbols, i) {
            proof {
                lemma_first_fault_at(faults, i as int);
            }
            return Err(Fault::new(FaultKind::DuplicateName, symbol.name.as_str(), None, None));
        }
        match table.get(symbol.name.as_str()) {
            Some(known) => {
                if !known.equals(&symbol.type_) {
                    proof {
                        lemma_first_fault_at(faults, i as int);
                    }
                    return Err(
                        Fault::new(
                            FaultKind::ConflictingDeclaration,
                            symbol.name.as_str(),
                            Some(known.clone()),
                            Some(symbol.type_.clone()),
                        ),
                    );
                }
            },
            None => {},
        }
        table.insert(symbol.name.as_str(), symbol.type_.clone());
        i += 1;
    }
    proof {
        lemma_first_fault_none(faults);
    }
    Ok(table)
}

/// Whether the symbols get along: two symbols of one name stand in
/// different collections and have the same type.
pub open spec fn compatible(symbols: Seq<SymbolView>) -> bool {
    forall|i: int, j: int|
        0 <= i < j < symbols.len() && (#[trigger] symbols[i]).name == (#[trigger] symbols[j]).name
            ==> symbols[i].kind != symbols[j].kind && symbols[i].type_ == symbols[j].type_
}

/// The index of the last of the first `n` symbols that has the name, or
/// -1 where none has.
pub open spec fn last_named(symbols: Seq<SymbolView>, n: int, name: Seq<char>) -> int
    decreases n,
{
    if n <= 0 {
        -1
    } else if symbols[n - 1].name == name {
        n - 1
    } else {
        last_named(symbols, n - 1, name)
    }
}

/// A name that the first `n` symbols bind is bound to the type of the
/// last of them that has the name, and they bind no other name.
pub proof fn lemma_symbol_map_binds(symbols: Seq<SymbolView>, n: int, name: Seq<char>)
    requires
        0 <= n <= symbols.len(),
    ensures
        -1 <= last_named(symbols, n, name) < n,
        symbol_map(symbols, n).contains_key(name) <==> last_named(symbols, n, name) >= 0,
        last_named(symbols, n, name) >= 0 ==> symbols[last_named(symbols, n, name)].name == name
            && symbol_map(symbols, n)[name] == symbols[last_named(symbols, n, name)].type_,
        forall|j: int|
            0 <= j < n && (#[trigger] symbols[j]).name == name ==> j <= last_named(
                symbols,
                n,
                name,
            ),
    decreases n,
{
    if n > 0 {
        lemma_symbol_map_binds(symbols, n - 1, name);
    }
}

/// Type collection finds no fault in a module exactly where its symbols
/// get along: no name stands twice in one collection, and a name that
/// stands in two collections has the same type in both.
pub proof fn lemma_collection_characterised(module: ModuleView)
    ensures
        collection_fault(module) is None <==> compatible(module_symbols(module)),
{
    let symbols = module_symbols(module);
    let faults = collection_faults(symbols);
    if compatible(symbols) {
        assert forall|i: int| 0 <= i < faults.len() implies faults[i] is None by {
            lemma_compatible_faultless(symbols, i);
        }
        lemma_first_fault_none(faults);
    }
    if collection_fault(module) is None {
        lemma_faultless(faults);
        assert forall|i: int, j: int|
            0 <= i < j < symbols.len() && (#[trigger] symbols[i]).name == (
            #[trigger] symbols[j]).name implies symbols[i].kind != symbols[j].kind
            && symbols[i].type_ == symbols[j].type_ by {
            lemma_agreement(symbols, i, j);
        }
    }
}

/// A symbol is not at fault where the symbols get along.
proof fn lemma_compatible_faultless(symbols: Seq<SymbolView>, i: int)
    requires
        compatible(symbols),
        0 <= i < symbols.len(),
    ensures
        collection_fault_at(symbols, i) is None,
{
    let name = symbols[i].name;
    if duplicated_at(symbols, i) {
        let j = choose|j: int|
            0 <= j < i && #[trigger] symbols[j].kind == symbols[i].kind && symbols[j].name
                == symbols[i].name;
        assert(symbols[j].name == symbols[i].name);
        assert(false);
    }
    lemma_symbol_map_binds(symbols, i, name);
    let last = last_named(symbols, i, name);
    if last >= 0 {
        assert(symbols[last].name == symbols[i].name);
        assert(symbols[last].type_ == symbols[i].type_);
    }
}

/// Where there is no first fault, no check found one.
proof fn lemma_faultless(faults: Seq<Option<FaultView>>)
    requires
        first_fault(faults) is None,
    ensures
        forall|i: int| 0 <= i < faults.len() ==> faults[i] is None,
    decreases faults.len(),
{
    if faults.len() > 0 {
        lemma_faultless(faults.drop_first());
        assert forall|i: int| 0 <= i < faults.len() implies faults[i] is None by {
            if i > 0 {
                assert(faults[i] == faults.drop_first()[i - 1]);
            }
        }
    }
}

/// Where no symbol is at fault, two symbols of one name stand in
/// different collections and have the same type.
proof fn lemma_agreement(symbols: Seq<SymbolView>, i: int, j: int)
    requires
        forall|k: int|
            0 <= k < symbols.len() ==> (#[trigger] collection_faults(symbols)[k]) is None,
        0 <= i < j < symbols.len(),
        symbols[i].name == symbols[j].name,
    ensures
        symbols[i].kind != symbols[j].kind,
        symbols[i].type_ == symbols[j].type_,
    decreases j,
{
    let name = symbols[j].name;
    assert(collection_faults(symbols)[j] is None);
    assert(collection_fault_at(symbols, j) is None);
    assert(!duplicated_at(symbols, j));
    if symbols[i].kind == symbols[j].kind {
        assert(duplicated_at(symbols, j));
    }
    lemma_symbol_map_binds(symbols, j, name);
    let last = last_named(symbols, j, name);
    assert(symbols[i].name == name);
    assert(i <= last);
    if i < last {
        lemma_agreement(symbols, i, last);
    }
}

/// Whether a module registers `name`, in any of its collections.
pub open spec fn registered(module: ModuleView, name: Seq<char>) -> bool {
    exists|i: int|
        0 <= i < module_symbols(module).len() && (#[trigger] module_symbols(module)[i]).name
            == name
}

/// Symbols that get along still do with one more among them, of a name
/// that none of them has.
proof fn lemma_insert_compatible(symbols: Seq<SymbolView>, at: int, symbol: SymbolView)
    requires
        compatible(symbols),
        0 <= at <= symbols.len(),
        forall|i: int| 0 <= i < symbols.len() ==> (#[trigger] symbols[i]).name != symbol.name,
    ensures
        compatible(symbols.insert(at, symbol)),
{
    let more = symbols.insert(at, symbol);
    assert forall|i: int, j: int|
        0 <= i < j < more.len() && (#[trigger] more[i]).name == (
        #[trigger] more[j]).name implies more[i].kind != more[j].kind && more[i].type_
        == more[j].type_ by {
        let a = if i < at {
            i
        } else {
            i - 1
        };
        let b = if j < at {
            j
        } else {
            j - 1
        };
        if i == at {
            assert(more[j] == symbols[b]);
        } else if j == at {
            assert(more[i] == symbols[a]);
        } else {
            assert(more[i] == symbols[a]);
            assert(more[j] == symbols[b]);
        }
    }
}

/// A module that type collection accepts is accepted again with one more
/// registration, in any collection, under a name that the module does
/// not register yet. So type collection accepts every module that is
/// built from the empty module by registrations under new names.
pub proof fn lemma_new_name_collects(module: ModuleView, name: Seq<char>)
    requires
        collection_fault(module) is None,
        !registered(module, name),
    ensures
        collection_fault(ModuleView::empty()) is None,
        forall|declaration: VariableDeclarationView|
            declaration.name == name ==> collection_fault(
                #[trigger] module.with_variable_declaration(declaration),
            ) is None,
        forall|declaration: FunctionDeclarationView|
            declaration.name == name ==> collection_fault(
                #[trigger] module.with_function_declaration(declaration),
            ) is None,
        forall|definition: VariableDefinitionView|
            definition.name == name ==> collection_fault(
                #[trigger] module.with_variable_definition(definition),
            ) is None,
        forall|definition: FunctionDefinitionView|
            definition.name == name ==> collection_fault(
                #[trigger] module.with_function_definition(definition),
            ) is None,
{
    let symbols = module_symbols(module);
    let a = module.variable_declarations.len() as int;
    let b = module.function_declarations.len() as int;
    let c = module.variable_definitions.len() as int;
    let d = module.function_definitions.len() as int;
    lemma_collection_characterised(module);
    lemma_collection_characterised(ModuleView::empty());
    assert forall|declaration: VariableDeclarationView| declaration.name == name implies (
    collection_fault(#[trigger] module.with_variable_declaration(declaration)) is None) by {
        let more = module.with_variable_declaration(declaration);
        let symbol = SymbolView {
            kind: SymbolKind::VariableDeclaration,
            name,
            type_: TypeView::Pointer(Box::new(declaration.type_)),
        };
        assert(module_symbols(more) =~= symbols.insert(a, symbol));
        lemma_insert_compatible(symbols, a, symbol);
        lemma_collection_characterised(more);
    }
    assert forall|declaration: FunctionDeclarationView| declaration.name == name implies (
    collection_fault(#[trigger] module.with_function_declaration(declaration)) is None) by {
        let more = module.with_function_declaration(declaration);
        let symbol = SymbolView {
            kind: SymbolKind::FunctionDeclaration,
            name,
            type_: TypeView::Function(declaration.type_),
        };
        assert(module_symbols(more) =~= symbols.insert(a + b, symbol));
        lemma_insert_compatible(symbols, a + b, symbol);
        lemma_collection_characterised(more);
    }
    assert forall|definition: VariableDefinitionView| definition.name == name implies (
    collection_fault(#[trigger] module.with_variable_definition(definition)) is None) by {
        let more = module.with_variable_definition(definition);
        let symbol = SymbolView {
            kind: SymbolKind::VariableDefinition,
            name,
            type_: TypeView::Pointer(Box::new(definition.type_)),
        };
        assert(module_symbols(more) =~= symbols.insert(a + b + c, symbol));
        lemma_insert_compatible(symbols, a + b + c, symbol);
        lemma_collection_characterised(more);
    }
    assert forall|definition: FunctionDefinitionView| definition.name == name implies (
    collection_fault(#[trigger] module.with_function_definition(definition)) is None) by {
        let more = module.with_function_definition(definition);
        let symbol = SymbolView {
            kind: SymbolKind::FunctionDefinition,
            name,
            type_: TypeView::Function(definition.type_()),
        };
        assert(module_symbols(more) =~= symbols.insert(a + b + c + d, symbol));
        lemma_insert_compatible(symbols, a + b + c + d, symbol);
        lemma_collection_characterised(more);
    }
}

} // verus!
