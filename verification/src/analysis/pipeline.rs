//! The four passes, one after the other.

use super::fault::{Fault, FaultView};
use super::lifetime_check::{check_lifetimes, lifetime_fault};
use super::preservation::lemma_renaming_keeps_analysis;
use super::renaming::{rename, renamed_module};
use super::type_check::{check_types, type_fault};
use super::type_collection::{collect_types, collection_fault, module_symbols, symbol_map};
use crate::ir::{Module, ModuleView};
use crate::types::TypeView;
use vstd::prelude::*;

verus! {

/// The table that type collection makes of a module.
pub open spec fn collected_types(module: ModuleView) -> Map<Seq<char>, TypeView> {
    symbol_map(module_symbols(module), module_symbols(module).len() as int)
}

/// The fault that the passes report for a module, if any: that of the
/// first pass that finds one. A pass runs only where the passes before
/// it found none.
pub open spec fn analysis_fault(module: ModuleView) -> Option<FaultView> {
    if collection_fault(module) is Some {
        collection_fault(module)
    } else if type_fault(module, collected_types(module)) is Some {
        type_fault(module, collected_types(module))
    } else {
        lifetime_fault(module)
    }
}

/// Runs the four passes in order on a module: type collection, type
/// check, lifetime check, renaming. It returns the renamed module, or
/// the fault of the first pass that finds one. The module that it
/// returns is one that the passes accept again.
pub fn analyze(module: &Module) -> (r: Result<Module, Fault>)
    ensures
        match r {
            Ok(renamed) => analysis_fault(module@) is None && renamed@ == renamed_module(module@)
                && analysis_fault(renamed@) is None,
            Err(fault) => analysis_fault(module@) == Some(fault@),
        },
{
    proof {
        module.lemma_representable();
        lemma_renaming_keeps_analysis(module@);
    }
    let table = match collect_types(module) {
        Ok(table) => table,
        Err(fault) => {
            return Err(fault);
        },
    };
    match check_types(module, &table) {
        Ok(_) => {},
        Err(fault) => {
            return Err(fault);
        },
    }
    match check_lifetimes(module) {
        Ok(_) => {},
        Err(fault) => {
            return Err(fault);
        },
    }
    Ok(rename(module))
}

} // verus!
