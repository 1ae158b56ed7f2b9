//! The table of the names in scope and their types.

use crate::text::same_text;
use crate::types::{Type, TypeView};
use vstd::prelude::*;

verus! {

/// What the first `n` of `entries` bind, a later entry of a name taking
/// the place of an earlier one.
spec fn bindings(entries: Seq<(String, Type)>, n: int) -> Map<Seq<char>, TypeView>
    decreases n,
{
    if n <= 0 {
        Map::empty()
    } else {
        bindings(entries, n - 1).insert(entries[n - 1].0@, entries[n - 1].1@)
    }
}

proof fn lemma_bindings_of_prefix(a: Seq<(String, Type)>, b: Seq<(String, Type)>, n: int)
    requires
        0 <= n <= a.len(),
        n <= b.len(),
        forall|i: int| 0 <= i < n ==> a[i].0@ == b[i].0@ && a[i].1@ == b[i].1@,
    ensures
        bindings(a, n) == bindings(b, n),
    decreases n,
{
    if n > 0 {
        lemma_bindings_of_prefix(a, b, n - 1);
    }
}

proof fn lemma_bindings_absent(entries: Seq<(String, Type)>, n: int, name: Seq<char>)
    requires
        0 <= n <= entries.len(),
        forall|i: int| 0 <= i < n ==> entries[i].0@ != name,
    ensures
        !bindings(entries, n).contains_key(name),
    decreases n,
{
    if n > 0 {
        lemma_bindings_absent(entries, n - 1, name);
    }
}

proof fn lemma_bindings_present(entries: Seq<(String, Type)>, n: int, i: int, name: Seq<char>)
    requires
        0 <= i < n <= entries.len(),
        entries[i].0@ == name,
        forall|j: int| i < j < n ==> entries[j].0@ != name,
    ensures
        bindings(entries, n).contains_key(name),
        bindings(entries, n)[name] == entries[i].1@,
    decreases n,
{
    if i < n - 1 {
        lemma_bindings_present(entries, n - 1, i, name);
    }
}

/// The types of the names in scope. Its view is the map from each name
/// to its type.
#[derive(Debug)]
pub struct SymbolTable {
    entries: Vec<(String, Type)>,
}

impl View for SymbolTable {
    type V = Map<Seq<char>, TypeView>;

    closed spec fn view(&self) -> Map<Seq<char>, TypeView> {
        bindings(self.entries@, self.entries.len() as int)
    }
}

impl SymbolTable {
    /// The table that binds no name.
    pub fn new() -> (r: Self)
        ensures
            r@ == Map::<Seq<char>, TypeView>::empty(),
    {
        SymbolTable { entries: Vec::new() }
    }

    /// Binds `name` to `type_`, in place of what it was bound to before.
    pub fn insert(&mut self, name: &str, type_: Type)
        ensures
            final(self)@ == old(self)@.insert(name@, type_@),
    {
        self.entries.push((name.to_owned(), type_));
        proof {
            lemma_bindings_of_prefix(
                old(self).entries@,
                self.entries@,
                old(self).entries.len() as int,
            );
        }
    }

    /// The type that `name` is bound to, if it is bound.
    pub fn get(&self, name: &str) -> (r: Option<&Type>)
        ensures
            match r {
                Some(type_) => self@.contains_key(name@) && self@[name@] == type_@,
                None => !self@.contains_key(name@),
            },
    {
        let mut i: usize = self.entries.len();
        while i > 0
            invariant
                i <= self.entries.len(),
                forall|j: int| i <= j < self.entries.len() ==> self.entries[j].0@ != name@,
            decreases i,
        {
            i -= 1;
            if same_text(self.entries[i].0.as_str(), name) {
                proof {
                    lemma_bindings_present(
                        self.entries@,
                        self.entries.len() as int,
                        i as int,
                        name@,
                    );
                }
                return Some(&self.entries[i].1);
            }
        }
        proof {
            lemma_bindings_absent(self.entries@, self.entries.len() as int, name@);
        }
        None
    }
}

impl Clone for SymbolTable {
    fn clone(&self) -> (r: Self)
        ensures
            r@ == self@,
    {
        let mut entries: Vec<(String, Type)> = Vec::new();
        let mut i: usize = 0;
        while i < self.entries.len()
            invariant
                i <= self.entries.len(),
                entries.len() == i,
                forall|j: int|
                    0 <= j < i ==> entries[j].0@ == self.entries[j].0@ && entries[j].1@
                        == self.entries[j].1@,
            decreases self.entries.len() - i,
        {
            entries.push((self.entries[i].0.clone(), self.entries[i].1.clone()));
            i += 1;
        }
        proof {
            lemma_bindings_of_prefix(entries@, self.entries@, entries.len() as int);
        }
        SymbolTable { entries }
    }
}

} // verus!
