//! The faults that the passes report, and the order in which a pass
//! that makes several checks reports them: the first one found.

use crate::types::{Type, TypeView};
use vstd::prelude::*;

verus! {

/// What went wrong.
#[derive(Clone, Copy, Debug, PartialEq, Eq, Hash, Structural)]
pub enum FaultKind {
    /// A name is registered twice in one collection of the module.
    DuplicateName,
    /// A name is registered in two collections with different types.
    ConflictingDeclaration,
    /// An expression refers to a name that nothing binds.
    UndefinedName,
    /// An operand does not have the type that its place asks for.
    TypeMismatch,
    /// A function returns a value that is not of its result type.
    ReturnTypeMismatch,
    /// A variable is used outside the scope that it lives in.
    UseAfterScope,
    /// An instruction that writes is aimed at an immutable variable.
    MutationOfImmutable,
}

/// The mathematical value of a [`Fault`].
pub struct FaultView {
    pub kind: FaultKind,
    pub name: Seq<char>,
    pub expected: Option<TypeView>,
    pub found: Option<TypeView>,
    pub instruction: Option<Seq<char>>,
}

impl FaultView {
    /// A fault of which only the kind and the name are known.
    pub open spec fn named(kind: FaultKind, name: Seq<char>) -> FaultView {
        FaultView { kind, name, expected: None, found: None, instruction: None }
    }

    /// A fault of two types that disagree.
    pub open spec fn of_types(
        kind: FaultKind,
        name: Seq<char>,
        expected: TypeView,
        found: TypeView,
    ) -> FaultView {
        FaultView { kind, name, expected: Some(expected), found: Some(found), instruction: None }
    }

    /// The fault of a name that stands twice in one collection.
    pub open spec fn duplicate_name(name: Seq<char>) -> FaultView {
        FaultView::named(FaultKind::DuplicateName, name)
    }

    /// The fault of a name that two collections register with different
    /// types: the type registered first, and the type met after it.
    pub open spec fn conflicting_declaration(
        name: Seq<char>,
        declared: TypeView,
        found: TypeView,
    ) -> FaultView {
        FaultView::of_types(FaultKind::ConflictingDeclaration, name, declared, found)
    }

    /// The fault of a reference to a name that nothing binds.
    pub open spec fn undefined_name(name: Seq<char>) -> FaultView {
        FaultView::named(FaultKind::UndefinedName, name)
    }

    /// The fault of an expression that is not of the type that its place
    /// asks for.
    pub open spec fn type_mismatch(
        name: Seq<char>,
        expected: TypeView,
        found: TypeView,
    ) -> FaultView {
        FaultView::of_types(FaultKind::TypeMismatch, name, expected, found)
    }

    /// The fault of an operator that is not defined on the kind of its
    /// operands: no type is expected, since the operator fits none of
    /// that family.
    pub open spec fn undefined_operator(name: Seq<char>, found: TypeView) -> FaultView {
        FaultView {
            kind: FaultKind::TypeMismatch,
            name,
            expected: None,
            found: Some(found),
            instruction: None,
        }
    }

    /// The fault of a function that returns a value that is not of its
    /// result type.
    pub open spec fn return_type_mismatch(
        name: Seq<char>,
        expected: TypeView,
        found: TypeView,
    ) -> FaultView {
        FaultView::of_types(FaultKind::ReturnTypeMismatch, name, expected, found)
    }

    /// The fault of a variable used outside its scope.
    pub open spec fn use_after_scope(name: Seq<char>) -> FaultView {
        FaultView::named(FaultKind::UseAfterScope, name)
    }

    /// The fault of a write through the address of an immutable variable.
    pub open spec fn mutation_of_immutable(name: Seq<char>) -> FaultView {
        FaultView::named(FaultKind::MutationOfImmutable, name)
    }

    /// The fault, with the name of the instruction in which it lies.
    pub open spec fn inside(self, instruction: Seq<char>) -> FaultView {
        FaultView { instruction: Some(instruction), ..self }
    }
}

/// The value of a type that may be absent.
pub open spec fn optional_type(type_: Option<Type>) -> Option<TypeView> {
    match type_ {
        Some(type_) => Some(type_@),
        None => None,
    }
}

/// The name of an instruction that may be absent.
pub open spec fn optional_name(name: Option<String>) -> Option<Seq<char>> {
    match name {
        Some(name) => Some(name@),
        None => None,
    }
}

/// What a check found, with the name of the instruction in which the
/// fault lies, if it found one.
pub open spec fn located(finding: Option<FaultView>, instruction: Seq<char>) -> Option<FaultView> {
    match finding {
        Some(fault) => Some(fault.inside(instruction)),
        None => None,
    }
}

/// A fault that a pass found: its kind, the name of what is at fault (a
/// registered name, a variable, the expression or the function that does
/// not fit), where types disagree the type that was asked for and the
/// type that was found, and, where the fault lies in an instruction of a
/// function body, the name that the instruction binds.
#[derive(Debug, PartialEq, Eq)]
pub struct Fault {
    kind: FaultKind,
    name: String,
    expected: Option<Type>,
    found: Option<Type>,
    instruction: Option<String>,
}

impl View for Fault {
    type V = FaultView;

    closed spec fn view(&self) -> FaultView {
        FaultView {
            kind: self.kind,
            name: self.name@,
            expected: optional_type(self.expected),
            found: optional_type(self.found),
            instruction: optional_name(self.instruction),
        }
    }
}

impl Fault {
    /// A fault that lies in no instruction.
    pub fn new(kind: FaultKind, name: &str, expected: Option<Type>, found: Option<Type>) -> (r:
        Self)
        ensures
            r@ == (FaultView {
                kind,
                name: name@,
                expected: optional_type(expected),
                found: optional_type(found),
                instruction: None,
            }),
    {
        Fault { kind, name: name.to_owned(), expected, found, instruction: None }
    }

    /// The fault, with the name of the instruction in which it lies.
    pub fn inside(self, instruction: &str) -> (r: Self)
        ensures
            r@ == self@.inside(instruction@),
    {
        Fault {
            kind: self.kind,
            name: self.name,
            expected: self.expected,
            found: self.found,
            instruction: Some(instruction.to_owned()),
        }
    }

    pub fn instruction(&self) -> (r: Option<&str>)
        ensures
            match r {
                Some(instruction) => self@.instruction == Some(instruction@),
                None => self@.instruction is None,
            },
    {
        match &self.instruction {
            Some(instruction) => Some(instruction.as_str()),
            None => None,
        }
    }

    pub fn kind(&self) -> (r: FaultKind)
        ensures
            r == self@.kind,
    {
        self.kind
    }

    pub fn name(&self) -> (r: &str)
        ensures
            r@ == self@.name,
    {
        self.name.as_str()
    }

    pub fn expected(&self) -> (r: Option<&Type>)
        ensures
            match r {
                Some(type_) => self@.expected == Some(type_@),
                None => self@.expected is None,
            },
    {
        self.expected.as_ref()
    }

    pub fn found(&self) -> (r: Option<&Type>)
        ensures
            match r {
                Some(type_) => self@.found == Some(type_@),
                None => self@.found is None,
            },
    {
        self.found.as_ref()
    }
}

/// What a check that returns nothing on success found.
pub open spec fn checked(result: Result<(), Fault>) -> Option<FaultView> {
    match result {
        Ok(_) => None,
        Err(fault) => Some(fault@),
    }
}

/// The value of a type that was computed, or of the fault met instead.
pub open spec fn typed(result: Result<Type, Fault>) -> Result<TypeView, FaultView> {
    match result {
        Ok(type_) => Ok(type_@),
        Err(fault) => Err(fault@),
    }
}

/// The first fault of a list of checks made in order, each of which found
/// a fault or none.
pub open spec fn first_fault(faults: Seq<Option<FaultView>>) -> Option<FaultView>
    decreases faults.len(),
{
    if faults.len() == 0 {
        None
    } else if faults[0] is Some {
        faults[0]
    } else {
        first_fault(faults.drop_first())
    }
}

/// A fault that no fault precedes is the first.
pub proof fn lemma_first_fault_at(faults: Seq<Option<FaultView>>, i: int)
    requires
        0 <= i < faults.len(),
        faults[i] is Some,
        forall|j: int| 0 <= j < i ==> faults[j] is None,
    ensures
        first_fault(faults) == faults[i],
    decreases faults.len(),
{
    if i > 0 {
        lemma_first_fault_at(faults.drop_first(), i - 1);
    }
}

/// Where no check found a fault, there is no first fault.
pub proof fn lemma_first_fault_none(faults: Seq<Option<FaultView>>)
    requires
        forall|j: int| 0 <= j < faults.len() ==> faults[j] is None,
    ensures
        first_fault(faults) is None,
    decreases faults.len(),
{
    if faults.len() > 0 {
        lemma_first_fault_none(faults.drop_first());
    }
}

/// The first fault of two lists of checks, one after the other, is that
/// of the first list if it has one, and that of the second otherwise.
pub proof fn lemma_first_fault_append(a: Seq<Option<FaultView>>, b: Seq<Option<FaultView>>)
    ensures
        first_fault(a + b) == if first_fault(a) is Some {
            first_fault(a)
        } else {
            first_fault(b)
        },
    decreases a.len(),
{
    if a.len() == 0 {
        assert(a + b =~= b);
    } else {
        assert((a + b).drop_first() =~= a.drop_first() + b);
        lemma_first_fault_append(a.drop_first(), b);
    }
}

} // verus!
