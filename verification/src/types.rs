//! The type system: scalar kinds, pointers and function types, compared
//! structurally.

use vstd::prelude::*;

verus! {

/// A fixed-width scalar kind.
#[derive(Clone, Copy, Debug, PartialEq, Eq, Hash, Structural)]
pub enum Primitive {
    Boolean,
    Float32,
    Float64,
    Int8,
    Int32,
    Int64,
    PointerInteger,
}

impl Primitive {
    /// Whether values of the kind are ordered, so that `<` and its
    /// relatives are defined on them. Every kind but `Boolean` is.
    pub open spec fn ordered(self) -> bool {
        self != Primitive::Boolean
    }

    pub fn is_ordered(self) -> (r: bool)
        ensures
            r == self.ordered(),
    {
        !matches!(self, Primitive::Boolean)
    }
}

/// The mathematical value of a [`Type`].
pub enum TypeView {
    Primitive(Primitive),
    Pointer(Box<TypeView>),
    Function(FunctionView),
}

/// The mathematical value of a [`Function`] type.
pub struct FunctionView {
    pub arguments: Seq<TypeView>,
    pub result: Box<TypeView>,
}

/// The views of a sequence of values, element by element.
pub open spec fn views<T: View>(s: Seq<T>) -> Seq<T::V> {
    Seq::new(s.len(), |i: int| s[i]@)
}

/// The type of a callable: its parameter types in order, and its result type.
#[derive(Debug, PartialEq, Eq)]
pub struct Function {
    arguments: Vec<Type>,
    result: Box<Type>,
}

/// The type of a value.
#[derive(Debug, PartialEq, Eq)]
pub enum Type {
    Primitive(Primitive),
    Pointer(Box<Type>),
    Function(Function),
}

impl Function {
    /// The value of the type, by recursion on its structure.
    pub closed spec fn model(&self) -> FunctionView
        decreases self,
    {
        FunctionView {
            arguments: Seq::new(
                self.arguments.len() as nat,
                |i: int|
                    if 0 <= i < self.arguments.len() {
                        self.arguments[i].model()
                    } else {
                        arbitrary()
                    },
            ),
            result: Box::new(self.result.model()),
        }
    }
}

impl Type {
    /// The value of the type, by recursion on its structure.
    pub open spec fn model(&self) -> TypeView
        decreases self,
    {
        match self {
            Type::Primitive(p) => TypeView::Primitive(*p),
            Type::Pointer(element) => TypeView::Pointer(Box::new(element.model())),
            Type::Function(f) => TypeView::Function(f.model()),
        }
    }
}

impl View for Function {
    type V = FunctionView;

    open spec fn view(&self) -> FunctionView {
        self.model()
    }
}

impl View for Type {
    type V = TypeView;

    open spec fn view(&self) -> TypeView {
        self.model()
    }
}

/// Whether two vectors of types hold equal types at every position.
fn type_lists_equal(a: &Vec<Type>, b: &Vec<Type>) -> (r: bool)
    ensures
        r == (views(a@) == views(b@)),
    decreases a,
{
    if a.len() != b.len() {
        assert(views(a@).len() != views(b@).len());
        return false;
    }
    let mut i: usize = 0;
    while i < a.len()
        invariant
            i <= a.len(),
            a.len() == b.len(),
            forall|j: int| 0 <= j < i ==> a[j]@ == b[j]@,
        decreases a.len() - i,
    {
        if !a[i].equals(&b[i]) {
            assert(views(a@)[i as int] != views(b@)[i as int]);
            return false;
        }
        i += 1;
    }
    assert(views(a@) =~= views(b@));
    true
}

/// A copy of a vector of types.
fn type_list_clone(a: &Vec<Type>) -> (r: Vec<Type>)
    ensures
        views(r@) == views(a@),
    decreases a,
{
    let mut r: Vec<Type> = Vec::new();
    let mut i: usize = 0;
    while i < a.len()
        invariant
            i <= a.len(),
            r.len() == i,
            forall|j: int| 0 <= j < i ==> r[j]@ == a[j]@,
        decreases a.len() - i,
    {
        r.push(a[i].clone());
        i += 1;
    }
    assert(views(r@) =~= views(a@));
    r
}

impl Function {
    pub fn new(arguments: Vec<Type>, result: Type) -> (r: Self)
        ensures
            r@.arguments == views(arguments@),
            *r@.result == result@,
    {
        let r = Function { arguments, result: Box::new(result) };
        assert(r@.arguments =~= views(arguments@));
        r
    }

    pub fn arguments(&self) -> (r: &[Type])
        ensures
            views(r@) == self@.arguments,
    {
        let r = self.arguments.as_slice();
        assert(views(r@) =~= self@.arguments);
        r
    }

    pub fn result(&self) -> (r: &Type)
        ensures
            r@ == *self@.result,
    {
        &self.result
    }

    /// Structural equality: the same parameter types in the same order, and
    /// the same result type.
    pub fn equals(&self, other: &Function) -> (r: bool)
        ensures
            r == (self@ == other@),
        decreases self,
    {
        assert(self@.arguments =~= views(self.arguments@));
        assert(other@.arguments =~= views(other.arguments@));
        type_lists_equal(&self.arguments, &other.arguments) && self.result.equals(&other.result)
    }
}

impl Clone for Function {
    fn clone(&self) -> (r: Self)
        ensures
            r@ == self@,
        decreases self,
    {
        let arguments = type_list_clone(&self.arguments);
        let r = Function { arguments, result: Box::new((*self.result).clone()) };
        assert(r@.arguments =~= views(arguments@));
        assert(self@.arguments =~= views(self.arguments@));
        r
    }
}

impl Type {
    /// The type of the address of a value of type `element`.
    pub fn pointer(element: Type) -> (r: Self)
        ensures
            r@ == TypeView::Pointer(Box::new(element@)),
    {
        Type::Pointer(Box::new(element))
    }

    /// Structural equality.
    pub fn equals(&self, other: &Type) -> (r: bool)
        ensures
            r == (self@ == other@),
        decreases self,
    {
        match (self, other) {
            (Type::Primitive(a), Type::Primitive(b)) => *a == *b,
            (Type::Pointer(a), Type::Pointer(b)) => a.equals(b),
            (Type::Function(a), Type::Function(b)) => a.equals(b),
            _ => false,
        }
    }
}

impl From<Primitive> for Type {
    fn from(primitive: Primitive) -> (r: Self) {
        Type::Primitive(primitive)
    }
}

impl vstd::std_specs::convert::FromSpecImpl<Primitive> for Type {
    open spec fn obeys_from_spec() -> bool {
        true
    }

    open spec fn from_spec(primitive: Primitive) -> Type {
        Type::Primitive(primitive)
    }
}

impl From<Function> for Type {
    fn from(function: Function) -> (r: Self) {
        Type::Function(function)
    }
}

impl vstd::std_specs::convert::FromSpecImpl<Function> for Type {
    open spec fn obeys_from_spec() -> bool {
        true
    }

    open spec fn from_spec(function: Function) -> Type {
        Type::Function(function)
    }
}

impl Clone for Type {
    fn clone(&self) -> (r: Self)
        ensures
            r@ == self@,
        decreases self,
    {
        match self {
            Type::Primitive(p) => Type::Primitive(*p),
            Type::Pointer(element) => Type::Pointer(Box::new((**element).clone())),
            Type::Function(f) => Type::Function(f.clone()),
        }
    }
}

} // verus!
