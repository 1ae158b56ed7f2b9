use metir::types::{Function, Primitive, Type};

#[test]
fn pointer_types_compare_structurally() {
    let a = Type::pointer(Type::Primitive(Primitive::Int32));
    let b = Type::pointer(Type::Primitive(Primitive::Int32));
    let c = Type::pointer(Type::Primitive(Primitive::Int64));
    assert!(a.equals(&b));
    assert!(!a.equals(&c));
    assert_eq!(a, b);
    assert_ne!(a, c);
}

#[test]
fn function_types_compare_by_arguments_and_result() {
    let f = Function::new(
        vec![Type::Primitive(Primitive::Int32), Type::Primitive(Primitive::Boolean)],
        Type::Primitive(Primitive::Int64),
    );
    let g = Function::new(
        vec![Type::Primitive(Primitive::Int32), Type::Primitive(Primitive::Boolean)],
        Type::Primitive(Primitive::Int64),
    );
    let h = Function::new(
        vec![Type::Primitive(Primitive::Boolean), Type::Primitive(Primitive::Int32)],
        Type::Primitive(Primitive::Int64),
    );
    let k =
        Function::new(vec![Type::Primitive(Primitive::Int32)], Type::Primitive(Primitive::Int64));
    assert!(f.equals(&g));
    assert!(!f.equals(&h));
    assert!(!f.equals(&k));
    assert!(f.clone().equals(&f));
    assert_eq!(f.arguments().len(), 2);
    assert!(f.result().equals(&Type::Primitive(Primitive::Int64)));
}

#[test]
fn kinds_and_function_types_convert_into_types() {
    assert_eq!(Type::from(Primitive::Int32), Type::Primitive(Primitive::Int32));
    let function = Function::new(vec![], Type::Primitive(Primitive::Boolean));
    assert_eq!(Type::from(function.clone()), Type::Function(function));
    let converted: Type = Primitive::Float64.into();
    assert_eq!(converted, Type::Primitive(Primitive::Float64));
}
