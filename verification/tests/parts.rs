use analyzer::symbols::{ScopeStack, Symbol, SymbolKind};
use analyzer::text::{copy_bytes, copy_range, parse_decimal, same_bytes};
use analyzer::types::{all_agree, clone_type, clone_types, numeric, types_agree, unknown, Primitive, Type};

fn prim(p: Primitive) -> Type {
    Type::Primitive(p)
}

fn symbol(name: &str, ty: Type, mutable: bool, initialized: bool) -> Symbol {
    Symbol {
        name: name.as_bytes().to_vec(),
        ty,
        mutable,
        initialized,
        depth: 0,
        kind: SymbolKind::Variable,
    }
}

#[test]
fn decimal_numbers() {
    assert_eq!(parse_decimal(b"0"), Some(0));
    assert_eq!(parse_decimal(b"007"), Some(7));
    assert_eq!(parse_decimal(b"100"), Some(100));
    assert_eq!(parse_decimal(b""), Some(0));
    assert_eq!(parse_decimal(b"18446744073709551615"), Some(u64::MAX));
    assert_eq!(parse_decimal(b"18446744073709551616"), None);
    assert_eq!(parse_decimal(b"99999999999999999999999"), None);
    assert_eq!(parse_decimal(b"12a"), None);
    assert_eq!(parse_decimal(b"-1"), None);
    assert_eq!(parse_decimal(b"1.5"), None);
}

#[test]
fn byte_strings() {
    assert!(same_bytes(b"abc", b"abc"));
    assert!(!same_bytes(b"abc", b"abd"));
    assert!(!same_bytes(b"abc", b"ab"));
    assert!(same_bytes(b"", b""));
    assert_eq!(copy_range(b"hello world", 6, 11), b"world".to_vec());
    assert_eq!(copy_range(b"hello", 2, 2), Vec::<u8>::new());
    assert_eq!(copy_bytes(&b"xyz".to_vec()), b"xyz".to_vec());
}

#[test]
fn unknown_agrees_with_every_type() {
    let tuple = Type::Tuple(vec![prim(Primitive::I32), prim(Primitive::Bool)]);
    assert!(types_agree(&Type::Unknown, &tuple));
    assert!(types_agree(&tuple, &Type::Unknown));
    assert!(types_agree(&Type::Unknown, &Type::Unknown));
    let with_hole = Type::Tuple(vec![Type::Unknown, prim(Primitive::Bool)]);
    assert!(types_agree(&tuple, &with_hole));
    assert!(unknown(&Type::Unknown));
    assert!(!unknown(&tuple));
}

#[test]
fn agreement_of_types() {
    let named = |n: &str| Type::Named(n.as_bytes().to_vec());
    assert!(types_agree(&prim(Primitive::I32), &prim(Primitive::I32)));
    assert!(!types_agree(&prim(Primitive::I32), &prim(Primitive::F64)));
    assert!(!types_agree(&prim(Primitive::StrRef), &prim(Primitive::String)));
    assert!(types_agree(&named("Vec2"), &named("Vec2")));
    assert!(!types_agree(&named("Vec2"), &named("Color")));
    assert!(!types_agree(&named("i32"), &prim(Primitive::I32)));
    let array = |t: Type, n: u64| Type::Array(Box::new(t), n);
    assert!(types_agree(&array(prim(Primitive::I32), 2), &array(prim(Primitive::I32), 2)));
    assert!(!types_agree(&array(prim(Primitive::I32), 2), &array(prim(Primitive::I32), 3)));
    assert!(!types_agree(&array(prim(Primitive::I32), 2), &array(prim(Primitive::F64), 2)));
    let reference = |m: bool, t: Type| Type::Reference(m, Box::new(t));
    assert!(types_agree(&reference(true, named("S")), &reference(true, named("S"))));
    assert!(!types_agree(&reference(true, named("S")), &reference(false, named("S"))));
    let function = |ps: Vec<Type>, r: Type| Type::Function(ps, Box::new(r));
    assert!(types_agree(
        &function(vec![prim(Primitive::I32)], prim(Primitive::Bool)),
        &function(vec![prim(Primitive::I32)], prim(Primitive::Bool))
    ));
    assert!(!types_agree(
        &function(vec![prim(Primitive::I32)], prim(Primitive::Bool)),
        &function(vec![], prim(Primitive::Bool))
    ));
    assert!(all_agree(&vec![prim(Primitive::Char)], &vec![prim(Primitive::Char)]));
    assert!(!all_agree(&vec![prim(Primitive::Char)], &vec![]));
    assert!(numeric(&prim(Primitive::I32)));
    assert!(numeric(&prim(Primitive::F64)));
    assert!(!numeric(&prim(Primitive::Bool)));
    assert!(!numeric(&Type::Unknown));
}

#[test]
fn copies_of_types_are_equal() {
    let ty = Type::Function(
        vec![Type::Tuple(vec![prim(Primitive::I32), Type::Named(b"P".to_vec())])],
        Box::new(Type::Array(Box::new(Type::Reference(true, Box::new(Type::Unknown))), 4)),
    );
    assert_eq!(clone_type(&ty), ty);
    assert_eq!(clone_types(&vec![prim(Primitive::Unit), ty]).len(), 2);
}

#[test]
fn a_new_stack_has_one_empty_scope() {
    let stack = ScopeStack::new();
    assert_eq!(stack.depth(), 1);
    assert_eq!(stack.resolve(b"x"), None);
}

#[test]
fn names_are_found_from_the_innermost_scope_outward() {
    let mut stack = ScopeStack::new();
    stack.declare(symbol("x", prim(Primitive::I32), false, true));
    stack.declare(symbol("y", prim(Primitive::Bool), true, false));
    stack.enter();
    stack.declare(symbol("x", prim(Primitive::F64), true, true));
    assert_eq!(stack.depth(), 2);
    let inner = stack.resolve(b"x").unwrap();
    assert_eq!(inner, (1, 0));
    assert_eq!(stack.symbol(inner).ty, prim(Primitive::F64));
    assert_eq!(stack.symbol(inner).depth, 1);
    let outer = stack.resolve(b"y").unwrap();
    assert_eq!(outer, (0, 1));
    assert_eq!(stack.symbol(outer).depth, 0);
    stack.leave();
    let again = stack.resolve(b"x").unwrap();
    assert_eq!(again, (0, 0));
    assert_eq!(stack.symbol(again).ty, prim(Primitive::I32));
}

#[test]
fn a_name_of_a_closed_scope_is_never_found_again() {
    let mut stack = ScopeStack::new();
    stack.enter();
    stack.declare(symbol("local_only", prim(Primitive::I32), false, true));
    assert!(stack.resolve(b"local_only").is_some());
    stack.leave();
    assert_eq!(stack.resolve(b"local_only"), None);
    stack.enter();
    assert_eq!(stack.resolve(b"local_only"), None);
}

#[test]
fn declaring_a_name_twice_in_one_scope_keeps_one_symbol() {
    let mut stack = ScopeStack::new();
    stack.declare(symbol("a", prim(Primitive::I32), false, true));
    stack.declare(symbol("b", prim(Primitive::I32), false, true));
    stack.declare(symbol("a", prim(Primitive::Bool), true, false));
    assert_eq!(stack.scopes[0].len(), 2);
    let at = stack.resolve(b"a").unwrap();
    assert_eq!(at, (0, 0));
    assert_eq!(stack.symbol(at).ty, prim(Primitive::Bool));
    assert!(stack.symbol(at).mutable);
    assert!(!stack.symbol(at).initialized);
}

#[test]
fn initializing_sets_the_flag_and_the_type() {
    let mut stack = ScopeStack::new();
    stack.declare(symbol("late", Type::Unknown, true, false));
    let at = stack.resolve(b"late").unwrap();
    stack.initialize(at, prim(Primitive::I32));
    assert!(stack.symbol(at).initialized);
    assert_eq!(stack.symbol(at).ty, prim(Primitive::I32));
    assert_eq!(stack.symbol(at).name.as_slice(), b"late");
}

#[test]
fn a_snapshot_is_independent_of_the_stack() {
    let mut stack = ScopeStack::new();
    stack.declare(symbol("x", prim(Primitive::I32), true, false));
    let mut copy = stack.snapshot();
    let at = copy.resolve(b"x").unwrap();
    copy.initialize(at, prim(Primitive::I32));
    copy.enter();
    assert!(copy.symbol(at).initialized);
    assert!(!stack.symbol(at).initialized);
    assert_eq!(stack.depth(), 1);
    assert_eq!(copy.depth(), 2);
}
