//! Types of the analysed language, as the parser writes them down and the
//! checker infers them.

use vstd::prelude::*;
use crate::text::{copy_bytes, same_bytes};

verus! {

/// The built-in types.
#[derive(Clone, Copy, Debug, PartialEq, Eq, Structural)]
pub enum Primitive {
    I32,
    F64,
    Bool,
    Char,
    StrRef,
    String,
    Unit,
}

/// A type. Structs and enums are told apart by name alone; an array by its
/// element type and its size together; a tuple by its element types in order.
#[derive(Debug, PartialEq, Eq)]
pub enum Type {
    Primitive(Primitive),
    Named(Vec<u8>),
    Array(Box<Type>, u64),
    Tuple(Vec<Type>),
    Function(Vec<Type>, Box<Type>),
    /// A reference to a value, `&T` or `&mut T`; `&str` is a primitive.
    Reference(bool, Box<Type>),
    /// Nothing is known. Stands in after an error, and agrees with every type.
    Unknown,
}

/// The mathematical value of a [`Type`].
pub enum TypeView {
    Primitive(Primitive),
    Named(Seq<u8>),
    Array(Box<TypeView>, u64),
    Tuple(Seq<TypeView>),
    Function(Seq<TypeView>, Box<TypeView>),
    Reference(bool, Box<TypeView>),
    Unknown,
}

/// The mathematical value of a type.
pub open spec fn type_view(t: Type) -> TypeView
    decreases t,
{
    match t {
        Type::Primitive(p) => TypeView::Primitive(p),
        Type::Named(name) => TypeView::Named(name@),
        Type::Array(element, size) => TypeView::Array(Box::new(type_view(*element)), size),
        Type::Tuple(elements) => TypeView::Tuple(types_view(elements@)),
        Type::Function(params, ret) => TypeView::Function(
            types_view(params@),
            Box::new(type_view(*ret)),
        ),
        Type::Reference(mutable, target) => TypeView::Reference(
            mutable,
            Box::new(type_view(*target)),
        ),
        Type::Unknown => TypeView::Unknown,
    }
}

/// The values of a row of types, in order.
pub open spec fn types_view(ts: Seq<Type>) -> Seq<TypeView>
    decreases ts,
{
    Seq::new(
        ts.len(),
        |i: int|
            if 0 <= i < ts.len() {
                type_view(ts[i])
            } else {
                TypeView::Unknown
            },
    )
}

impl View for Type {
    type V = TypeView;

    open spec fn view(&self) -> TypeView {
        type_view(*self)
    }
}

/// The value of a type that may be absent.
pub open spec fn option_type_view(t: Option<Type>) -> Option<TypeView> {
    match t {
        Some(t) => Some(type_view(t)),
        None => None,
    }
}

/// Whether two types agree: `Unknown` agrees with everything, two other
/// types agree when they are built alike from parts that agree. Names are
/// compared as written, arrays by element type and size, tuples and function
/// types place by place.
pub open spec fn compatible(a: TypeView, b: TypeView) -> bool
    decreases a,
{
    match (a, b) {
        (TypeView::Unknown, _) => true,
        (_, TypeView::Unknown) => true,
        (TypeView::Primitive(p), TypeView::Primitive(q)) => p == q,
        (TypeView::Named(m), TypeView::Named(n)) => m == n,
        (TypeView::Array(e, m), TypeView::Array(f, n)) => m == n && compatible(*e, *f),
        (TypeView::Tuple(es), TypeView::Tuple(fs)) => all_compatible(es, fs),
        (TypeView::Function(ps, r), TypeView::Function(qs, s)) => all_compatible(ps, qs)
            && compatible(*r, *s),
        (TypeView::Reference(m, t), TypeView::Reference(n, u)) => m == n && compatible(*t, *u),
        _ => false,
    }
}

/// Whether two rows of types have the same length and agree place by place.
pub open spec fn all_compatible(a: Seq<TypeView>, b: Seq<TypeView>) -> bool
    decreases a,
{
    a.len() == b.len() && forall|i: int|
        0 <= i < a.len() ==> compatible(#[trigger] a[i], b[i])
}

/// Every type agrees with itself.
pub proof fn law_compatible_is_reflexive(a: TypeView)
    ensures
        compatible(a, a),
    decreases a,
{
    reveal_with_fuel(compatible, 3);
    reveal_with_fuel(all_compatible, 3);
    match a {
        TypeView::Array(e, _) => law_compatible_is_reflexive(*e),
        TypeView::Tuple(es) => {
            assert forall|i: int| 0 <= i < es.len() implies compatible(#[trigger] es[i], es[i]) by {
                law_compatible_is_reflexive(es[i]);
            }
        },
        TypeView::Function(ps, r) => {
            assert forall|i: int| 0 <= i < ps.len() implies compatible(#[trigger] ps[i], ps[i]) by {
                law_compatible_is_reflexive(ps[i]);
            }
            law_compatible_is_reflexive(*r);
        },
        TypeView::Reference(_, t) => law_compatible_is_reflexive(*t),
        _ => {},
    }
}

/// Agreement does not depend on which type is the one expected and which
/// the one found.
pub proof fn law_compatible_is_symmetric(a: TypeView, b: TypeView)
    requires
        compatible(a, b),
    ensures
        compatible(b, a),
    decreases a,
{
    reveal_with_fuel(compatible, 3);
    reveal_with_fuel(all_compatible, 3);
    match (a, b) {
        (TypeView::Array(e, _), TypeView::Array(f, _)) => law_compatible_is_symmetric(*e, *f),
        (TypeView::Tuple(es), TypeView::Tuple(fs)) => {
            assert forall|i: int| 0 <= i < fs.len() implies compatible(#[trigger] fs[i], es[i]) by {
                assert(compatible(es[i], fs[i]));
                law_compatible_is_symmetric(es[i], fs[i]);
            }
        },
        (TypeView::Function(ps, r), TypeView::Function(qs, s)) => {
            assert forall|i: int| 0 <= i < qs.len() implies compatible(#[trigger] qs[i], ps[i]) by {
                assert(compatible(ps[i], qs[i]));
                law_compatible_is_symmetric(ps[i], qs[i]);
            }
            law_compatible_is_symmetric(*r, *s);
        },
        (TypeView::Reference(_, t), TypeView::Reference(_, u)) => law_compatible_is_symmetric(
            *t,
            *u,
        ),
        _ => {},
    }
}

/// Two struct or enum types agree only if they have the same name, whatever
/// their fields are.
pub proof fn law_named_types_agree_by_name(m: Seq<u8>, n: Seq<u8>)
    ensures
        compatible(TypeView::Named(m), TypeView::Named(n)) <==> m == n,
{
    reveal_with_fuel(compatible, 3);
    reveal_with_fuel(all_compatible, 3);
}

/// Two array types agree only if they have the same size and their element
/// types agree.
pub proof fn law_arrays_agree_by_element_and_size(e: TypeView, m: u64, f: TypeView, n: u64)
    ensures
        compatible(TypeView::Array(Box::new(e), m), TypeView::Array(Box::new(f), n)) <==> m == n
            && compatible(e, f),
{
    reveal_with_fuel(compatible, 3);
    reveal_with_fuel(all_compatible, 3);
}

/// Two tuple types agree only if they have the same number of elements and
/// the elements agree place by place.
pub proof fn law_tuples_agree_place_by_place(es: Seq<TypeView>, fs: Seq<TypeView>)
    ensures
        compatible(TypeView::Tuple(es), TypeView::Tuple(fs)) <==> es.len() == fs.len() && forall|
            i: int,
        | 0 <= i < es.len() ==> compatible(#[trigger] es[i], fs[i]),
{
    reveal_with_fuel(compatible, 3);
    reveal_with_fuel(all_compatible, 3);
}

/// A copy of a type.
pub fn clone_type(t: &Type) -> (copy: Type)
    ensures
        type_view(copy) == type_view(*t),
    decreases t,
{
    match t {
        Type::Primitive(p) => Type::Primitive(*p),
        Type::Named(name) => Type::Named(copy_bytes(name)),
        Type::Array(element, size) => Type::Array(Box::new(clone_type(element)), *size),
        Type::Tuple(elements) => Type::Tuple(clone_types(elements)),
        Type::Function(params, ret) => Type::Function(
            clone_types(params),
            Box::new(clone_type(ret)),
        ),
        Type::Reference(mutable, target) => Type::Reference(*mutable, Box::new(clone_type(target))),
        Type::Unknown => Type::Unknown,
    }
}

/// A copy of a row of types.
pub fn clone_types(ts: &Vec<Type>) -> (copy: Vec<Type>)
    ensures
        types_view(copy@) == types_view(ts@),
    decreases ts,
{
    let mut copy: Vec<Type> = Vec::new();
    let mut i: usize = 0;
    while i < ts.len()
        invariant
            i <= ts.len(),
            copy.len() == i,
            forall|j: int| 0 <= j < i ==> type_view(#[trigger] copy@[j]) == type_view(ts@[j]),
        decreases ts.len() - i,
    {
        let t = clone_type(&ts[i]);
        copy.push(t);
        i += 1;
    }
    assert(types_view(copy@) =~= types_view(ts@));
    copy
}

/// Whether two types agree.
pub fn types_agree(a: &Type, b: &Type) -> (r: bool)
    ensures
        r == compatible(type_view(*a), type_view(*b)),
    decreases a,
{
    match (a, b) {
        (Type::Unknown, _) => true,
        (_, Type::Unknown) => true,
        (Type::Primitive(p), Type::Primitive(q)) => *p == *q,
        (Type::Named(m), Type::Named(n)) => same_bytes(m.as_slice(), n.as_slice()),
        (Type::Array(e, m), Type::Array(f, n)) => *m == *n && types_agree(e, f),
        (Type::Tuple(es), Type::Tuple(fs)) => all_agree(es, fs),
        (Type::Function(ps, r), Type::Function(qs, s)) => all_agree(ps, qs) && types_agree(r, s),
        (Type::Reference(m, t), Type::Reference(n, u)) => *m == *n && types_agree(t, u),
        _ => false,
    }
}

/// Whether two rows of types have the same length and agree place by place.
pub fn all_agree(a: &Vec<Type>, b: &Vec<Type>) -> (r: bool)
    ensures
        r == all_compatible(types_view(a@), types_view(b@)),
    decreases a,
{
    if a.len() != b.len() {
        return false;
    }
    let mut i: usize = 0;
    while i < a.len()
        invariant
            i <= a.len(),
            a.len() == b.len(),
            forall|j: int|
                0 <= j < i ==> compatible(#[trigger] types_view(a@)[j], types_view(b@)[j]),
        decreases a.len() - i,
    {
        if !types_agree(&a[i], &b[i]) {
            assert(!compatible(types_view(a@)[i as int], types_view(b@)[i as int]));
            return false;
        }
        i += 1;
    }
    true
}

/// Whether a type is `i32` or `f64`.
pub open spec fn is_numeric(t: TypeView) -> bool {
    t == TypeView::Primitive(Primitive::I32) || t == TypeView::Primitive(Primitive::F64)
}

/// Whether a type is `i32` or `f64`.
pub fn numeric(t: &Type) -> (r: bool)
    ensures
        r == is_numeric(type_view(*t)),
{
    match t {
        Type::Primitive(Primitive::I32) => true,
        Type::Primitive(Primitive::F64) => true,
        _ => false,
    }
}

/// Whether a type is `Unknown`.
pub open spec fn is_unknown(t: TypeView) -> bool {
    t is Unknown
}

/// Whether a type is `Unknown`.
pub fn unknown(t: &Type) -> (r: bool)
    ensures
        r == is_unknown(type_view(*t)),
{
    match t {
        Type::Unknown => true,
        _ => false,
    }
}

} // verus!
