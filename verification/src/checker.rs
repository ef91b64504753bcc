//! The semantic checker: walks a program with a stack of scopes and reports
//! what breaks the rules of [`crate::rules`].

use vstd::prelude::*;
use crate::ast::{
    expr_view, exprs_view, field_inits_view, function_view, functions_view, item_view, items_view,
    names_view, param_view, params_view, stmt_view, stmts_view, AssignOp, BinaryOp, ClosureBody,
    Expr, ExprKind, FieldInit, Function, Item, Param, Program, Stmt, UnaryOp,
};
use crate::diagnostics::{record, semantic_errors_view, SemanticError, SemanticErrorView};
use crate::parser::named_type;
use crate::rules;
use crate::rules::{Flow, Typed};
use crate::symbols::{Env, ScopeStack, Symbol, SymbolKind};
use crate::text::{copy_bytes, parse_decimal};
use crate::token::Position;
use crate::types::{
    clone_type, numeric, option_type_view, type_view, types_agree, types_view, unknown, Primitive,
    Type, TypeView,
};

verus! {

/// Whether a checking function found what the rules say of an expression:
/// its type, and the rules' errors added to those recorded `before`.
pub open spec fn typed(
    spec: Typed,
    ty: TypeView,
    before: Seq<SemanticErrorView>,
    after: Seq<SemanticErrorView>,
) -> bool {
    &&& ty == spec.ty
    &&& after =~= before + spec.errors
}

/// Whether a checking function did what the rules say of a statement: it
/// left the scopes as they say, and added their errors to those recorded
/// `before`.
pub open spec fn flows(
    spec: Flow,
    env: Env,
    before: Seq<SemanticErrorView>,
    after: Seq<SemanticErrorView>,
) -> bool {
    &&& env == spec.env
    &&& after =~= before + spec.errors
}

fn require(expected: &Type, found: &Type, pos: Position, errors: &mut Vec<SemanticError>)
    ensures
        semantic_errors_view(final(errors)@) =~= semantic_errors_view(old(errors)@) + rules::require(
            type_view(*expected),
            type_view(*found),
            pos,
        ),
{
    if !types_agree(expected, found) {
        record(
            errors,
            SemanticError::TypeMismatch {
                expected: clone_type(expected),
                found: clone_type(found),
                pos,
            },
        );
    }
}

fn require_if(expected: &Option<Type>, found: &Type, pos: Position, errors: &mut Vec<SemanticError>)
    ensures
        semantic_errors_view(final(errors)@) =~= semantic_errors_view(old(errors)@)
            + rules::require_if(option_type_view(*expected), type_view(*found), pos),
{
    match expected {
        Some(t) => require(t, found, pos, errors),
        None => {},
    }
}

fn is_arithmetic(op: BinaryOp) -> (r: bool)
    ensures
        r == rules::is_arithmetic(op),
{
    match op {
        BinaryOp::Add | BinaryOp::Sub | BinaryOp::Mul | BinaryOp::Div | BinaryOp::Rem => true,
        _ => false,
    }
}

fn is_logical(op: BinaryOp) -> (r: bool)
    ensures
        r == rules::is_logical(op),
{
    match op {
        BinaryOp::And | BinaryOp::Or => true,
        _ => false,
    }
}

fn numeric_like(t: &Type) -> (r: Type)
    ensures
        type_view(r) == rules::numeric_like(type_view(*t)),
{
    if numeric(t) {
        clone_type(t)
    } else {
        Type::Primitive(Primitive::I32)
    }
}

#[verifier::spinoff_prover]
fn binary_result(
    op: BinaryOp,
    tl: &Type,
    tr: &Type,
    lp: Position,
    rp: Position,
    errors: &mut Vec<SemanticError>,
) -> (ty: Type)
    ensures
        typed(
            rules::binary_result(op, type_view(*tl), type_view(*tr), lp, rp),
            type_view(ty),
            semantic_errors_view(old(errors)@),
            semantic_errors_view(final(errors)@),
        ),
{
    if is_arithmetic(op) {
        let wanted_left = numeric_like(tl);
        if !types_agree(&wanted_left, tl) {
            require(&wanted_left, tl, lp, errors);
            return Type::Unknown;
        }
        let wanted_right = if numeric(tl) {
            clone_type(tl)
        } else {
            numeric_like(tr)
        };
        if !types_agree(&wanted_right, tr) {
            require(&wanted_right, tr, rp, errors);
            return Type::Unknown;
        }
        if numeric(tl) {
            clone_type(tl)
        } else if numeric(tr) {
            clone_type(tr)
        } else {
            Type::Unknown
        }
    } else if is_logical(op) {
        let wanted = Type::Primitive(Primitive::Bool);
        require(&wanted, tl, lp, errors);
        require(&wanted, tr, rp, errors);
        wanted
    } else {
        require(tl, tr, rp, errors);
        Type::Primitive(Primitive::Bool)
    }
}

#[verifier::spinoff_prover]
fn unary_result(op: UnaryOp, t: Type, pos: Position, errors: &mut Vec<SemanticError>) -> (ty: Type)
    ensures
        typed(
            rules::unary_result(op, type_view(t), pos),
            type_view(ty),
            semantic_errors_view(old(errors)@),
            semantic_errors_view(final(errors)@),
        ),
{
    match op {
        UnaryOp::Neg => {
            let wanted = numeric_like(&t);
            if types_agree(&wanted, &t) {
                t
            } else {
                require(&wanted, &t, pos, errors);
                Type::Unknown
            }
        },
        UnaryOp::Not => {
            let wanted = Type::Primitive(Primitive::Bool);
            require(&wanted, &t, pos, errors);
            wanted
        },
    }
}

#[verifier::spinoff_prover]
fn check_name(env: &ScopeStack, name: &Vec<u8>, pos: Position, errors: &mut Vec<SemanticError>) -> (ty:
    Type)
    ensures
        typed(
            rules::check_name(env@, name@, pos),
            type_view(ty),
            semantic_errors_view(old(errors)@),
            semantic_errors_view(final(errors)@),
        ),
{
    match env.resolve(name.as_slice()) {
        None => {
            record(errors, SemanticError::UndefinedIdentifier { name: copy_bytes(name), pos });
            Type::Unknown
        },
        Some(at) => {
            let symbol = env.symbol(at);
            if !symbol.initialized {
                record(errors, SemanticError::UninitializedUse { name: copy_bytes(name), pos });
            }
            clone_type(&symbol.ty)
        },
    }
}

#[verifier::spinoff_prover]
fn check_path(
    env: &ScopeStack,
    segments: &Vec<Vec<u8>>,
    pos: Position,
    errors: &mut Vec<SemanticError>,
) -> (ty: Type)
    ensures
        typed(
            rules::check_path(env@, names_view(segments@), pos),
            type_view(ty),
            semantic_errors_view(old(errors)@),
            semantic_errors_view(final(errors)@),
        ),
{
    if segments.len() == 0 {
        return Type::Unknown;
    }
    let head = &segments[0];
    match env.resolve(head.as_slice()) {
        Some(at) => {
            let symbol = env.symbol(at);
            if symbol.kind == SymbolKind::Enum {
                Type::Named(copy_bytes(head))
            } else {
                Type::Unknown
            }
        },
        None => {
            let builtin = match named_type(head) {
                Type::Primitive(_) => true,
                _ => false,
            };
            if !builtin {
                record(errors, SemanticError::UndefinedIdentifier { name: copy_bytes(head), pos });
            }
            Type::Unknown
        },
    }
}

fn push_type(row: Vec<Type>, t: Type) -> (r: Vec<Type>)
    ensures
        types_view(r@) == types_view(row@).push(type_view(t)),
        r@.len() == row@.len() + 1,
{
    let mut row = row;
    let ghost before = types_view(row@);
    let ghost tv = type_view(t);
    row.push(t);
    assert(types_view(row@) =~= before.push(tv));
    row
}

fn no_types() -> (r: Vec<Type>)
    ensures
        types_view(r@) == Seq::<TypeView>::empty(),
        r@.len() == 0,
{
    let r: Vec<Type> = Vec::new();
    assert(types_view(r@) =~= Seq::<TypeView>::empty());
    r
}

fn param_type(p: &Param) -> (t: Type)
    ensures
        type_view(t) == rules::param_type(param_view(*p)),
{
    match &p.ty {
        Some(t) => clone_type(t),
        None => Type::Unknown,
    }
}

fn param_types(params: &Vec<Param>) -> (types: Vec<Type>)
    ensures
        types_view(types@) == rules::param_types(params_view(params@)),
{
    let mut types: Vec<Type> = Vec::new();
    let mut i: usize = 0;
    while i < params.len()
        invariant
            i <= params.len(),
            types.len() == i,
            forall|j: int|
                0 <= j < i ==> type_view(#[trigger] types@[j]) == rules::param_type(
                    param_view(params@[j]),
                ),
        decreases params.len() - i,
    {
        types.push(param_type(&params[i]));
        i += 1;
    }
    assert(types_view(types@) =~= rules::param_types(params_view(params@)));
    types
}

#[verifier::spinoff_prover]
fn declare_params(env: &mut ScopeStack, params: &Vec<Param>)
    requires
        old(env)@.len() > 0,
    ensures
        final(env)@ == rules::declare_params(old(env)@, params_view(params@)),
        final(env)@.len() == old(env)@.len(),
{
    let mut i: usize = 0;
    assert(params_view(params@).take(0) =~= Seq::empty());
    while i < params.len()
        invariant
            i <= params.len(),
            env@.len() == old(env)@.len(),
            env@.len() > 0,
            env@ == rules::declare_params(old(env)@, params_view(params@).take(i as int)),
        decreases params.len() - i,
    {
        let p = &params[i];
        let symbol = Symbol {
            name: copy_bytes(&p.name),
            ty: param_type(p),
            mutable: false,
            initialized: true,
            depth: 0,
            kind: SymbolKind::Parameter,
        };
        proof {
            let next = params_view(params@).take(i + 1);
            assert(next.drop_last() =~= params_view(params@).take(i as int));
            assert(next.last() == param_view(*p));
        }
        env.declare(symbol);
        i += 1;
    }
    assert(params_view(params@).take(params.len() as int) =~= params_view(params@));
}

/// Finds the type of an expression and records the errors in it.
#[verifier::spinoff_prover]
pub fn check_expr(env: &ScopeStack, e: &Expr, errors: &mut Vec<SemanticError>) -> (ty: Type)
    requires
        env@.len() > 0,
    ensures
        typed(
            rules::check_expr(env@, expr_view(*e)),
            type_view(ty),
            semantic_errors_view(old(errors)@),
            semantic_errors_view(final(errors)@),
        ),
    decreases e, 2nat,
{
    proof {
        reveal_with_fuel(rules::check_expr, 1);
        reveal_with_fuel(rules::check_binary, 1);
        reveal_with_fuel(rules::check_call, 1);
        reveal_with_fuel(rules::check_exprs, 1);
        reveal_with_fuel(rules::check_struct_init, 1);
        reveal_with_fuel(rules::check_array, 1);
        reveal_with_fuel(rules::check_repeat, 1);
        reveal_with_fuel(rules::check_closure, 1);
        reveal_with_fuel(rules::check_range, 1);
    }
    match &e.kind {
        ExprKind::IntLit(_) => Type::Primitive(Primitive::I32),
        ExprKind::FloatLit(_) => Type::Primitive(Primitive::F64),
        ExprKind::BoolLit(_) => Type::Primitive(Primitive::Bool),
        ExprKind::CharLit(_) => Type::Primitive(Primitive::Char),
        ExprKind::StringLit(_) => Type::Primitive(Primitive::StrRef),
        ExprKind::Identifier(name) => check_name(env, name, e.pos, errors),
        ExprKind::Path(segments) => check_path(env, segments, e.pos, errors),
        ExprKind::Binary(_, _, _) => check_binary(env, e, errors),
        ExprKind::Unary(op, operand) => {
            let t = check_expr(env, operand, errors);
            unary_result(*op, t, operand.pos, errors)
        },
        ExprKind::Call(_, _) => check_call(env, e, errors),
        ExprKind::MacroCall(_, args) => {
            let _types = check_exprs(env, args, errors);
            Type::Primitive(Primitive::Unit)
        },
        ExprKind::FieldAccess(base, _) => {
            let _t = check_expr(env, base, errors);
            Type::Unknown
        },
        ExprKind::StructInit(_, _) => check_struct_init(env, e, errors),
        ExprKind::ArrayLit(_) => check_array(env, e, errors),
        ExprKind::ArrayRepeat(_, _) => check_repeat(env, e, errors),
        ExprKind::TupleLit(es) => {
            let types = check_exprs(env, es, errors);
            if es.len() == 0 {
                Type::Primitive(Primitive::Unit)
            } else {
                Type::Tuple(types)
            }
        },
        ExprKind::Closure(_, _, _) => check_closure(env, e, errors),
        ExprKind::Reference(mutable, target) => {
            let t = check_expr(env, target, errors);
            if unknown(&t) {
                Type::Unknown
            } else {
                Type::Reference(*mutable, Box::new(t))
            }
        },
        ExprKind::Range(_, _) => check_range(env, e, errors),
    }
}

#[verifier::spinoff_prover]
fn check_exprs(env: &ScopeStack, es: &Vec<Expr>, errors: &mut Vec<SemanticError>) -> (types: Vec<
    Type,
>)
    requires
        env@.len() > 0,
    ensures
        types_view(types@) == rules::check_exprs(env@, exprs_view(es@)).types,
        semantic_errors_view(final(errors)@) =~= semantic_errors_view(old(errors)@)
            + rules::check_exprs(env@, exprs_view(es@)).errors,
        types.len() == es.len(),
    decreases es, 0nat,
{
    proof {
        reveal_with_fuel(rules::check_exprs, 1);
        reveal_with_fuel(rules::check_expr, 1);
    }
    let mut types = no_types();
    let mut i: usize = 0;
    assert(exprs_view(es@).take(0) =~= Seq::empty());
    while i < es.len()
        invariant
            i <= es.len(),
            env@.len() > 0,
            types.len() == i,
            types_view(types@) == rules::check_exprs(env@, exprs_view(es@).take(i as int)).types,
            semantic_errors_view(errors@) =~= semantic_errors_view(old(errors)@)
                + rules::check_exprs(env@, exprs_view(es@).take(i as int)).errors,
        decreases es.len() - i,
    {
        let t = check_expr(env, &es[i], errors);
        proof {
            reveal_with_fuel(rules::check_exprs, 1);
            reveal_with_fuel(rules::check_expr, 1);
            let next = exprs_view(es@).take(i + 1);
            assert(next.drop_last() =~= exprs_view(es@).take(i as int));
            assert(next.last() == expr_view(es@[i as int]));
        }
        types = push_type(types, t);
        i += 1;
    }
    assert(exprs_view(es@).take(es.len() as int) =~= exprs_view(es@));
    types
}

#[verifier::spinoff_prover]
fn check_field_inits(env: &ScopeStack, fields: &Vec<FieldInit>, errors: &mut Vec<SemanticError>)
    requires
        env@.len() > 0,
    ensures
        semantic_errors_view(final(errors)@) =~= semantic_errors_view(old(errors)@)
            + rules::check_field_inits(env@, field_inits_view(fields@)),
    decreases fields, 0nat,
{
    proof {
        reveal_with_fuel(rules::check_field_inits, 1);
        reveal_with_fuel(rules::check_expr, 1);
    }
    let mut i: usize = 0;
    assert(field_inits_view(fields@).take(0) =~= Seq::empty());
    while i < fields.len()
        invariant
            i <= fields.len(),
            env@.len() > 0,
            semantic_errors_view(errors@) =~= semantic_errors_view(old(errors)@)
                + rules::check_field_inits(env@, field_inits_view(fields@).take(i as int)),
        decreases fields.len() - i,
    {
        let _t = check_expr(env, &fields[i].value, errors);
        proof {
            reveal_with_fuel(rules::check_field_inits, 1);
            reveal_with_fuel(rules::check_expr, 1);
            let next = field_inits_view(fields@).take(i + 1);
            assert(next.drop_last() =~= field_inits_view(fields@).take(i as int));
            assert(next.last().value == expr_view(fields@[i as int].value));
        }
        i += 1;
    }
    assert(field_inits_view(fields@).take(fields.len() as int) =~= field_inits_view(fields@));
}

#[verifier::spinoff_prover]
fn check_binary(env: &ScopeStack, e: &Expr, errors: &mut Vec<SemanticError>) -> (ty: Type)
    requires
        env@.len() > 0,
    ensures
        typed(
            rules::check_binary(env@, expr_view(*e)),
            type_view(ty),
            semantic_errors_view(old(errors)@),
            semantic_errors_view(final(errors)@),
        ),
    decreases e, 1nat,
{
    proof {
        reveal_with_fuel(rules::check_binary, 1);
        reveal_with_fuel(rules::check_expr, 1);
    }
    match &e.kind {
        ExprKind::Binary(op, l, r) => {
            let tl = check_expr(env, l, errors);
            let tr = check_expr(env, r, errors);
            binary_result(*op, &tl, &tr, l.pos, r.pos, errors)
        },
        _ => Type::Unknown,
    }
}

#[verifier::spinoff_prover]
fn check_call(env: &ScopeStack, e: &Expr, errors: &mut Vec<SemanticError>) -> (ty: Type)
    requires
        env@.len() > 0,
    ensures
        typed(
            rules::check_call(env@, expr_view(*e)),
            type_view(ty),
            semantic_errors_view(old(errors)@),
            semantic_errors_view(final(errors)@),
        ),
    decreases e, 1nat,
{
    proof {
        reveal_with_fuel(rules::check_call, 1);
        reveal_with_fuel(rules::check_expr, 1);
        reveal_with_fuel(rules::check_exprs, 1);
    }
    match &e.kind {
        ExprKind::Call(f, args) => {
            let tf = check_expr(env, f, errors);
            let _types = check_exprs(env, args, errors);
            match tf {
                Type::Function(_, ret) => *ret,
                _ => Type::Unknown,
            }
        },
        _ => Type::Unknown,
    }
}

#[verifier::spinoff_prover]
fn check_struct_init(env: &ScopeStack, e: &Expr, errors: &mut Vec<SemanticError>) -> (ty: Type)
    requires
        env@.len() > 0,
    ensures
        typed(
            rules::check_struct_init(env@, expr_view(*e)),
            type_view(ty),
            semantic_errors_view(old(errors)@),
            semantic_errors_view(final(errors)@),
        ),
    decreases e, 1nat,
{
    proof {
        reveal_with_fuel(rules::check_struct_init, 1);
        reveal_with_fuel(rules::check_field_inits, 1);
    }
    match &e.kind {
        ExprKind::StructInit(name, fields) => {
            let found = env.resolve(name.as_slice());
            if found.is_none() {
                record(
                    errors,
                    SemanticError::UndefinedIdentifier { name: copy_bytes(name), pos: e.pos },
                );
            }
            check_field_inits(env, fields, errors);
            if found.is_some() {
                Type::Named(copy_bytes(name))
            } else {
                Type::Unknown
            }
        },
        _ => Type::Unknown,
    }
}

/// Records the elements among the first `upto` that do not agree with the
/// first element.
#[verifier::spinoff_prover]
fn element_mismatches(types: &Vec<Type>, es: &Vec<Expr>, errors: &mut Vec<SemanticError>)
    requires
        types.len() == es.len(),
    ensures
        semantic_errors_view(final(errors)@) =~= semantic_errors_view(old(errors)@)
            + rules::element_mismatches(types_view(types@), exprs_view(es@), es.len() as nat),
{
    let mut i: usize = 1;
    while i < es.len()
        invariant
            1 <= i,
            types.len() == es.len(),
            i <= es.len() || es.len() == 0,
            semantic_errors_view(errors@) =~= semantic_errors_view(old(errors)@)
                + rules::element_mismatches(types_view(types@), exprs_view(es@), i as nat),
        decreases es.len() - i,
    {
        require(&types[0], &types[i], es[i].pos, errors);
        i += 1;
    }
}

#[verifier::spinoff_prover]
fn check_array(env: &ScopeStack, e: &Expr, errors: &mut Vec<SemanticError>) -> (ty: Type)
    requires
        env@.len() > 0,
    ensures
        typed(
            rules::check_array(env@, expr_view(*e)),
            type_view(ty),
            semantic_errors_view(old(errors)@),
            semantic_errors_view(final(errors)@),
        ),
    decreases e, 1nat,
{
    proof {
        reveal_with_fuel(rules::check_array, 1);
        reveal_with_fuel(rules::check_exprs, 1);
    }
    proof {
        reveal_with_fuel(type_view, 3);
        reveal_with_fuel(expr_view, 2);
        reveal_with_fuel(crate::ast::expr_kind_view, 2);
    }
    match &e.kind {
        ExprKind::ArrayLit(es) => {
            let types = check_exprs(env, es, errors);
            element_mismatches(&types, es, errors);
            let element = if es.len() == 0 {
                Type::Unknown
            } else {
                clone_type(&types[0])
            };
            Type::Array(Box::new(element), es.len() as u64)
        },
        _ => Type::Unknown,
    }
}

fn is_constant_name(env: &ScopeStack, e: &Expr) -> (r: bool)
    ensures
        r == rules::is_constant_name(env@, expr_view(*e)),
{
    match &e.kind {
        ExprKind::Identifier(name) => match env.resolve(name.as_slice()) {
            Some(at) => env.symbol(at).kind == SymbolKind::Constant,
            None => false,
        },
        _ => false,
    }
}

#[verifier::spinoff_prover]
fn check_repeat(env: &ScopeStack, e: &Expr, errors: &mut Vec<SemanticError>) -> (ty: Type)
    requires
        env@.len() > 0,
    ensures
        typed(
            rules::check_repeat(env@, expr_view(*e)),
            type_view(ty),
            semantic_errors_view(old(errors)@),
            semantic_errors_view(final(errors)@),
        ),
    decreases e, 1nat,
{
    proof {
        reveal_with_fuel(rules::check_repeat, 1);
        reveal_with_fuel(rules::check_expr, 1);
    }
    match &e.kind {
        ExprKind::ArrayRepeat(value, size) => {
            let tv = check_expr(env, value, errors);
            assert(expr_view(**size).kind == crate::ast::expr_kind_view(size.kind));
            match &size.kind {
                ExprKind::IntLit(digits) => match parse_decimal(digits.as_slice()) {
                    Some(n) => Type::Array(Box::new(tv), n),
                    None => {
                        record(errors, SemanticError::InvalidArraySize { pos: size.pos });
                        Type::Unknown
                    },
                },
                _ => {
                    let ts = check_expr(env, size, errors);
                    let wanted = Type::Primitive(Primitive::I32);
                    if !(is_constant_name(env, size) && types_agree(&wanted, &ts)) {
                        record(errors, SemanticError::InvalidArraySize { pos: size.pos });
                    }
                    Type::Unknown
                },
            }
        },
        _ => Type::Unknown,
    }
}

fn range_name() -> (name: Vec<u8>)
    ensures
        name@ == rules::text_range(),
{
    let name = vec!['R' as u8, 'a' as u8, 'n' as u8, 'g' as u8, 'e' as u8];
    assert(name@ =~= rules::text_range());
    name
}

#[verifier::spinoff_prover]
fn check_range(env: &ScopeStack, e: &Expr, errors: &mut Vec<SemanticError>) -> (ty: Type)
    requires
        env@.len() > 0,
    ensures
        typed(
            rules::check_range(env@, expr_view(*e)),
            type_view(ty),
            semantic_errors_view(old(errors)@),
            semantic_errors_view(final(errors)@),
        ),
    decreases e, 1nat,
{
    proof {
        reveal_with_fuel(rules::check_range, 1);
        reveal_with_fuel(rules::check_expr, 1);
    }
    match &e.kind {
        ExprKind::Range(a, b) => {
            let ta = check_expr(env, a, errors);
            let tb = check_expr(env, b, errors);
            let wanted = Type::Primitive(Primitive::I32);
            require(&wanted, &ta, a.pos, errors);
            require(&wanted, &tb, b.pos, errors);
            Type::Named(range_name())
        },
        _ => Type::Unknown,
    }
}

#[verifier::spinoff_prover]
fn check_closure(env: &ScopeStack, e: &Expr, errors: &mut Vec<SemanticError>) -> (ty: Type)
    requires
        env@.len() > 0,
    ensures
        typed(
            rules::check_closure(env@, expr_view(*e)),
            type_view(ty),
            semantic_errors_view(old(errors)@),
            semantic_errors_view(final(errors)@),
        ),
    decreases e, 1nat,
{
    proof {
        reveal_with_fuel(rules::check_closure, 1);
        reveal_with_fuel(rules::check_expr, 1);
        reveal_with_fuel(rules::check_stmts, 1);
    }
    proof {
        reveal_with_fuel(type_view, 3);
        reveal_with_fuel(expr_view, 2);
        reveal_with_fuel(crate::ast::expr_kind_view, 2);
    }
    match &e.kind {
        ExprKind::Closure(params, ret, body) => {
            let mut inner = env.snapshot();
            inner.enter();
            declare_params(&mut inner, params);
            match body {
                ClosureBody::Expr(b) => {
                    let tb = check_expr(&inner, b, errors);
                    require_if(ret, &tb, b.pos, errors);
                    let result = match ret {
                        Some(t) => clone_type(t),
                        None => tb,
                    };
                    Type::Function(param_types(params), Box::new(result))
                },
                ClosureBody::Block(ss) => {
                    check_stmts(&mut inner, ss, ret, errors);
                    let result = match ret {
                        Some(t) => clone_type(t),
                        None => Type::Unknown,
                    };
                    Type::Function(param_types(params), Box::new(result))
                },
            }
        },
        _ => Type::Unknown,
    }
}

#[verifier::spinoff_prover]
fn check_stmts(
    env: &mut ScopeStack,
    ss: &Vec<Stmt>,
    ret: &Option<Type>,
    errors: &mut Vec<SemanticError>,
)
    requires
        old(env)@.len() > 0,
    ensures
        flows(
            rules::check_stmts(old(env)@, stmts_view(ss@), option_type_view(*ret)),
            final(env)@,
            semantic_errors_view(old(errors)@),
            semantic_errors_view(final(errors)@),
        ),
        final(env)@.len() == old(env)@.len(),
    decreases ss, 0nat,
{
    proof {
        reveal_with_fuel(rules::check_stmts, 1);
        reveal_with_fuel(rules::check_stmt, 1);
    }
    let mut i: usize = 0;
    assert(stmts_view(ss@).take(0) =~= Seq::empty());
    while i < ss.len()
        invariant
            i <= ss.len(),
            env@.len() == old(env)@.len(),
            env@.len() > 0,
            flows(
                rules::check_stmts(
                    old(env)@,
                    stmts_view(ss@).take(i as int),
                    option_type_view(*ret),
                ),
                env@,
                semantic_errors_view(old(errors)@),
                semantic_errors_view(errors@),
            ),
        decreases ss.len() - i,
    {
        proof {
            reveal_with_fuel(rules::check_stmts, 1);
            reveal_with_fuel(rules::check_stmt, 1);
            let next = stmts_view(ss@).take(i + 1);
            assert(next.drop_last() =~= stmts_view(ss@).take(i as int));
            assert(next.last() == stmt_view(ss@[i as int]));
        }
        check_stmt(env, &ss[i], ret, errors);
        i += 1;
    }
    assert(stmts_view(ss@).take(ss.len() as int) =~= stmts_view(ss@));
}

#[verifier::spinoff_prover]
fn check_block(
    env: &mut ScopeStack,
    ss: &Vec<Stmt>,
    ret: &Option<Type>,
    errors: &mut Vec<SemanticError>,
)
    requires
        old(env)@.len() > 0,
    ensures
        flows(
            rules::check_block(old(env)@, stmts_view(ss@), option_type_view(*ret)),
            final(env)@,
            semantic_errors_view(old(errors)@),
            semantic_errors_view(final(errors)@),
        ),
        final(env)@.len() == old(env)@.len(),
    decreases ss, 1nat,
{
    proof {
        reveal_with_fuel(rules::check_block, 1);
        reveal_with_fuel(rules::check_stmts, 1);
    }
    env.enter();
    check_stmts(env, ss, ret, errors);
    env.leave();
}

/// Checks a statement: records the errors in it and lets it act on the
/// scopes.
#[verifier::spinoff_prover]
pub fn check_stmt(
    env: &mut ScopeStack,
    s: &Stmt,
    ret: &Option<Type>,
    errors: &mut Vec<SemanticError>,
)
    requires
        old(env)@.len() > 0,
    ensures
        flows(
            rules::check_stmt(old(env)@, stmt_view(*s), option_type_view(*ret)),
            final(env)@,
            semantic_errors_view(old(errors)@),
            semantic_errors_view(final(errors)@),
        ),
        final(env)@.len() == old(env)@.len(),
    decreases s, 2nat,
{
    proof {
        reveal_with_fuel(rules::check_stmt, 1);
        reveal_with_fuel(rules::check_let, 1);
        reveal_with_fuel(rules::check_assign, 1);
        reveal_with_fuel(rules::check_if, 1);
        reveal_with_fuel(rules::check_expr, 1);
        reveal_with_fuel(rules::check_block, 1);
        reveal_with_fuel(rules::check_for, 1);
    }
    match s {
        Stmt::Let { .. } => check_let(env, s, errors),
        Stmt::Assign { .. } => check_assign(env, s, errors),
        Stmt::If { .. } => check_if(env, s, ret, errors),
        Stmt::While { cond, body } => {
            let c = check_expr(env, cond, errors);
            let wanted = Type::Primitive(Primitive::Bool);
            require(&wanted, &c, cond.pos, errors);
            check_block(env, body, ret, errors);
        },
        Stmt::ForIn { .. } => check_for(env, s, ret, errors),
        Stmt::Loop { body } => check_block(env, body, ret, errors),
        Stmt::Break => {},
        Stmt::Continue => {},
        Stmt::Return(value) => match value {
            Some(e) => {
                let t = check_expr(env, e, errors);
                require_if(ret, &t, e.pos, errors);
            },
            None => {},
        },
        Stmt::Expr(e) => {
            let _t = check_expr(env, e, errors);
        },
    }
}

fn variable(name: &Vec<u8>, ty: Type, mutable: bool, initialized: bool) -> (symbol: Symbol)
    ensures
        symbol@ == rules::variable(name@, type_view(ty), mutable, initialized),
{
    Symbol { name: copy_bytes(name), ty, mutable, initialized, depth: 0, kind: SymbolKind::Variable }
}

#[verifier::spinoff_prover]
fn check_let(env: &mut ScopeStack, s: &Stmt, errors: &mut Vec<SemanticError>)
    requires
        old(env)@.len() > 0,
    ensures
        flows(
            rules::check_let(old(env)@, stmt_view(*s)),
            final(env)@,
            semantic_errors_view(old(errors)@),
            semantic_errors_view(final(errors)@),
        ),
        final(env)@.len() == old(env)@.len(),
    decreases s, 1nat,
{
    proof {
        reveal_with_fuel(rules::check_let, 1);
        reveal_with_fuel(rules::check_expr, 1);
    }
    match s {
        Stmt::Let { name, mutable, declared, init } => match init {
            Some(e) => {
                let t = check_expr(env, e, errors);
                require_if(declared, &t, e.pos, errors);
                let ty = match declared {
                    Some(d) => clone_type(d),
                    None => t,
                };
                env.declare(variable(name, ty, *mutable, true));
            },
            None => {
                let ty = match declared {
                    Some(d) => clone_type(d),
                    None => Type::Unknown,
                };
                env.declare(variable(name, ty, *mutable, false));
            },
        },
        _ => {},
    }
}

/// Records what is wrong with `name` as the target of an assignment.
#[verifier::spinoff_prover]
fn target_errors(
    env: &ScopeStack,
    name: &Vec<u8>,
    op: AssignOp,
    pos: Position,
    errors: &mut Vec<SemanticError>,
)
    ensures
        semantic_errors_view(final(errors)@) =~= semantic_errors_view(old(errors)@)
            + rules::target_errors(env@, name@, op, pos),
{
    match env.resolve(name.as_slice()) {
        None => {
            record(errors, SemanticError::UndefinedIdentifier { name: copy_bytes(name), pos });
        },
        Some(at) => {
            let symbol = env.symbol(at);
            if op != AssignOp::Plain && !symbol.initialized {
                record(errors, SemanticError::UninitializedUse { name: copy_bytes(name), pos });
            }
            if !symbol.mutable {
                record(errors, SemanticError::ImmutableAssignment { name: copy_bytes(name), pos });
            }
        },
    }
}

#[verifier::spinoff_prover]
fn target_type(env: &ScopeStack, name: &Vec<u8>) -> (ty: Type)
    ensures
        type_view(ty) == rules::target_type(env@, name@),
{
    match env.resolve(name.as_slice()) {
        Some(at) => clone_type(&env.symbol(at).ty),
        None => Type::Unknown,
    }
}

/// Lets an assignment of a value of type `found` to `name` act on the
/// scopes.
#[verifier::spinoff_prover]
fn assign(env: &mut ScopeStack, name: &Vec<u8>, found: Type)
    ensures
        final(env)@ == rules::assigned(old(env)@, name@, type_view(found)),
        final(env)@.len() == old(env)@.len(),
{
    match env.resolve(name.as_slice()) {
        Some(at) => {
            let symbol = env.symbol(at);
            if symbol.mutable {
                let ty = if unknown(&symbol.ty) {
                    found
                } else {
                    clone_type(&symbol.ty)
                };
                env.initialize(at, ty);
            }
        },
        None => {},
    }
}

#[verifier::spinoff_prover]
fn check_assign(env: &mut ScopeStack, s: &Stmt, errors: &mut Vec<SemanticError>)
    requires
        old(env)@.len() > 0,
    ensures
        flows(
            rules::check_assign(old(env)@, stmt_view(*s)),
            final(env)@,
            semantic_errors_view(old(errors)@),
            semantic_errors_view(final(errors)@),
        ),
        final(env)@.len() == old(env)@.len(),
    decreases s, 1nat,
{
    proof {
        reveal_with_fuel(rules::check_assign, 1);
        reveal_with_fuel(rules::check_expr, 1);
    }
    match s {
        Stmt::Assign { target, op, value } => {
            assert(expr_view(*target).kind == crate::ast::expr_kind_view(target.kind));
            match &target.kind {
            ExprKind::Identifier(name) => {
                target_errors(env, name, *op, target.pos, errors);
                let v = check_expr(env, value, errors);
                let wanted = target_type(env, name);
                require(&wanted, &v, value.pos, errors);
                assign(env, name, v);
            },
                _ => {
                    let _t = check_expr(env, target, errors);
                    let _v = check_expr(env, value, errors);
                },
            }
        },
        _ => {},
    }
}

#[verifier::spinoff_prover]
fn check_if(env: &mut ScopeStack, s: &Stmt, ret: &Option<Type>, errors: &mut Vec<SemanticError>)
    requires
        old(env)@.len() > 0,
    ensures
        flows(
            rules::check_if(old(env)@, stmt_view(*s), option_type_view(*ret)),
            final(env)@,
            semantic_errors_view(old(errors)@),
            semantic_errors_view(final(errors)@),
        ),
        final(env)@.len() == old(env)@.len(),
    decreases s, 1nat,
{
    proof {
        reveal_with_fuel(rules::check_if, 1);
        reveal_with_fuel(rules::check_expr, 1);
        reveal_with_fuel(rules::check_block, 1);
    }
    match s {
        Stmt::If { cond, then_block, else_block } => {
            let c = check_expr(env, cond, errors);
            let wanted = Type::Primitive(Primitive::Bool);
            require(&wanted, &c, cond.pos, errors);
            check_block(env, then_block, ret, errors);
            match else_block {
                Some(b) => check_block(env, b, ret, errors),
                None => {},
            }
        },
        _ => {},
    }
}

#[verifier::spinoff_prover]
fn check_for(env: &mut ScopeStack, s: &Stmt, ret: &Option<Type>, errors: &mut Vec<SemanticError>)
    requires
        old(env)@.len() > 0,
    ensures
        flows(
            rules::check_for(old(env)@, stmt_view(*s), option_type_view(*ret)),
            final(env)@,
            semantic_errors_view(old(errors)@),
            semantic_errors_view(final(errors)@),
        ),
        final(env)@.len() == old(env)@.len(),
    decreases s, 1nat,
{
    proof {
        reveal_with_fuel(rules::check_for, 1);
        reveal_with_fuel(rules::check_expr, 1);
        reveal_with_fuel(rules::check_stmts, 1);
    }
    match s {
        Stmt::ForIn { var, range, body } => {
            let _r = check_expr(env, range, errors);
            assert(expr_view(*range).kind == crate::ast::expr_kind_view(range.kind));
            let ty = match &range.kind {
                ExprKind::Range(_, _) => Type::Primitive(Primitive::I32),
                _ => Type::Unknown,
            };
            env.enter();
            env.declare(variable(var, ty, false, true));
            check_stmts(env, body, ret, errors);
            env.leave();
        },
        _ => {},
    }
}

fn function_type(f: &Function) -> (ty: Type)
    ensures
        type_view(ty) == rules::function_type(function_view(*f)),
{
    let ret = match &f.sig.ret {
        Some(t) => clone_type(t),
        None => Type::Primitive(Primitive::Unit),
    };
    assert(type_view(ret) == match function_view(*f).sig.ret {
        Some(t) => t,
        None => rules::primitive(Primitive::Unit),
    });
    Type::Function(param_types(&f.sig.params), Box::new(ret))
}

fn global(name: &Vec<u8>, ty: Type, mutable: bool, kind: SymbolKind) -> (symbol: Symbol)
    ensures
        symbol@ == rules::global(name@, type_view(ty), mutable, kind),
{
    Symbol { name: copy_bytes(name), ty, mutable, initialized: true, depth: 0, kind }
}

/// The value of a symbol that may be absent.
pub open spec fn option_symbol_view(s: Option<Symbol>) -> Option<crate::symbols::SymbolView> {
    match s {
        Some(s) => Some(s@),
        None => None,
    }
}

fn item_symbol(item: &Item) -> (symbol: Option<Symbol>)
    ensures
        option_symbol_view(symbol) == rules::item_symbol(item_view(*item)),
{
    match item {
        Item::Const { name, ty, .. } => Some(
            global(name, clone_type(ty), false, SymbolKind::Constant),
        ),
        Item::Static { name, mutable, ty, .. } => Some(
            global(name, clone_type(ty), *mutable, SymbolKind::Static),
        ),
        Item::Struct { name, .. } => Some(
            global(name, Type::Named(copy_bytes(name)), false, SymbolKind::Struct),
        ),
        Item::Enum { name, .. } => Some(
            global(name, Type::Named(copy_bytes(name)), false, SymbolKind::Enum),
        ),
        Item::Function(f) => Some(global(&f.sig.name, function_type(f), false, SymbolKind::Function)),
        _ => None,
    }
}

#[verifier::spinoff_prover]
fn declare_items(env: &mut ScopeStack, items: &Vec<Item>)
    requires
        old(env)@.len() > 0,
    ensures
        final(env)@ == rules::declare_items(old(env)@, items_view(items@)),
        final(env)@.len() == old(env)@.len(),
{
    let mut i: usize = 0;
    assert(items_view(items@).take(0) =~= Seq::empty());
    while i < items.len()
        invariant
            i <= items.len(),
            env@.len() == old(env)@.len(),
            env@.len() > 0,
            env@ == rules::declare_items(old(env)@, items_view(items@).take(i as int)),
        decreases items.len() - i,
    {
        proof {
            let next = items_view(items@).take(i + 1);
            assert(next.drop_last() =~= items_view(items@).take(i as int));
            assert(next.last() == item_view(items@[i as int]));
        }
        match item_symbol(&items[i]) {
            Some(symbol) => env.declare(symbol),
            None => {},
        }
        i += 1;
    }
    assert(items_view(items@).take(items.len() as int) =~= items_view(items@));
}

/// Checks the body of a function in the scopes `env`, which it leaves as
/// they are.
#[verifier::spinoff_prover]
pub fn check_function(env: &ScopeStack, f: &Function, errors: &mut Vec<SemanticError>)
    requires
        env@.len() > 0,
    ensures
        semantic_errors_view(final(errors)@) =~= semantic_errors_view(old(errors)@)
            + rules::check_function(env@, function_view(*f)),
{
    proof {
        reveal_with_fuel(rules::check_block, 1);
    }
    let mut inner = env.snapshot();
    inner.enter();
    declare_params(&mut inner, &f.sig.params);
    let ret: Option<Type> = None;
    check_block(&mut inner, &f.body, &ret, errors);
}

#[verifier::spinoff_prover]
fn check_functions(env: &ScopeStack, fs: &Vec<Function>, errors: &mut Vec<SemanticError>)
    requires
        env@.len() > 0,
    ensures
        semantic_errors_view(final(errors)@) =~= semantic_errors_view(old(errors)@)
            + rules::check_functions(env@, functions_view(fs@)),
{
    let mut i: usize = 0;
    assert(functions_view(fs@).take(0) =~= Seq::empty());
    while i < fs.len()
        invariant
            i <= fs.len(),
            env@.len() > 0,
            semantic_errors_view(errors@) =~= semantic_errors_view(old(errors)@)
                + rules::check_functions(env@, functions_view(fs@).take(i as int)),
        decreases fs.len() - i,
    {
        proof {
            let next = functions_view(fs@).take(i + 1);
            assert(next.drop_last() =~= functions_view(fs@).take(i as int));
            assert(next.last() == function_view(fs@[i as int]));
        }
        check_function(env, &fs[i], errors);
        i += 1;
    }
    assert(functions_view(fs@).take(fs.len() as int) =~= functions_view(fs@));
}

/// Checks a top-level item in the scopes `env`, which it leaves as they are.
#[verifier::spinoff_prover]
pub fn check_item(env: &ScopeStack, item: &Item, errors: &mut Vec<SemanticError>)
    requires
        env@.len() > 0,
    ensures
        semantic_errors_view(final(errors)@) =~= semantic_errors_view(old(errors)@)
            + rules::check_item(env@, item_view(*item)),
{
    proof {
        reveal_with_fuel(rules::check_expr, 1);
    }
    match item {
        Item::Const { ty, value, .. } => {
            let t = check_expr(env, value, errors);
            require(ty, &t, value.pos, errors);
        },
        Item::Static { ty, value, .. } => {
            let t = check_expr(env, value, errors);
            require(ty, &t, value.pos, errors);
        },
        Item::Function(f) => check_function(env, f, errors),
        Item::Impl { methods, .. } => check_functions(env, methods, errors),
        _ => {},
    }
}

#[verifier::spinoff_prover]
fn check_items(env: &ScopeStack, items: &Vec<Item>, errors: &mut Vec<SemanticError>)
    requires
        env@.len() > 0,
    ensures
        semantic_errors_view(final(errors)@) =~= semantic_errors_view(old(errors)@)
            + rules::check_items(env@, items_view(items@)),
{
    let mut i: usize = 0;
    assert(items_view(items@).take(0) =~= Seq::empty());
    while i < items.len()
        invariant
            i <= items.len(),
            env@.len() > 0,
            semantic_errors_view(errors@) =~= semantic_errors_view(old(errors)@)
                + rules::check_items(env@, items_view(items@).take(i as int)),
        decreases items.len() - i,
    {
        proof {
            let next = items_view(items@).take(i + 1);
            assert(next.drop_last() =~= items_view(items@).take(i as int));
            assert(next.last() == item_view(items@[i as int]));
        }
        check_item(env, &items[i], errors);
        i += 1;
    }
    assert(items_view(items@).take(items.len() as int) =~= items_view(items@));
}

/// Checks a program.
///
/// Returns its semantic errors, item by item in source order, and within an
/// item in the order in which the rules meet them. Every top-level name is
/// declared before the first item is checked. The program is only read: a
/// second call on it returns the same errors.
#[verifier::spinoff_prover]
pub fn analyze(program: &Program) -> (errors: Vec<SemanticError>)
    ensures
        semantic_errors_view(errors@) == rules::analysis(program@),
{
    let mut env = ScopeStack::new();
    declare_items(&mut env, &program.items);
    let mut errors: Vec<SemanticError> = Vec::new();
    assert(semantic_errors_view(errors@) =~= Seq::empty());
    check_items(&env, &program.items, &mut errors);
    assert(semantic_errors_view(errors@) =~= rules::analysis(program@));
    errors
}

} // verus!
