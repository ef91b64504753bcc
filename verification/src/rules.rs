//! The semantic rules, as functions from a tree and the open scopes to a
//! type, the scopes afterwards, and the errors found.
//!
//! An expression has a type and leaves the scopes as they are; a statement
//! may declare a name or initialize one. After an error the checker goes on
//! with the type `Unknown`, which agrees with every type, so that one fault
//! is reported once.

use vstd::prelude::*;
use crate::ast::{
    AssignOp, BinaryOp, ClosureBodyView, ExprKindView, ExprView, FieldInitView, FunctionView,
    ItemView, ParamView, ProgramView, StmtView, UnaryOp,
};
use crate::diagnostics::SemanticErrorView;
use crate::grammar::named_type;
use crate::symbols::{declare, enter, initialize, leave, lookup, resolve, Env, SymbolKind, SymbolView};
use crate::text::{all_digits, decimal_value};
use crate::token::Position;
use crate::types::{compatible, is_numeric, is_unknown, Primitive, TypeView};

verus! {

/// The type of an expression and the errors found in it.
pub struct Typed {
    pub ty: TypeView,
    pub errors: Seq<SemanticErrorView>,
}

/// The types of a row of expressions and the errors found in them.
pub struct TypedRow {
    pub types: Seq<TypeView>,
    pub errors: Seq<SemanticErrorView>,
}

/// The scopes after a statement and the errors found in it.
pub struct Flow {
    pub env: Env,
    pub errors: Seq<SemanticErrorView>,
}

/// The built-in type `p`.
pub open spec fn primitive(p: Primitive) -> TypeView {
    TypeView::Primitive(p)
}

/// An expression of type `ty` without fault.
pub open spec fn sound(ty: TypeView) -> Typed {
    Typed { ty, errors: Seq::empty() }
}

/// The error of meeting the type `found` where `expected` is required.
pub open spec fn mismatch(expected: TypeView, found: TypeView, pos: Position) -> SemanticErrorView {
    SemanticErrorView::TypeMismatch { expected, found, pos }
}

/// The error of meeting the type `found` where `expected` is required, if
/// the two do not agree.
pub open spec fn require(expected: TypeView, found: TypeView, pos: Position) -> Seq<
    SemanticErrorView,
> {
    if compatible(expected, found) {
        Seq::empty()
    } else {
        seq![mismatch(expected, found, pos)]
    }
}

/// As [`require`], where a type may or may not be required.
pub open spec fn require_if(expected: Option<TypeView>, found: TypeView, pos: Position) -> Seq<
    SemanticErrorView,
> {
    match expected {
        Some(t) => require(t, found, pos),
        None => Seq::empty(),
    }
}

/// Whether `op` is one of `+ - * / %`.
pub open spec fn is_arithmetic(op: BinaryOp) -> bool {
    op == BinaryOp::Add || op == BinaryOp::Sub || op == BinaryOp::Mul || op == BinaryOp::Div || op
        == BinaryOp::Rem
}

/// Whether `op` is `&&` or `||`.
pub open spec fn is_logical(op: BinaryOp) -> bool {
    op == BinaryOp::And || op == BinaryOp::Or
}

/// The numeric type nearest to `t`: `t` itself if it is numeric, `i32`
/// otherwise.
pub open spec fn numeric_like(t: TypeView) -> TypeView {
    if is_numeric(t) {
        t
    } else {
        primitive(Primitive::I32)
    }
}

/// The type of `l op r` for operands of types `tl` and `tr`, and the errors
/// of the operator itself. Arithmetic asks for two operands of one numeric
/// type and gives that type: a left operand that is not numeric is at fault,
/// else a right operand that does not agree with the left. A comparison asks
/// for two operands that agree and gives `bool`; `&&` and `||` ask for two
/// `bool` and give `bool`.
pub open spec fn binary_result(
    op: BinaryOp,
    tl: TypeView,
    tr: TypeView,
    lp: Position,
    rp: Position,
) -> Typed {
    if is_arithmetic(op) {
        let left = require(numeric_like(tl), tl, lp);
        let right = if left.len() == 0 {
            require(
                if is_numeric(tl) {
                    tl
                } else {
                    numeric_like(tr)
                },
                tr,
                rp,
            )
        } else {
            Seq::empty()
        };
        let ty = if left.len() > 0 || right.len() > 0 {
            TypeView::Unknown
        } else if is_numeric(tl) {
            tl
        } else if is_numeric(tr) {
            tr
        } else {
            TypeView::Unknown
        };
        Typed { ty, errors: left + right }
    } else if is_logical(op) {
        Typed {
            ty: primitive(Primitive::Bool),
            errors: require(primitive(Primitive::Bool), tl, lp) + require(
                primitive(Primitive::Bool),
                tr,
                rp,
            ),
        }
    } else {
        Typed { ty: primitive(Primitive::Bool), errors: require(tl, tr, rp) }
    }
}

/// The type of `op e` for an operand of type `t`, and the errors of the
/// operator itself.
pub open spec fn unary_result(op: UnaryOp, t: TypeView, pos: Position) -> Typed {
    match op {
        UnaryOp::Neg => {
            let errors = require(numeric_like(t), t, pos);
            Typed {
                ty: if errors.len() > 0 {
                    TypeView::Unknown
                } else {
                    t
                },
                errors,
            }
        },
        UnaryOp::Not => Typed {
            ty: primitive(Primitive::Bool),
            errors: require(primitive(Primitive::Bool), t, pos),
        },
    }
}

/// A name used as a value: it must be declared in an open scope, and
/// something must have been assigned to it.
pub open spec fn check_name(env: Env, name: Seq<u8>, pos: Position) -> Typed {
    match lookup(env, name) {
        None => Typed {
            ty: TypeView::Unknown,
            errors: seq![SemanticErrorView::UndefinedIdentifier { name, pos }],
        },
        Some(symbol) => if symbol.initialized {
            sound(symbol.ty)
        } else {
            Typed { ty: symbol.ty, errors: seq![SemanticErrorView::UninitializedUse { name, pos }] }
        },
    }
}

/// A path `a::b`: `a` must be declared or name a built-in type. A path into
/// an enum has that enum as its type.
pub open spec fn check_path(env: Env, segments: Seq<Seq<u8>>, pos: Position) -> Typed {
    if segments.len() == 0 {
        sound(TypeView::Unknown)
    } else {
        match lookup(env, segments[0]) {
            Some(symbol) => if symbol.kind == SymbolKind::Enum {
                sound(TypeView::Named(segments[0]))
            } else {
                sound(TypeView::Unknown)
            },
            None => if named_type(segments[0]) is Primitive {
                sound(TypeView::Unknown)
            } else {
                Typed {
                    ty: TypeView::Unknown,
                    errors: seq![SemanticErrorView::UndefinedIdentifier { name: segments[0], pos }],
                }
            },
        }
    }
}

/// The name of the type of a range: `Range`.
pub open spec fn text_range() -> Seq<u8> {
    seq!['R' as u8, 'a' as u8, 'n' as u8, 'g' as u8, 'e' as u8]
}

/// The type that a parameter has: the one written, or `Unknown`.
pub open spec fn param_type(p: ParamView) -> TypeView {
    match p.ty {
        Some(t) => t,
        None => TypeView::Unknown,
    }
}

/// The types of a row of parameters, in order.
pub open spec fn param_types(params: Seq<ParamView>) -> Seq<TypeView> {
    Seq::new(params.len(), |i: int| param_type(params[i]))
}

/// The symbol that a parameter declares: initialized and not mutable.
pub open spec fn param_symbol(p: ParamView) -> SymbolView {
    SymbolView {
        name: p.name,
        ty: param_type(p),
        mutable: false,
        initialized: true,
        depth: 0,
        kind: SymbolKind::Parameter,
    }
}

/// `env` with the parameters declared in its innermost scope, in order.
pub open spec fn declare_params(env: Env, params: Seq<ParamView>) -> Env
    decreases params.len(),
{
    if params.len() == 0 {
        env
    } else {
        declare(declare_params(env, params.drop_last()), param_symbol(params.last()))
    }
}

/// The errors of elements of an array that do not agree with its first
/// element, among the first `upto` elements.
pub open spec fn element_mismatches(types: Seq<TypeView>, es: Seq<ExprView>, upto: nat) -> Seq<
    SemanticErrorView,
>
    decreases upto,
{
    if upto <= 1 || upto > types.len() || upto > es.len() {
        Seq::empty()
    } else {
        element_mismatches(types, es, (upto - 1) as nat) + require(
            types[0],
            types[upto - 1],
            es[upto - 1].pos,
        )
    }
}

/// Whether `e` is the name of a constant.
pub open spec fn is_constant_name(env: Env, e: ExprView) -> bool {
    match e.kind {
        ExprKindView::Identifier(name) => match lookup(env, name) {
            Some(symbol) => symbol.kind == SymbolKind::Constant,
            None => false,
        },
        _ => false,
    }
}

/// The type of an expression and the errors in it.
#[verifier::opaque]
pub open spec fn check_expr(env: Env, e: ExprView) -> Typed
    decreases e, 2nat,
{
    match e.kind {
        ExprKindView::IntLit(_) => sound(primitive(Primitive::I32)),
        ExprKindView::FloatLit(_) => sound(primitive(Primitive::F64)),
        ExprKindView::BoolLit(_) => sound(primitive(Primitive::Bool)),
        ExprKindView::CharLit(_) => sound(primitive(Primitive::Char)),
        ExprKindView::StringLit(_) => sound(primitive(Primitive::StrRef)),
        ExprKindView::Identifier(name) => check_name(env, name, e.pos),
        ExprKindView::Path(segments) => check_path(env, segments, e.pos),
        ExprKindView::Binary(_, _, _) => check_binary(env, e),
        ExprKindView::Unary(op, operand) => {
            let t = check_expr(env, *operand);
            let own = unary_result(op, t.ty, operand.pos);
            Typed { ty: own.ty, errors: t.errors + own.errors }
        },
        ExprKindView::Call(_, _) => check_call(env, e),
        ExprKindView::MacroCall(_, args) => Typed {
            ty: primitive(Primitive::Unit),
            errors: check_exprs(env, args).errors,
        },
        ExprKindView::FieldAccess(base, _) => Typed {
            ty: TypeView::Unknown,
            errors: check_expr(env, *base).errors,
        },
        ExprKindView::StructInit(_, _) => check_struct_init(env, e),
        ExprKindView::ArrayLit(_) => check_array(env, e),
        ExprKindView::ArrayRepeat(_, _) => check_repeat(env, e),
        ExprKindView::TupleLit(es) => {
            let row = check_exprs(env, es);
            Typed {
                ty: if es.len() == 0 {
                    primitive(Primitive::Unit)
                } else {
                    TypeView::Tuple(row.types)
                },
                errors: row.errors,
            }
        },
        ExprKindView::Closure(_, _, _) => check_closure(env, e),
        ExprKindView::Reference(mutable, target) => {
            let t = check_expr(env, *target);
            Typed {
                ty: if is_unknown(t.ty) {
                    TypeView::Unknown
                } else {
                    TypeView::Reference(mutable, Box::new(t.ty))
                },
                errors: t.errors,
            }
        },
        ExprKindView::Range(_, _) => check_range(env, e),
    }
}

/// The types of a row of expressions, each checked in `env`, and their
/// errors in order.
#[verifier::opaque]
pub open spec fn check_exprs(env: Env, es: Seq<ExprView>) -> TypedRow
    decreases es, 0nat,
{
    if es.len() == 0 {
        TypedRow { types: Seq::empty(), errors: Seq::empty() }
    } else {
        let init = check_exprs(env, es.drop_last());
        let last = check_expr(env, es.last());
        TypedRow { types: init.types.push(last.ty), errors: init.errors + last.errors }
    }
}

/// The errors in the values of the fields of a struct literal, in order.
#[verifier::opaque]
pub open spec fn check_field_inits(env: Env, fields: Seq<FieldInitView>) -> Seq<SemanticErrorView>
    decreases fields, 0nat,
{
    if fields.len() == 0 {
        Seq::empty()
    } else {
        check_field_inits(env, fields.drop_last()) + check_expr(env, fields.last().value).errors
    }
}

/// `l op r`: the errors of the left operand, of the right operand, and of
/// the operator, in that order.
#[verifier::opaque]
pub open spec fn check_binary(env: Env, e: ExprView) -> Typed
    decreases e, 1nat,
{
    match e.kind {
        ExprKindView::Binary(op, l, r) => {
            let tl = check_expr(env, *l);
            let tr = check_expr(env, *r);
            let own = binary_result(op, tl.ty, tr.ty, l.pos, r.pos);
            Typed { ty: own.ty, errors: tl.errors + tr.errors + own.errors }
        },
        _ => sound(TypeView::Unknown),
    }
}

/// `f(args)`: what `f` returns where `f` has a function type, `Unknown`
/// otherwise.
#[verifier::opaque]
pub open spec fn check_call(env: Env, e: ExprView) -> Typed
    decreases e, 1nat,
{
    match e.kind {
        ExprKindView::Call(f, args) => {
            let tf = check_expr(env, *f);
            let row = check_exprs(env, args);
            Typed {
                ty: match tf.ty {
                    TypeView::Function(_, ret) => *ret,
                    _ => TypeView::Unknown,
                },
                errors: tf.errors + row.errors,
            }
        },
        _ => sound(TypeView::Unknown),
    }
}

/// `Name { fields }`: the name must be declared; the type is the name.
#[verifier::opaque]
pub open spec fn check_struct_init(env: Env, e: ExprView) -> Typed
    decreases e, 1nat,
{
    match e.kind {
        ExprKindView::StructInit(name, fields) => {
            let inner = check_field_inits(env, fields);
            match lookup(env, name) {
                Some(_) => Typed { ty: TypeView::Named(name), errors: inner },
                None => Typed {
                    ty: TypeView::Unknown,
                    errors: seq![SemanticErrorView::UndefinedIdentifier { name, pos: e.pos }]
                        + inner,
                },
            }
        },
        _ => sound(TypeView::Unknown),
    }
}

/// `[e1, e2, ...]`: every element must agree with the first; the type is
/// the array of the first element's type and the number of elements.
#[verifier::opaque]
pub open spec fn check_array(env: Env, e: ExprView) -> Typed
    decreases e, 1nat,
{
    match e.kind {
        ExprKindView::ArrayLit(es) => {
            let row = check_exprs(env, es);
            let element = if es.len() == 0 {
                TypeView::Unknown
            } else {
                row.types[0]
            };
            Typed {
                ty: TypeView::Array(Box::new(element), es.len() as u64),
                errors: row.errors + element_mismatches(row.types, es, es.len()),
            }
        },
        _ => sound(TypeView::Unknown),
    }
}

/// `[value; size]`: the size must be an integer literal that fits in 64
/// bits, which gives the array its size, or the name of a constant of type
/// `i32`, which leaves the type unknown.
#[verifier::opaque]
pub open spec fn check_repeat(env: Env, e: ExprView) -> Typed
    decreases e, 1nat,
{
    match e.kind {
        ExprKindView::ArrayRepeat(value, size) => {
            let tv = check_expr(env, *value);
            let bad = seq![SemanticErrorView::InvalidArraySize { pos: size.pos }];
            match size.kind {
                ExprKindView::IntLit(digits) => {
                    if all_digits(digits) && decimal_value(digits) <= u64::MAX {
                        Typed {
                            ty: TypeView::Array(Box::new(tv.ty), decimal_value(digits) as u64),
                            errors: tv.errors,
                        }
                    } else {
                        Typed { ty: TypeView::Unknown, errors: tv.errors + bad }
                    }
                },
                _ => {
                    let ts = check_expr(env, *size);
                    if is_constant_name(env, *size) && compatible(
                        primitive(Primitive::I32),
                        ts.ty,
                    ) {
                        Typed { ty: TypeView::Unknown, errors: tv.errors + ts.errors }
                    } else {
                        Typed { ty: TypeView::Unknown, errors: tv.errors + ts.errors + bad }
                    }
                },
            }
        },
        _ => sound(TypeView::Unknown),
    }
}

/// `a..b`: both ends must be `i32`.
#[verifier::opaque]
pub open spec fn check_range(env: Env, e: ExprView) -> Typed
    decreases e, 1nat,
{
    match e.kind {
        ExprKindView::Range(a, b) => {
            let ta = check_expr(env, *a);
            let tb = check_expr(env, *b);
            Typed {
                ty: TypeView::Named(text_range()),
                errors: ta.errors + tb.errors + require(primitive(Primitive::I32), ta.ty, a.pos)
                    + require(primitive(Primitive::I32), tb.ty, b.pos),
            }
        },
        _ => sound(TypeView::Unknown),
    }
}

/// A closure: its body is checked in a scope of its own, inside the scopes
/// open where the closure is written, with its parameters declared. What the
/// body does to the scopes is forgotten. Where a return type is written, the
/// body, or each `return` in it, must agree with it.
#[verifier::opaque]
pub open spec fn check_closure(env: Env, e: ExprView) -> Typed
    decreases e, 1nat,
{
    match e.kind {
        ExprKindView::Closure(params, ret, body) => {
            let inner = declare_params(enter(env), params);
            match body {
                ClosureBodyView::Expr(b) => {
                    let tb = check_expr(inner, *b);
                    Typed {
                        ty: TypeView::Function(
                            param_types(params),
                            Box::new(
                                match ret {
                                    Some(t) => t,
                                    None => tb.ty,
                                },
                            ),
                        ),
                        errors: tb.errors + require_if(ret, tb.ty, b.pos),
                    }
                },
                ClosureBodyView::Block(ss) => Typed {
                    ty: TypeView::Function(
                        param_types(params),
                        Box::new(
                            match ret {
                                Some(t) => t,
                                None => TypeView::Unknown,
                            },
                        ),
                    ),
                    errors: check_stmts(inner, ss, ret).errors,
                },
            }
        },
        _ => sound(TypeView::Unknown),
    }
}

/// The statements of a row, one after the other: each is checked in the
/// scopes that the one before it left.
#[verifier::opaque]
pub open spec fn check_stmts(env: Env, ss: Seq<StmtView>, ret: Option<TypeView>) -> Flow
    decreases ss, 0nat,
{
    if ss.len() == 0 {
        Flow { env, errors: Seq::empty() }
    } else {
        let init = check_stmts(env, ss.drop_last(), ret);
        let last = check_stmt(init.env, ss.last(), ret);
        Flow { env: last.env, errors: init.errors + last.errors }
    }
}

/// A block: its statements are checked in a scope of their own, which is
/// closed behind them, so that nothing declared in the block can be found
/// after it.
#[verifier::opaque]
pub open spec fn check_block(env: Env, ss: Seq<StmtView>, ret: Option<TypeView>) -> Flow
    decreases ss, 1nat,
{
    let inner = check_stmts(enter(env), ss, ret);
    Flow { env: leave(inner.env), errors: inner.errors }
}

/// A statement. `ret` is the type that a `return` must agree with, where
/// one was written.
#[verifier::opaque]
pub open spec fn check_stmt(env: Env, s: StmtView, ret: Option<TypeView>) -> Flow
    decreases s, 2nat,
{
    match s {
        StmtView::Let { name, mutable, declared, init } => check_let(env, s),
        StmtView::Assign { target, op, value } => check_assign(env, s),
        StmtView::If { cond, then_block, else_block } => check_if(env, s, ret),
        StmtView::While { cond, body } => {
            let c = check_expr(env, cond);
            let b = check_block(env, body, ret);
            Flow {
                env: b.env,
                errors: c.errors + require(primitive(Primitive::Bool), c.ty, cond.pos) + b.errors,
            }
        },
        StmtView::ForIn { var, range, body } => check_for(env, s, ret),
        StmtView::Loop { body } => check_block(env, body, ret),
        StmtView::Break => Flow { env, errors: Seq::empty() },
        StmtView::Continue => Flow { env, errors: Seq::empty() },
        StmtView::Return(value) => match value {
            Some(e) => {
                let t = check_expr(env, e);
                Flow { env, errors: t.errors + require_if(ret, t.ty, e.pos) }
            },
            None => Flow { env, errors: Seq::empty() },
        },
        StmtView::Expr(e) => Flow { env, errors: check_expr(env, e).errors },
    }
}

/// The symbol that a `let` or a `for` declares.
pub open spec fn variable(name: Seq<u8>, ty: TypeView, mutable: bool, initialized: bool) -> SymbolView {
    SymbolView { name, ty, mutable, initialized, depth: 0, kind: SymbolKind::Variable }
}

/// `let`: the initializer is checked before the name is declared; where a
/// type is written the initializer must agree with it, and the name has that
/// type; without initializer the name is declared uninitialized.
#[verifier::opaque]
pub open spec fn check_let(env: Env, s: StmtView) -> Flow
    decreases s, 1nat,
{
    match s {
        StmtView::Let { name, mutable, declared, init } => match init {
            Some(e) => {
                let t = check_expr(env, e);
                let ty = match declared {
                    Some(d) => d,
                    None => t.ty,
                };
                Flow {
                    env: declare(env, variable(name, ty, mutable, true)),
                    errors: t.errors + require_if(declared, t.ty, e.pos),
                }
            },
            None => {
                let ty = match declared {
                    Some(d) => d,
                    None => TypeView::Unknown,
                };
                Flow { env: declare(env, variable(name, ty, mutable, false)), errors: Seq::empty() }
            },
        },
        _ => Flow { env, errors: Seq::empty() },
    }
}

/// What assigning a value of type `found` with `op` to the name `name`
/// reports about the name itself, in order: that it is not declared; or that
/// it is read by a compound assignment before anything was assigned to it,
/// and that it is not mutable.
pub open spec fn target_errors(env: Env, name: Seq<u8>, op: AssignOp, pos: Position) -> Seq<
    SemanticErrorView,
> {
    match lookup(env, name) {
        None => seq![SemanticErrorView::UndefinedIdentifier { name, pos }],
        Some(symbol) => {
            let unread = if op != AssignOp::Plain && !symbol.initialized {
                seq![SemanticErrorView::UninitializedUse { name, pos }]
            } else {
                Seq::empty()
            };
            let fixed = if !symbol.mutable {
                seq![SemanticErrorView::ImmutableAssignment { name, pos }]
            } else {
                Seq::empty()
            };
            unread + fixed
        },
    }
}

/// The scopes after a value of type `found` was assigned to `name`: a
/// mutable name is initialized from then on, and takes the type of the value
/// if it had none.
pub open spec fn assigned(env: Env, name: Seq<u8>, found: TypeView) -> Env {
    match resolve(env, name) {
        Some(at) => {
            let symbol = env[at.0 as int][at.1 as int];
            if symbol.mutable {
                initialize(
                    env,
                    at,
                    if is_unknown(symbol.ty) {
                        found
                    } else {
                        symbol.ty
                    },
                )
            } else {
                env
            }
        },
        None => env,
    }
}

/// The type that a value assigned to `name` must agree with.
pub open spec fn target_type(env: Env, name: Seq<u8>) -> TypeView {
    match lookup(env, name) {
        Some(symbol) => symbol.ty,
        None => TypeView::Unknown,
    }
}

/// An assignment: the errors about the target, those in the value, and a
/// mismatch between the two, in that order.
#[verifier::opaque]
pub open spec fn check_assign(env: Env, s: StmtView) -> Flow
    decreases s, 1nat,
{
    match s {
        StmtView::Assign { target, op, value } => {
            let v = check_expr(env, value);
            match target.kind {
                ExprKindView::Identifier(name) => Flow {
                    env: assigned(env, name, v.ty),
                    errors: target_errors(env, name, op, target.pos) + v.errors + require(
                        target_type(env, name),
                        v.ty,
                        value.pos,
                    ),
                },
                _ => Flow { env, errors: check_expr(env, target).errors + v.errors },
            }
        },
        _ => Flow { env, errors: Seq::empty() },
    }
}

/// `if`: the condition must be `bool`; each branch is a block.
#[verifier::opaque]
pub open spec fn check_if(env: Env, s: StmtView, ret: Option<TypeView>) -> Flow
    decreases s, 1nat,
{
    match s {
        StmtView::If { cond, then_block, else_block } => {
            let c = check_expr(env, cond);
            let t = check_block(env, then_block, ret);
            let e = match else_block {
                Some(b) => check_block(t.env, b, ret),
                None => Flow { env: t.env, errors: Seq::empty() },
            };
            Flow {
                env: e.env,
                errors: c.errors + require(primitive(Primitive::Bool), c.ty, cond.pos) + t.errors
                    + e.errors,
            }
        },
        _ => Flow { env, errors: Seq::empty() },
    }
}

/// `for`: the loop variable is declared in the scope of the body, an `i32`
/// where the loop runs over a range.
#[verifier::opaque]
pub open spec fn check_for(env: Env, s: StmtView, ret: Option<TypeView>) -> Flow
    decreases s, 1nat,
{
    match s {
        StmtView::ForIn { var, range, body } => {
            let r = check_expr(env, range);
            let ty = if range.kind is Range {
                primitive(Primitive::I32)
            } else {
                TypeView::Unknown
            };
            let inner = declare(enter(env), variable(var, ty, false, true));
            let b = check_stmts(inner, body, ret);
            Flow { env: leave(b.env), errors: r.errors + b.errors }
        },
        _ => Flow { env, errors: Seq::empty() },
    }
}

/// The type of a function: its parameter types, and what it returns, the
/// unit type where nothing is written.
pub open spec fn function_type(f: FunctionView) -> TypeView {
    TypeView::Function(
        param_types(f.sig.params),
        Box::new(
            match f.sig.ret {
                Some(t) => t,
                None => primitive(Primitive::Unit),
            },
        ),
    )
}

/// The symbol that a top-level item declares: initialized from the start.
pub open spec fn global(
    name: Seq<u8>,
    ty: TypeView,
    mutable: bool,
    kind: SymbolKind,
) -> SymbolView {
    SymbolView { name, ty, mutable, initialized: true, depth: 0, kind }
}

/// The symbol that a top-level item declares, if it declares one.
pub open spec fn item_symbol(item: ItemView) -> Option<SymbolView> {
    match item {
        ItemView::Const { name, ty, value } => Some(global(name, ty, false, SymbolKind::Constant)),
        ItemView::Static { name, mutable, ty, value } => Some(
            global(name, ty, mutable, SymbolKind::Static),
        ),
        ItemView::Struct { name, fields } => Some(
            global(name, TypeView::Named(name), false, SymbolKind::Struct),
        ),
        ItemView::Enum { name, variants } => Some(
            global(name, TypeView::Named(name), false, SymbolKind::Enum),
        ),
        ItemView::Function(f) => Some(
            global(f.sig.name, function_type(f), false, SymbolKind::Function),
        ),
        _ => None,
    }
}

/// `env` with the names of the items declared in its innermost scope, in
/// order.
pub open spec fn declare_items(env: Env, items: Seq<ItemView>) -> Env
    decreases items.len(),
{
    if items.len() == 0 {
        env
    } else {
        let before = declare_items(env, items.drop_last());
        match item_symbol(items.last()) {
            Some(symbol) => declare(before, symbol),
            None => before,
        }
    }
}

/// A function: its body is a block inside a scope that holds its
/// parameters. What it returns is not held against its body.
pub open spec fn check_function(env: Env, f: FunctionView) -> Seq<SemanticErrorView> {
    check_block(declare_params(enter(env), f.sig.params), f.body, None).errors
}

/// The errors of a row of functions, in order.
pub open spec fn check_functions(env: Env, fs: Seq<FunctionView>) -> Seq<SemanticErrorView>
    decreases fs.len(),
{
    if fs.len() == 0 {
        Seq::empty()
    } else {
        check_functions(env, fs.drop_last()) + check_function(env, fs.last())
    }
}

/// An item: the value of a constant or a static must agree with its type;
/// functions and methods are checked as functions.
pub open spec fn check_item(env: Env, item: ItemView) -> Seq<SemanticErrorView> {
    match item {
        ItemView::Const { name, ty, value } => {
            let t = check_expr(env, value);
            t.errors + require(ty, t.ty, value.pos)
        },
        ItemView::Static { name, mutable, ty, value } => {
            let t = check_expr(env, value);
            t.errors + require(ty, t.ty, value.pos)
        },
        ItemView::Function(f) => check_function(env, f),
        ItemView::Impl { target, trait_name, methods } => check_functions(env, methods),
        _ => Seq::empty(),
    }
}

/// The errors of a row of items, each checked in `env`, in order.
pub open spec fn check_items(env: Env, items: Seq<ItemView>) -> Seq<SemanticErrorView>
    decreases items.len(),
{
    if items.len() == 0 {
        Seq::empty()
    } else {
        check_items(env, items.drop_last()) + check_item(env, items.last())
    }
}

/// The scopes in which the items of a program are checked: one scope, with
/// every top-level name declared, so that an item may use a name that is
/// declared after it.
pub open spec fn globals(program: ProgramView) -> Env {
    declare_items(seq![Seq::<SymbolView>::empty()], program.items)
}

/// The semantic errors of a program, item by item in source order.
pub open spec fn analysis(program: ProgramView) -> Seq<SemanticErrorView> {
    check_items(globals(program), program.items)
}

} // verus!
