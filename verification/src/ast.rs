//! The syntax tree: what the parser builds and the checker walks.
//!
//! Each tree type comes with its mathematical value, a type of the same
//! shape whose lists are sequences: the contracts speak of those values.

use vstd::prelude::*;
use crate::token::{Macro, Position};
use crate::types::{option_type_view, type_view, Type, TypeView};

verus! {

/// The binary operators, from `||` to `%`.
#[derive(Clone, Copy, Debug, PartialEq, Eq, Structural)]
pub enum BinaryOp {
    Or,
    And,
    Eq,
    NotEq,
    Less,
    LessEq,
    Greater,
    GreaterEq,
    Add,
    Sub,
    Mul,
    Div,
    Rem,
}

/// The unary operators: `-` and `!`.
#[derive(Clone, Copy, Debug, PartialEq, Eq, Structural)]
pub enum UnaryOp {
    Neg,
    Not,
}

/// The assignment operators: `=`, `+=`, `-=`, `*=` and `/=`.
#[derive(Clone, Copy, Debug, PartialEq, Eq, Structural)]
pub enum AssignOp {
    Plain,
    Add,
    Sub,
    Mul,
    Div,
}

/// A parameter of a function or a closure. A closure may leave the type out.
#[derive(Debug, PartialEq, Eq)]
pub struct Param {
    pub name: Vec<u8>,
    pub ty: Option<Type>,
}

/// One `name: value` of a struct literal.
#[derive(Debug, PartialEq, Eq)]
pub struct FieldInit {
    pub name: Vec<u8>,
    pub value: Expr,
}

/// What a closure computes: one expression, or a block.
#[derive(Debug, PartialEq, Eq)]
pub enum ClosureBody {
    Expr(Box<Expr>),
    Block(Vec<Stmt>),
}

/// An expression and the place of its first token.
#[derive(Debug, PartialEq, Eq)]
pub struct Expr {
    pub kind: ExprKind,
    pub pos: Position,
}

/// What an expression is.
#[derive(Debug, PartialEq, Eq)]
pub enum ExprKind {
    /// The digits of an integer literal.
    IntLit(Vec<u8>),
    /// The text of a floating-point literal.
    FloatLit(Vec<u8>),
    BoolLit(bool),
    /// The text of a character literal, quotes included.
    CharLit(Vec<u8>),
    /// The text of a string literal, quotes included.
    StringLit(Vec<u8>),
    Identifier(Vec<u8>),
    /// `a::b`, with two segments or more.
    Path(Vec<Vec<u8>>),
    Binary(BinaryOp, Box<Expr>, Box<Expr>),
    Unary(UnaryOp, Box<Expr>),
    Call(Box<Expr>, Vec<Expr>),
    /// A call of one of the print macros.
    MacroCall(Macro, Vec<Expr>),
    FieldAccess(Box<Expr>, Vec<u8>),
    StructInit(Vec<u8>, Vec<FieldInit>),
    ArrayLit(Vec<Expr>),
    /// `[value; size]`.
    ArrayRepeat(Box<Expr>, Box<Expr>),
    TupleLit(Vec<Expr>),
    Closure(Vec<Param>, Option<Type>, ClosureBody),
    Reference(bool, Box<Expr>),
    /// `start..end`, the end left out of the range.
    Range(Box<Expr>, Box<Expr>),
}

/// A statement.
#[derive(Debug, PartialEq, Eq)]
#[allow(inconsistent_fields)]
pub enum Stmt {
    Let { name: Vec<u8>, mutable: bool, declared: Option<Type>, init: Option<Expr> },
    Assign { target: Expr, op: AssignOp, value: Expr },
    If { cond: Expr, then_block: Vec<Stmt>, else_block: Option<Vec<Stmt>> },
    While { cond: Expr, body: Vec<Stmt> },
    ForIn { var: Vec<u8>, range: Expr, body: Vec<Stmt> },
    Loop { body: Vec<Stmt> },
    Break,
    Continue,
    Return(Option<Expr>),
    Expr(Expr),
}

/// A field of a struct declaration.
#[derive(Debug, PartialEq, Eq)]
pub struct Field {
    pub name: Vec<u8>,
    pub ty: Type,
}

/// The head of a function: its name, its parameters and what it returns.
/// A receiver is a parameter named `self`.
#[derive(Debug, PartialEq, Eq)]
pub struct Signature {
    pub name: Vec<u8>,
    pub params: Vec<Param>,
    pub ret: Option<Type>,
}

/// A function: its head and its body.
#[derive(Debug, PartialEq, Eq)]
pub struct Function {
    pub sig: Signature,
    pub body: Vec<Stmt>,
}

/// A top-level item.
#[derive(Debug, PartialEq, Eq)]
#[allow(inconsistent_fields)]
pub enum Item {
    Const { name: Vec<u8>, ty: Type, value: Expr },
    Static { name: Vec<u8>, mutable: bool, ty: Type, value: Expr },
    Struct { name: Vec<u8>, fields: Vec<Field> },
    Enum { name: Vec<u8>, variants: Vec<Vec<u8>> },
    Trait { name: Vec<u8>, methods: Vec<Signature> },
    Impl { target: Vec<u8>, trait_name: Option<Vec<u8>>, methods: Vec<Function> },
    Function(Function),
}

/// A program: its top-level items, in source order.
#[derive(Debug, PartialEq, Eq)]
pub struct Program {
    pub items: Vec<Item>,
}

/// The mathematical value of [`Param`].
pub struct ParamView {
    pub name: Seq<u8>,
    pub ty: Option<TypeView>,
}

/// The mathematical value of [`FieldInit`].
pub struct FieldInitView {
    pub name: Seq<u8>,
    pub value: ExprView,
}

/// The mathematical value of [`ClosureBody`].
pub enum ClosureBodyView {
    Expr(Box<ExprView>),
    Block(Seq<StmtView>),
}

/// The mathematical value of [`Expr`].
pub struct ExprView {
    pub kind: ExprKindView,
    pub pos: Position,
}

/// The mathematical value of [`ExprKind`].
pub enum ExprKindView {
    IntLit(Seq<u8>),
    FloatLit(Seq<u8>),
    BoolLit(bool),
    CharLit(Seq<u8>),
    StringLit(Seq<u8>),
    Identifier(Seq<u8>),
    Path(Seq<Seq<u8>>),
    Binary(BinaryOp, Box<ExprView>, Box<ExprView>),
    Unary(UnaryOp, Box<ExprView>),
    Call(Box<ExprView>, Seq<ExprView>),
    MacroCall(Macro, Seq<ExprView>),
    FieldAccess(Box<ExprView>, Seq<u8>),
    StructInit(Seq<u8>, Seq<FieldInitView>),
    ArrayLit(Seq<ExprView>),
    ArrayRepeat(Box<ExprView>, Box<ExprView>),
    TupleLit(Seq<ExprView>),
    Closure(Seq<ParamView>, Option<TypeView>, ClosureBodyView),
    Reference(bool, Box<ExprView>),
    Range(Box<ExprView>, Box<ExprView>),
}

/// The mathematical value of [`Stmt`].
#[allow(inconsistent_fields)]
pub enum StmtView {
    Let { name: Seq<u8>, mutable: bool, declared: Option<TypeView>, init: Option<ExprView> },
    Assign { target: ExprView, op: AssignOp, value: ExprView },
    If { cond: ExprView, then_block: Seq<StmtView>, else_block: Option<Seq<StmtView>> },
    While { cond: ExprView, body: Seq<StmtView> },
    ForIn { var: Seq<u8>, range: ExprView, body: Seq<StmtView> },
    Loop { body: Seq<StmtView> },
    Break,
    Continue,
    Return(Option<ExprView>),
    Expr(ExprView),
}

/// The mathematical value of [`Field`].
pub struct FieldView {
    pub name: Seq<u8>,
    pub ty: TypeView,
}

/// The mathematical value of [`Signature`].
pub struct SignatureView {
    pub name: Seq<u8>,
    pub params: Seq<ParamView>,
    pub ret: Option<TypeView>,
}

/// The mathematical value of [`Function`].
pub struct FunctionView {
    pub sig: SignatureView,
    pub body: Seq<StmtView>,
}

/// The mathematical value of [`Item`].
#[allow(inconsistent_fields)]
pub enum ItemView {
    Const { name: Seq<u8>, ty: TypeView, value: ExprView },
    Static { name: Seq<u8>, mutable: bool, ty: TypeView, value: ExprView },
    Struct { name: Seq<u8>, fields: Seq<FieldView> },
    Enum { name: Seq<u8>, variants: Seq<Seq<u8>> },
    Trait { name: Seq<u8>, methods: Seq<SignatureView> },
    Impl { target: Seq<u8>, trait_name: Option<Seq<u8>>, methods: Seq<FunctionView> },
    Function(FunctionView),
}

/// The mathematical value of [`Program`].
pub struct ProgramView {
    pub items: Seq<ItemView>,
}

/// The values of a row of names.
pub open spec fn names_view(names: Seq<Vec<u8>>) -> Seq<Seq<u8>> {
    Seq::new(names.len(), |i: int| names[i]@)
}

/// The value of a name that may be absent.
pub open spec fn option_name_view(name: Option<Vec<u8>>) -> Option<Seq<u8>> {
    match name {
        Some(n) => Some(n@),
        None => None,
    }
}

/// The mathematical value of a parameter.
pub open spec fn param_view(p: Param) -> ParamView {
    ParamView { name: p.name@, ty: option_type_view(p.ty) }
}

/// The values of a row of parameters, in order.
pub open spec fn params_view(ps: Seq<Param>) -> Seq<ParamView> {
    Seq::new(ps.len(), |i: int| param_view(ps[i]))
}

/// The mathematical value of an expression.
pub open spec fn expr_view(e: Expr) -> ExprView
    decreases e,
{
    ExprView { kind: expr_kind_view(e.kind), pos: e.pos }
}

/// The mathematical value of a kind of expression.
pub open spec fn expr_kind_view(k: ExprKind) -> ExprKindView
    decreases k,
{
    match k {
        ExprKind::IntLit(t) => ExprKindView::IntLit(t@),
        ExprKind::FloatLit(t) => ExprKindView::FloatLit(t@),
        ExprKind::BoolLit(b) => ExprKindView::BoolLit(b),
        ExprKind::CharLit(t) => ExprKindView::CharLit(t@),
        ExprKind::StringLit(t) => ExprKindView::StringLit(t@),
        ExprKind::Identifier(n) => ExprKindView::Identifier(n@),
        ExprKind::Path(segments) => ExprKindView::Path(names_view(segments@)),
        ExprKind::Binary(op, l, r) => ExprKindView::Binary(
            op,
            Box::new(expr_view(*l)),
            Box::new(expr_view(*r)),
        ),
        ExprKind::Unary(op, e) => ExprKindView::Unary(op, Box::new(expr_view(*e))),
        ExprKind::Call(f, args) => ExprKindView::Call(
            Box::new(expr_view(*f)),
            exprs_view(args@),
        ),
        ExprKind::MacroCall(m, args) => ExprKindView::MacroCall(m, exprs_view(args@)),
        ExprKind::FieldAccess(e, n) => ExprKindView::FieldAccess(Box::new(expr_view(*e)), n@),
        ExprKind::StructInit(n, fields) => ExprKindView::StructInit(n@, field_inits_view(fields@)),
        ExprKind::ArrayLit(es) => ExprKindView::ArrayLit(exprs_view(es@)),
        ExprKind::ArrayRepeat(v, n) => ExprKindView::ArrayRepeat(
            Box::new(expr_view(*v)),
            Box::new(expr_view(*n)),
        ),
        ExprKind::TupleLit(es) => ExprKindView::TupleLit(exprs_view(es@)),
        ExprKind::Closure(ps, ret, body) => ExprKindView::Closure(
            params_view(ps@),
            option_type_view(ret),
            match body {
                ClosureBody::Expr(e) => ClosureBodyView::Expr(Box::new(expr_view(*e))),
                ClosureBody::Block(b) => ClosureBodyView::Block(stmts_view(b@)),
            },
        ),
        ExprKind::Reference(m, e) => ExprKindView::Reference(m, Box::new(expr_view(*e))),
        ExprKind::Range(a, b) => ExprKindView::Range(
            Box::new(expr_view(*a)),
            Box::new(expr_view(*b)),
        ),
    }
}

/// The values of a row of expressions, in order.
pub open spec fn exprs_view(es: Seq<Expr>) -> Seq<ExprView>
    decreases es,
{
    Seq::new(
        es.len(),
        |i: int|
            if 0 <= i < es.len() {
                expr_view(es[i])
            } else {
                arbitrary()
            },
    )
}

/// The values of a row of fields of a struct literal, in order.
pub open spec fn field_inits_view(fs: Seq<FieldInit>) -> Seq<FieldInitView>
    decreases fs,
{
    Seq::new(
        fs.len(),
        |i: int|
            if 0 <= i < fs.len() {
                FieldInitView { name: fs[i].name@, value: expr_view(fs[i].value) }
            } else {
                arbitrary()
            },
    )
}

/// The value of an expression that may be absent.
pub open spec fn option_expr_view(e: Option<Expr>) -> Option<ExprView>
    decreases e,
{
    match e {
        Some(e) => Some(expr_view(e)),
        None => None,
    }
}

/// The mathematical value of a statement.
pub open spec fn stmt_view(s: Stmt) -> StmtView
    decreases s,
{
    match s {
        Stmt::Let { name, mutable, declared, init } => StmtView::Let {
            name: name@,
            mutable,
            declared: option_type_view(declared),
            init: option_expr_view(init),
        },
        Stmt::Assign { target, op, value } => StmtView::Assign {
            target: expr_view(target),
            op,
            value: expr_view(value),
        },
        Stmt::If { cond, then_block, else_block } => StmtView::If {
            cond: expr_view(cond),
            then_block: stmts_view(then_block@),
            else_block: match else_block {
                Some(b) => Some(stmts_view(b@)),
                None => None,
            },
        },
        Stmt::While { cond, body } => StmtView::While {
            cond: expr_view(cond),
            body: stmts_view(body@),
        },
        Stmt::ForIn { var, range, body } => StmtView::ForIn {
            var: var@,
            range: expr_view(range),
            body: stmts_view(body@),
        },
        Stmt::Loop { body } => StmtView::Loop { body: stmts_view(body@) },
        Stmt::Break => StmtView::Break,
        Stmt::Continue => StmtView::Continue,
        Stmt::Return(e) => StmtView::Return(option_expr_view(e)),
        Stmt::Expr(e) => StmtView::Expr(expr_view(e)),
    }
}

/// The values of a row of statements, in order.
pub open spec fn stmts_view(ss: Seq<Stmt>) -> Seq<StmtView>
    decreases ss,
{
    Seq::new(
        ss.len(),
        |i: int|
            if 0 <= i < ss.len() {
                stmt_view(ss[i])
            } else {
                arbitrary()
            },
    )
}

/// The mathematical value of a field of a struct declaration.
pub open spec fn field_view(f: Field) -> FieldView {
    FieldView { name: f.name@, ty: type_view(f.ty) }
}

/// The values of a row of fields of a struct declaration, in order.
pub open spec fn fields_view(fs: Seq<Field>) -> Seq<FieldView> {
    Seq::new(fs.len(), |i: int| field_view(fs[i]))
}

/// The mathematical value of a function head.
pub open spec fn signature_view(s: Signature) -> SignatureView {
    SignatureView { name: s.name@, params: params_view(s.params@), ret: option_type_view(s.ret) }
}

/// The values of a row of function heads, in order.
pub open spec fn signatures_view(ss: Seq<Signature>) -> Seq<SignatureView> {
    Seq::new(ss.len(), |i: int| signature_view(ss[i]))
}

/// The mathematical value of a function.
pub open spec fn function_view(f: Function) -> FunctionView {
    FunctionView { sig: signature_view(f.sig), body: stmts_view(f.body@) }
}

/// The values of a row of functions, in order.
pub open spec fn functions_view(fs: Seq<Function>) -> Seq<FunctionView> {
    Seq::new(fs.len(), |i: int| function_view(fs[i]))
}

/// The mathematical value of an item.
pub open spec fn item_view(item: Item) -> ItemView {
    match item {
        Item::Const { name, ty, value } => ItemView::Const {
            name: name@,
            ty: type_view(ty),
            value: expr_view(value),
        },
        Item::Static { name, mutable, ty, value } => ItemView::Static {
            name: name@,
            mutable,
            ty: type_view(ty),
            value: expr_view(value),
        },
        Item::Struct { name, fields } => ItemView::Struct {
            name: name@,
            fields: fields_view(fields@),
        },
        Item::Enum { name, variants } => ItemView::Enum {
            name: name@,
            variants: names_view(variants@),
        },
        Item::Trait { name, methods } => ItemView::Trait {
            name: name@,
            methods: signatures_view(methods@),
        },
        Item::Impl { target, trait_name, methods } => ItemView::Impl {
            target: target@,
            trait_name: option_name_view(trait_name),
            methods: functions_view(methods@),
        },
        Item::Function(f) => ItemView::Function(function_view(f)),
    }
}

/// The values of a row of items, in order.
pub open spec fn items_view(items: Seq<Item>) -> Seq<ItemView> {
    Seq::new(items.len(), |i: int| item_view(items[i]))
}

impl View for Expr {
    type V = ExprView;

    open spec fn view(&self) -> ExprView {
        expr_view(*self)
    }
}

impl View for Stmt {
    type V = StmtView;

    open spec fn view(&self) -> StmtView {
        stmt_view(*self)
    }
}

impl View for Item {
    type V = ItemView;

    open spec fn view(&self) -> ItemView {
        item_view(*self)
    }
}

impl View for Program {
    type V = ProgramView;

    open spec fn view(&self) -> ProgramView {
        ProgramView { items: items_view(self.items@) }
    }
}

/// The values of a row of expressions that may be absent.
pub open spec fn option_exprs_view(es: Option<Vec<Expr>>) -> Option<Seq<ExprView>> {
    match es {
        Some(es) => Some(exprs_view(es@)),
        None => None,
    }
}

/// The values of a row of statements that may be absent.
pub open spec fn option_stmts_view(ss: Option<Vec<Stmt>>) -> Option<Seq<StmtView>> {
    match ss {
        Some(ss) => Some(stmts_view(ss@)),
        None => None,
    }
}

/// The value of a statement that may be absent.
pub open spec fn option_stmt_view(s: Option<Stmt>) -> Option<StmtView> {
    match s {
        Some(s) => Some(stmt_view(s)),
        None => None,
    }
}

/// The values of a row of parameters that may be absent.
pub open spec fn option_params_view(ps: Option<Vec<Param>>) -> Option<Seq<ParamView>> {
    match ps {
        Some(ps) => Some(params_view(ps@)),
        None => None,
    }
}

/// The values of a row of names that may be absent.
pub open spec fn option_names_view(ns: Option<Vec<Vec<u8>>>) -> Option<Seq<Seq<u8>>> {
    match ns {
        Some(ns) => Some(names_view(ns@)),
        None => None,
    }
}

/// Adds an expression to the end of a row.
pub fn push_expr(row: Vec<Expr>, e: Expr) -> (r: Vec<Expr>)
    ensures
        exprs_view(r@) == exprs_view(row@).push(expr_view(e)),
{
    let mut row = row;
    let ghost before = exprs_view(row@);
    let ghost ev = expr_view(e);
    row.push(e);
    assert(exprs_view(row@) =~= before.push(ev));
    row
}

/// Adds a statement to the end of a row.
pub fn push_stmt(row: Vec<Stmt>, s: Stmt) -> (r: Vec<Stmt>)
    ensures
        stmts_view(r@) == stmts_view(row@).push(stmt_view(s)),
{
    let mut row = row;
    let ghost before = stmts_view(row@);
    let ghost sv = stmt_view(s);
    row.push(s);
    assert(stmts_view(row@) =~= before.push(sv));
    row
}

/// Adds a parameter to the end of a row.
pub fn push_param(row: Vec<Param>, p: Param) -> (r: Vec<Param>)
    ensures
        params_view(r@) == params_view(row@).push(param_view(p)),
{
    let mut row = row;
    let ghost before = params_view(row@);
    let ghost pv = param_view(p);
    row.push(p);
    assert(params_view(row@) =~= before.push(pv));
    row
}

/// Adds a name to the end of a row.
pub fn push_name(row: Vec<Vec<u8>>, name: Vec<u8>) -> (r: Vec<Vec<u8>>)
    ensures
        names_view(r@) == names_view(row@).push(name@),
{
    let mut row = row;
    let ghost before = names_view(row@);
    let ghost nv = name@;
    row.push(name);
    assert(names_view(row@) =~= before.push(nv));
    row
}

/// Adds a field of a struct literal to the end of a row.
pub fn push_field_init(row: Vec<FieldInit>, f: FieldInit) -> (r: Vec<FieldInit>)
    ensures
        field_inits_view(r@) == field_inits_view(row@).push(
            FieldInitView { name: f.name@, value: expr_view(f.value) },
        ),
{
    let mut row = row;
    let ghost before = field_inits_view(row@);
    let ghost fv = FieldInitView { name: f.name@, value: expr_view(f.value) };
    row.push(f);
    assert(field_inits_view(row@) =~= before.push(fv));
    row
}

/// Adds a field of a struct declaration to the end of a row.
pub fn push_field(row: Vec<Field>, f: Field) -> (r: Vec<Field>)
    ensures
        fields_view(r@) == fields_view(row@).push(field_view(f)),
{
    let mut row = row;
    let ghost before = fields_view(row@);
    let ghost fv = field_view(f);
    row.push(f);
    assert(fields_view(row@) =~= before.push(fv));
    row
}

/// Adds the head of a function to the end of a row.
pub fn push_signature(row: Vec<Signature>, s: Signature) -> (r: Vec<Signature>)
    ensures
        signatures_view(r@) == signatures_view(row@).push(signature_view(s)),
{
    let mut row = row;
    let ghost before = signatures_view(row@);
    let ghost sv = signature_view(s);
    row.push(s);
    assert(signatures_view(row@) =~= before.push(sv));
    row
}

/// Adds a function to the end of a row.
pub fn push_function(row: Vec<Function>, f: Function) -> (r: Vec<Function>)
    ensures
        functions_view(r@) == functions_view(row@).push(function_view(f)),
{
    let mut row = row;
    let ghost before = functions_view(row@);
    let ghost fv = function_view(f);
    row.push(f);
    assert(functions_view(row@) =~= before.push(fv));
    row
}

/// Adds an item to the end of a row.
pub fn push_item(row: Vec<Item>, item: Item) -> (r: Vec<Item>)
    ensures
        items_view(r@) == items_view(row@).push(item_view(item)),
{
    let mut row = row;
    let ghost before = items_view(row@);
    let ghost iv = item_view(item);
    row.push(item);
    assert(items_view(row@) =~= before.push(iv));
    row
}

/// A row of no expressions.
pub fn no_exprs() -> (r: Vec<Expr>)
    ensures
        exprs_view(r@) == Seq::<ExprView>::empty(),
{
    let r: Vec<Expr> = Vec::new();
    assert(exprs_view(r@) =~= Seq::<ExprView>::empty());
    r
}

/// A row of one expression.
pub fn one_expr(e: Expr) -> (r: Vec<Expr>)
    ensures
        exprs_view(r@) == seq![expr_view(e)],
{
    let ghost ev = expr_view(e);
    let mut r: Vec<Expr> = Vec::new();
    r.push(e);
    assert(exprs_view(r@) =~= seq![ev]);
    r
}

/// A row of no statements.
pub fn no_stmts() -> (r: Vec<Stmt>)
    ensures
        stmts_view(r@) == Seq::<StmtView>::empty(),
{
    let r: Vec<Stmt> = Vec::new();
    assert(stmts_view(r@) =~= Seq::<StmtView>::empty());
    r
}

/// A row of one statement.
pub fn one_stmt(s: Stmt) -> (r: Vec<Stmt>)
    ensures
        stmts_view(r@) == seq![stmt_view(s)],
{
    let ghost sv = stmt_view(s);
    let mut r: Vec<Stmt> = Vec::new();
    r.push(s);
    assert(stmts_view(r@) =~= seq![sv]);
    r
}

/// A row of no parameters.
pub fn no_params() -> (r: Vec<Param>)
    ensures
        params_view(r@) == Seq::<ParamView>::empty(),
{
    let r: Vec<Param> = Vec::new();
    assert(params_view(r@) =~= Seq::<ParamView>::empty());
    r
}

/// A row of one name.
pub fn one_name(name: Vec<u8>) -> (r: Vec<Vec<u8>>)
    ensures
        names_view(r@) == seq![name@],
{
    let ghost nv = name@;
    let mut r: Vec<Vec<u8>> = Vec::new();
    r.push(name);
    assert(names_view(r@) =~= seq![nv]);
    r
}

/// A row of no names.
pub fn no_names() -> (r: Vec<Vec<u8>>)
    ensures
        names_view(r@) == Seq::<Seq<u8>>::empty(),
{
    let r: Vec<Vec<u8>> = Vec::new();
    assert(names_view(r@) =~= Seq::<Seq<u8>>::empty());
    r
}

/// A row of no fields of a struct literal.
pub fn no_field_inits() -> (r: Vec<FieldInit>)
    ensures
        field_inits_view(r@) == Seq::<FieldInitView>::empty(),
{
    let r: Vec<FieldInit> = Vec::new();
    assert(field_inits_view(r@) =~= Seq::<FieldInitView>::empty());
    r
}

/// A row of no fields of a struct declaration.
pub fn no_fields() -> (r: Vec<Field>)
    ensures
        fields_view(r@) == Seq::<FieldView>::empty(),
{
    let r: Vec<Field> = Vec::new();
    assert(fields_view(r@) =~= Seq::<FieldView>::empty());
    r
}

/// A row of no function heads.
pub fn no_signatures() -> (r: Vec<Signature>)
    ensures
        signatures_view(r@) == Seq::<SignatureView>::empty(),
{
    let r: Vec<Signature> = Vec::new();
    assert(signatures_view(r@) =~= Seq::<SignatureView>::empty());
    r
}

/// A row of no functions.
pub fn no_functions() -> (r: Vec<Function>)
    ensures
        functions_view(r@) == Seq::<FunctionView>::empty(),
{
    let r: Vec<Function> = Vec::new();
    assert(functions_view(r@) =~= Seq::<FunctionView>::empty());
    r
}

/// A row of no items.
pub fn no_items() -> (r: Vec<Item>)
    ensures
        items_view(r@) == Seq::<ItemView>::empty(),
{
    let r: Vec<Item> = Vec::new();
    assert(items_view(r@) =~= Seq::<ItemView>::empty());
    r
}

} // verus!
