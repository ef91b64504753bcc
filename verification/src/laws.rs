//! What follows from the semantic rules, proved of every tree and every stack
//! of scopes.

use vstd::prelude::*;
use crate::ast::{AssignOp, ExprKindView, ExprView, ItemView, ProgramView, StmtView};
use crate::diagnostics::SemanticErrorView;
use crate::rules::{
    analysis, assigned, check_assign, check_block, check_expr, check_for, check_if, check_let,
    check_repeat, check_stmt, check_stmts, declare_items, globals, item_symbol, require,
    variable,
};
use crate::text::{all_digits, decimal_value};
use crate::symbols::{
    declare, enter, first_index, index_of, initialize, leave, lemma_declare_keeps_well_formed,
    lemma_first_index, lemma_initialize_keeps_well_formed, lemma_resolve_within, lookup, resolve,
    resolve_within, well_formed, Env, ScopeView, SymbolView,
};
use crate::token::Position;
use crate::types::TypeView;

verus! {

/// Whether two scopes hold the same names in the same places.
pub open spec fn same_names(a: ScopeView, b: ScopeView) -> bool {
    &&& a.len() == b.len()
    &&& forall|i: int| 0 <= i < a.len() ==> (#[trigger] a[i]).name == b[i].name
}

/// Whether `b` holds the names of `a` in their places, and perhaps more
/// behind them.
pub open spec fn names_kept(a: ScopeView, b: ScopeView) -> bool {
    &&& a.len() <= b.len()
    &&& forall|i: int| 0 <= i < a.len() ==> (#[trigger] a[i]).name == b[i].name
}

/// Whether two stacks hold the same names in the same places of the same
/// scopes.
pub open spec fn same_scopes(a: Env, b: Env) -> bool {
    &&& a.len() == b.len()
    &&& forall|s: int| 0 <= s < a.len() ==> same_names(#[trigger] a[s], b[s])
}

/// Whether `b` is `a` with names added to its innermost scope at most.
pub open spec fn grown(a: Env, b: Env) -> bool {
    &&& a.len() == b.len()
    &&& a.len() > 0
    &&& forall|s: int| 0 <= s < a.len() - 1 ==> same_names(#[trigger] a[s], b[s])
    &&& names_kept(a.last(), b.last())
}

/// In scopes of the same names a name is found in the same place.
proof fn lemma_first_index_by_names(a: ScopeView, b: ScopeView, name: Seq<u8>, from: nat)
    requires
        same_names(a, b),
    ensures
        first_index(a, name, from) == first_index(b, name, from),
    decreases a.len() - from,
{
    if from < a.len() {
        assert(a[from as int].name == b[from as int].name);
        if a[from as int].name != name {
            lemma_first_index_by_names(a, b, name, from + 1);
        }
    }
}

proof fn lemma_resolve_by_names(a: Env, b: Env, name: Seq<u8>, upto: nat)
    requires
        same_scopes(a, b),
    ensures
        resolve_within(a, name, upto) == resolve_within(b, name, upto),
    decreases upto,
{
    if upto > 0 && upto <= a.len() {
        assert(same_names(a[upto - 1], b[upto - 1]));
        lemma_first_index_by_names(a[upto - 1], b[upto - 1], name, 0);
        lemma_resolve_by_names(a, b, name, (upto - 1) as nat);
    }
}

/// Declaring a name adds to the innermost scope at most.
proof fn lemma_declare_grows(env: Env, symbol: SymbolView)
    requires
        env.len() > 0,
    ensures
        grown(env, declare(env, symbol)),
{
    lemma_first_index(env.last(), symbol.name, 0);
    let after = declare(env, symbol);
    assert forall|s: int| 0 <= s < env.len() - 1 implies same_names(#[trigger] env[s], after[s]) by {
        assert(after[s] == env[s]);
    }
}

/// Initializing a symbol changes no name.
proof fn lemma_initialize_keeps_names(env: Env, at: (nat, nat), ty: TypeView)
    requires
        at.0 < env.len(),
        at.1 < env[at.0 as int].len(),
    ensures
        same_scopes(env, initialize(env, at, ty)),
{
    let after = initialize(env, at, ty);
    assert forall|s: int| 0 <= s < env.len() implies same_names(#[trigger] env[s], after[s]) by {
        if s != at.0 {
            assert(after[s] == env[s]);
        }
    }
}

proof fn lemma_assigned_keeps_names(env: Env, name: Seq<u8>, found: TypeView)
    ensures
        same_scopes(env, assigned(env, name, found)),
{
    lemma_resolve_within(env, name, env.len());
    match resolve(env, name) {
        Some(at) => {
            if env[at.0 as int][at.1 as int].mutable {
                let symbol = env[at.0 as int][at.1 as int];
                lemma_initialize_keeps_names(
                    env,
                    at,
                    if crate::types::is_unknown(symbol.ty) {
                        found
                    } else {
                        symbol.ty
                    },
                );
            }
        },
        None => {},
    }
}

proof fn lemma_grown_twice(a: Env, b: Env, c: Env)
    requires
        grown(a, b),
        grown(b, c),
    ensures
        grown(a, c),
{
    assert forall|s: int| 0 <= s < a.len() - 1 implies same_names(#[trigger] a[s], c[s]) by {
        assert(same_names(a[s], b[s]));
        assert(same_names(b[s], c[s]));
    }
    assert forall|i: int| 0 <= i < a.last().len() implies (#[trigger] a.last()[i]).name == c.last()[i].name by {
        assert(a.last()[i].name == b.last()[i].name);
        assert(b.last()[i].name == c.last()[i].name);
    }
}

proof fn lemma_same_then_same(a: Env, b: Env, c: Env)
    requires
        same_scopes(a, b),
        same_scopes(b, c),
    ensures
        same_scopes(a, c),
{
    assert forall|s: int| 0 <= s < a.len() implies same_names(#[trigger] a[s], c[s]) by {
        assert(same_names(a[s], b[s]));
        assert(same_names(b[s], c[s]));
    }
}

proof fn lemma_same_is_grown(a: Env, b: Env)
    requires
        same_scopes(a, b),
        a.len() > 0,
    ensures
        grown(a, b),
{
    assert(same_names(a[a.len() - 1], b[a.len() - 1]));
}

/// What grew inside a scope that was entered is gone when that scope is
/// left.
proof fn lemma_leave_after_enter(env: Env, inner: Env, after: Env)
    requires
        inner.len() == env.len() + 1,
        forall|s: int| 0 <= s < env.len() ==> same_names(#[trigger] env[s], inner[s]),
        grown(inner, after),
    ensures
        same_scopes(env, leave(after)),
{
    assert forall|s: int| 0 <= s < env.len() implies same_names(#[trigger] env[s], leave(after)[s]) by {
        assert(same_names(env[s], inner[s]));
        assert(same_names(inner[s], after[s]));
        assert(leave(after)[s] == after[s]);
    }
}

/// A statement adds names to the innermost scope at most.
proof fn lemma_stmt_grows(env: Env, s: StmtView, ret: Option<TypeView>)
    requires
        env.len() > 0,
    ensures
        grown(env, check_stmt(env, s, ret).env),
        !(s is Let) ==> same_scopes(env, check_stmt(env, s, ret).env),
    decreases s, 2nat,
{
    reveal_with_fuel(check_stmt, 1);
    reveal_with_fuel(check_let, 1);
    reveal_with_fuel(check_assign, 1);
    reveal_with_fuel(check_if, 1);
    reveal_with_fuel(check_for, 1);
    reveal_with_fuel(check_block, 1);
    reveal_with_fuel(check_stmts, 1);
    reveal_with_fuel(check_expr, 1);
    let kept = env;
    assert(same_scopes(kept, env));
    match s {
        StmtView::Let { name, mutable, declared, init } => {
            match init {
                Some(e) => {
                    let ty = match declared {
                        Some(d) => d,
                        None => check_expr(env, e).ty,
                    };
                    lemma_declare_grows(env, crate::rules::variable(name, ty, mutable, true));
                },
                None => {
                    let ty = match declared {
                        Some(d) => d,
                        None => TypeView::Unknown,
                    };
                    lemma_declare_grows(env, crate::rules::variable(name, ty, mutable, false));
                },
            }
        },
        StmtView::Assign { target, op, value } => {
            match target.kind {
                ExprKindView::Identifier(name) => {
                    lemma_assigned_keeps_names(env, name, check_expr(env, value).ty);
                },
                _ => {},
            }
        },
        StmtView::If { cond, then_block, else_block } => {
            lemma_block_keeps(env, then_block, ret);
            let t = check_block(env, then_block, ret);
            match else_block {
                Some(b) => {
                    lemma_block_keeps(t.env, b, ret);
                    lemma_same_then_same(env, t.env, check_block(t.env, b, ret).env);
                },
                None => {},
            }
        },
        StmtView::While { cond, body } => {
            lemma_block_keeps(env, body, ret);
        },
        StmtView::ForIn { var, range, body } => {
            let ty = if range.kind is Range {
                crate::rules::primitive(crate::types::Primitive::I32)
            } else {
                TypeView::Unknown
            };
            let entered = enter(env);
            let inner = declare(entered, crate::rules::variable(var, ty, false, true));
            lemma_declare_grows(entered, crate::rules::variable(var, ty, false, true));
            lemma_stmts_grow(inner, body, ret);
            let after = check_stmts(inner, body, ret).env;
            assert forall|k: int| 0 <= k < env.len() implies same_names(#[trigger] env[k], inner[k]) by {
                assert(entered[k] == env[k]);
                assert(same_names(entered[k], inner[k]));
            }
            lemma_leave_after_enter(env, inner, after);
        },
        StmtView::Loop { body } => {
            lemma_block_keeps(env, body, ret);
        },
        _ => {},
    }
    if !(s is Let) {
        lemma_same_is_grown(env, check_stmt(env, s, ret).env);
    }
}

/// A row of statements adds names to the innermost scope at most.
proof fn lemma_stmts_grow(env: Env, ss: Seq<StmtView>, ret: Option<TypeView>)
    requires
        env.len() > 0,
    ensures
        grown(env, check_stmts(env, ss, ret).env),
    decreases ss, 0nat,
{
    reveal_with_fuel(check_stmts, 1);
    reveal_with_fuel(check_stmt, 1);
    if ss.len() == 0 {
        assert(same_scopes(env, env));
        lemma_same_is_grown(env, env);
    } else {
        lemma_stmts_grow(env, ss.drop_last(), ret);
        let init = check_stmts(env, ss.drop_last(), ret);
        lemma_stmt_grows(init.env, ss.last(), ret);
        lemma_grown_twice(env, init.env, check_stmt(init.env, ss.last(), ret).env);
    }
}

/// A block leaves every scope with the names it had.
proof fn lemma_block_keeps(env: Env, ss: Seq<StmtView>, ret: Option<TypeView>)
    requires
        env.len() > 0,
    ensures
        same_scopes(env, check_block(env, ss, ret).env),
    decreases ss, 1nat,
{
    reveal_with_fuel(check_block, 1);
    reveal_with_fuel(check_stmts, 1);
    let inner = enter(env);
    lemma_stmts_grow(inner, ss, ret);
    assert forall|k: int| 0 <= k < env.len() implies same_names(#[trigger] env[k], inner[k]) by {
        assert(inner[k] == env[k]);
    }
    lemma_leave_after_enter(env, inner, check_stmts(inner, ss, ret).env);
}

/// Scope containment. Behind a block every name is found where it was found
/// before the block, or not at all if it was not found before: nothing that
/// the block declared can be found.
pub proof fn law_block_contains_its_names(
    env: Env,
    block: Seq<StmtView>,
    ret: Option<TypeView>,
    name: Seq<u8>,
)
    requires
        env.len() > 0,
    ensures
        resolve(check_block(env, block, ret).env, name) == resolve(env, name),
        lookup(env, name).is_none() ==> lookup(check_block(env, block, ret).env, name).is_none(),
{
    lemma_block_keeps(env, block, ret);
    lemma_resolve_by_names(env, check_block(env, block, ret).env, name, env.len());
}

/// Scope containment, for statements. Behind any statement but a `let`,
/// every name is found where it was found before it, or not at all: an `if`,
/// a `while`, a `for` or a `loop` leaves nothing of what its blocks declared.
pub proof fn law_statement_contains_its_names(
    env: Env,
    s: StmtView,
    ret: Option<TypeView>,
    name: Seq<u8>,
)
    requires
        env.len() > 0,
        !(s is Let),
    ensures
        resolve(check_stmt(env, s, ret).env, name) == resolve(env, name),
        lookup(env, name).is_none() ==> lookup(check_stmt(env, s, ret).env, name).is_none(),
{
    lemma_stmt_grows(env, s, ret);
    lemma_resolve_by_names(env, check_stmt(env, s, ret).env, name, env.len());
}

proof fn lemma_enter_keeps_well_formed(env: Env)
    requires
        well_formed(env),
    ensures
        well_formed(enter(env)),
{
    let after = enter(env);
    assert forall|s: int, i: int| 0 <= s < after.len() && 0 <= i < after[s].len() implies {
        &&& (#[trigger] after[s][i]).depth == s
        &&& index_of(after[s], after[s][i].name) == Some(i as nat)
    } by {
        if s < env.len() {
            assert(after[s] == env[s]);
            assert(env[s][i].depth == s);
        }
    }
}

proof fn lemma_leave_keeps_well_formed(env: Env)
    requires
        well_formed(env),
        env.len() > 0,
    ensures
        well_formed(leave(env)),
{
    let after = leave(env);
    assert forall|s: int, i: int| 0 <= s < after.len() && 0 <= i < after[s].len() implies {
        &&& (#[trigger] after[s][i]).depth == s
        &&& index_of(after[s], after[s][i].name) == Some(i as nat)
    } by {
        assert(after[s] == env[s]);
        assert(env[s][i].depth == s);
    }
}

proof fn lemma_assigned_keeps_well_formed(env: Env, name: Seq<u8>, found: TypeView)
    requires
        well_formed(env),
    ensures
        well_formed(assigned(env, name, found)),
{
    lemma_resolve_within(env, name, env.len());
    match resolve(env, name) {
        Some(at) => {
            let symbol = env[at.0 as int][at.1 as int];
            if symbol.mutable {
                lemma_initialize_keeps_well_formed(
                    env,
                    at,
                    if crate::types::is_unknown(symbol.ty) {
                        found
                    } else {
                        symbol.ty
                    },
                );
            }
        },
        None => {},
    }
}

/// The scopes stay well formed through every statement: no scope comes to
/// hold a name twice, and every symbol has the depth of its scope.
pub proof fn law_statement_keeps_scopes_well_formed(env: Env, s: StmtView, ret: Option<TypeView>)
    requires
        env.len() > 0,
        well_formed(env),
    ensures
        well_formed(check_stmt(env, s, ret).env),
    decreases s, 2nat,
{
    reveal_with_fuel(check_stmt, 1);
    reveal_with_fuel(check_let, 1);
    reveal_with_fuel(check_assign, 1);
    reveal_with_fuel(check_if, 1);
    reveal_with_fuel(check_for, 1);
    reveal_with_fuel(check_block, 1);
    reveal_with_fuel(check_stmts, 1);
    reveal_with_fuel(check_expr, 1);
    match s {
        StmtView::Let { name, mutable, declared, init } => {
            match init {
                Some(e) => {
                    let ty = match declared {
                        Some(d) => d,
                        None => check_expr(env, e).ty,
                    };
                    lemma_declare_keeps_well_formed(
                        env,
                        crate::rules::variable(name, ty, mutable, true),
                    );
                },
                None => {
                    let ty = match declared {
                        Some(d) => d,
                        None => TypeView::Unknown,
                    };
                    lemma_declare_keeps_well_formed(
                        env,
                        crate::rules::variable(name, ty, mutable, false),
                    );
                },
            }
        },
        StmtView::Assign { target, op, value } => {
            match target.kind {
                ExprKindView::Identifier(name) => {
                    lemma_assigned_keeps_well_formed(env, name, check_expr(env, value).ty);
                },
                _ => {},
            }
        },
        StmtView::If { cond, then_block, else_block } => {
            law_block_keeps_scopes_well_formed(env, then_block, ret);
            lemma_block_keeps(env, then_block, ret);
            let t = check_block(env, then_block, ret);
            match else_block {
                Some(b) => {
                    law_block_keeps_scopes_well_formed(t.env, b, ret);
                },
                None => {},
            }
        },
        StmtView::While { cond, body } => {
            law_block_keeps_scopes_well_formed(env, body, ret);
        },
        StmtView::ForIn { var, range, body } => {
            let ty = if range.kind is Range {
                crate::rules::primitive(crate::types::Primitive::I32)
            } else {
                TypeView::Unknown
            };
            let entered = enter(env);
            lemma_enter_keeps_well_formed(env);
            let symbol = crate::rules::variable(var, ty, false, true);
            let inner = declare(entered, symbol);
            lemma_declare_keeps_well_formed(entered, symbol);
            lemma_declare_grows(entered, symbol);
            lemma_stmts_keep_well_formed(inner, body, ret);
            lemma_stmts_grow(inner, body, ret);
            lemma_leave_keeps_well_formed(check_stmts(inner, body, ret).env);
        },
        StmtView::Loop { body } => {
            law_block_keeps_scopes_well_formed(env, body, ret);
        },
        _ => {},
    }
}

proof fn lemma_stmts_keep_well_formed(env: Env, ss: Seq<StmtView>, ret: Option<TypeView>)
    requires
        env.len() > 0,
        well_formed(env),
    ensures
        well_formed(check_stmts(env, ss, ret).env),
    decreases ss, 0nat,
{
    reveal_with_fuel(check_stmts, 1);
    reveal_with_fuel(check_stmt, 1);
    if ss.len() > 0 {
        lemma_stmts_keep_well_formed(env, ss.drop_last(), ret);
        lemma_stmts_grow(env, ss.drop_last(), ret);
        let init = check_stmts(env, ss.drop_last(), ret);
        law_statement_keeps_scopes_well_formed(init.env, ss.last(), ret);
    }
}

/// The scopes stay well formed through every block.
pub proof fn law_block_keeps_scopes_well_formed(
    env: Env,
    ss: Seq<StmtView>,
    ret: Option<TypeView>,
)
    requires
        env.len() > 0,
        well_formed(env),
    ensures
        well_formed(check_block(env, ss, ret).env),
    decreases ss, 1nat,
{
    reveal_with_fuel(check_block, 1);
    reveal_with_fuel(check_stmts, 1);
    lemma_enter_keeps_well_formed(env);
    lemma_stmts_keep_well_formed(enter(env), ss, ret);
    lemma_stmts_grow(enter(env), ss, ret);
    lemma_leave_keeps_well_formed(check_stmts(enter(env), ss, ret).env);
}

/// The expression that is the name `name` written at `pos`.
pub open spec fn name_at(name: Seq<u8>, pos: Position) -> ExprView {
    ExprView { kind: ExprKindView::Identifier(name), pos }
}

/// A name that no open scope declares, used as a value, gives exactly one
/// error: an undefined identifier, at the place where the name is used.
pub proof fn law_undeclared_name_is_one_error(env: Env, name: Seq<u8>, pos: Position)
    requires
        lookup(env, name).is_none(),
    ensures
        check_expr(env, name_at(name, pos)).errors == seq![
            SemanticErrorView::UndefinedIdentifier { name, pos },
        ],
{
    reveal_with_fuel(check_expr, 1);
}

/// A name that an open scope declares and something was assigned to, used
/// as a value, gives no error and has the type of its symbol.
pub proof fn law_declared_name_is_no_error(env: Env, name: Seq<u8>, pos: Position)
    requires
        lookup(env, name) matches Some(symbol) && symbol.initialized,
    ensures
        check_expr(env, name_at(name, pos)).errors == Seq::<SemanticErrorView>::empty(),
        check_expr(env, name_at(name, pos)).ty == lookup(env, name).unwrap().ty,
{
    reveal_with_fuel(check_expr, 1);
}

/// The assignment `name op value`, with the name written at `pos`.
pub open spec fn assignment(name: Seq<u8>, pos: Position, op: AssignOp, value: ExprView) -> StmtView {
    StmtView::Assign { target: name_at(name, pos), op, value }
}

/// Assigning to a name that is declared and not mutable gives exactly one
/// `ImmutableAssignment`, at the name: the errors of the assignment are that
/// one, the errors in the value, and a mismatch if the value does not agree
/// with the type of the name; before it, for a compound assignment to a name
/// that nothing was assigned to, stands the use of that name. The scopes stay
/// as they are.
pub proof fn law_immutable_assignment(
    env: Env,
    name: Seq<u8>,
    pos: Position,
    op: AssignOp,
    value: ExprView,
)
    requires
        lookup(env, name) matches Some(symbol) && !symbol.mutable,
    ensures
        ({
            let symbol = lookup(env, name).unwrap();
            let flow = check_stmt(env, assignment(name, pos, op, value), None);
            let v = check_expr(env, value);
            let unread = if op != AssignOp::Plain && !symbol.initialized {
                seq![SemanticErrorView::UninitializedUse { name, pos }]
            } else {
                Seq::empty()
            };
            &&& flow.env == env
            &&& flow.errors == unread + seq![SemanticErrorView::ImmutableAssignment { name, pos }]
                + v.errors + require(symbol.ty, v.ty, value.pos)
        }),
{
    reveal_with_fuel(check_stmt, 1);
    reveal_with_fuel(check_assign, 1);
    reveal_with_fuel(check_expr, 1);
    lemma_resolve_within(env, name, env.len());
}

/// Reading a name that was declared without a value, before anything is
/// assigned to it, gives exactly one `UninitializedUse`, at the place where
/// the name is read.
pub proof fn law_use_before_assignment(env: Env, name: Seq<u8>, pos: Position)
    requires
        lookup(env, name) matches Some(symbol) && !symbol.initialized,
    ensures
        check_expr(env, name_at(name, pos)).errors == seq![
            SemanticErrorView::UninitializedUse { name, pos },
        ],
{
    reveal_with_fuel(check_expr, 1);
}

/// After an assignment to a mutable name, reading that name gives no error.
pub proof fn law_use_after_assignment(
    env: Env,
    name: Seq<u8>,
    at: Position,
    op: AssignOp,
    value: ExprView,
    pos: Position,
)
    requires
        lookup(env, name) matches Some(symbol) && symbol.mutable,
    ensures
        check_expr(
            check_stmt(env, assignment(name, at, op, value), None).env,
            name_at(name, pos),
        ).errors == Seq::<SemanticErrorView>::empty(),
{
    reveal_with_fuel(check_stmt, 1);
    reveal_with_fuel(check_assign, 1);
    reveal_with_fuel(check_expr, 1);
    lemma_resolve_within(env, name, env.len());
    let found = resolve(env, name).unwrap();
    let symbol = env[found.0 as int][found.1 as int];
    let ty = if crate::types::is_unknown(symbol.ty) {
        check_expr(env, value).ty
    } else {
        symbol.ty
    };
    let after = initialize(env, found, ty);
    assert(check_stmt(env, assignment(name, at, op, value), None).env == after);
    lemma_initialize_keeps_names(env, found, ty);
    lemma_resolve_by_names(env, after, name, env.len());
    assert(resolve(after, name) == Some(found));
    assert(after[found.0 as int][found.1 as int].initialized);
}

/// The errors of a program depend on the program alone: two analyses of one
/// program report the same errors in the same order.
pub proof fn law_analysis_is_repeatable(
    program: ProgramView,
    first: Seq<SemanticErrorView>,
    second: Seq<SemanticErrorView>,
)
    requires
        first == analysis(program),
        second == analysis(program),
    ensures
        first == second,
{
}

/// A name that was just declared is found, as it was declared, at the depth
/// of the innermost scope.
proof fn lemma_declared_is_found(env: Env, symbol: SymbolView)
    requires
        env.len() > 0,
    ensures
        lookup(declare(env, symbol), symbol.name) == Some(
            SymbolView { depth: (env.len() - 1) as nat, ..symbol },
        ),
{
    let after = declare(env, symbol);
    let top = env.len() - 1;
    let placed = SymbolView { depth: top as nat, ..symbol };
    lemma_first_index(env.last(), symbol.name, 0);
    lemma_first_index(after[top], symbol.name, 0);
    match index_of(env.last(), symbol.name) {
        Some(i) => {
            assert(after[top][i as int] == placed);
            assert forall|j: int| 0 <= j < i implies after[top][j].name != symbol.name by {
                assert(after[top][j] == env.last()[j]);
            }
            assert(index_of(after[top], symbol.name) == Some(i));
        },
        None => {
            let n = env.last().len();
            assert(after[top][n as int] == placed);
            assert forall|j: int| 0 <= j < n implies after[top][j].name != symbol.name by {
                assert(after[top][j] == env.last()[j]);
            }
            assert(index_of(after[top], symbol.name) == Some(n));
        },
    }
    assert(resolve_within(after, symbol.name, after.len()) == Some(
        (top as nat, index_of(after[top], symbol.name).unwrap()),
    ));
}

/// Behind a `let` with a value, in the same scope, the name is found and
/// initialized: reading it gives no error.
pub proof fn law_let_makes_a_name_readable(
    env: Env,
    name: Seq<u8>,
    mutable: bool,
    declared: Option<TypeView>,
    value: ExprView,
    pos: Position,
)
    requires
        env.len() > 0,
    ensures
        ({
            let s = StmtView::Let { name, mutable, declared, init: Some(value) };
            let after = check_stmt(env, s, None).env;
            &&& lookup(after, name) matches Some(symbol) && symbol.initialized && symbol.mutable
                == mutable
            &&& check_expr(after, name_at(name, pos)).errors == Seq::<SemanticErrorView>::empty()
        }),
{
    reveal_with_fuel(check_stmt, 1);
    reveal_with_fuel(check_let, 1);
    reveal_with_fuel(check_expr, 1);
    let ty = match declared {
        Some(d) => d,
        None => check_expr(env, value).ty,
    };
    lemma_declared_is_found(env, variable(name, ty, mutable, true));
}

/// A declared type is held against the value. The errors of
/// `let name: declared = value` are those in the value and, if the type of
/// the value does not agree with the declared type, one mismatch that names
/// both, at the value.
pub proof fn law_declared_type_is_required(
    env: Env,
    name: Seq<u8>,
    mutable: bool,
    declared: TypeView,
    value: ExprView,
)
    ensures
        ({
            let s = StmtView::Let { name, mutable, declared: Some(declared), init: Some(value) };
            let v = check_expr(env, value);
            check_stmt(env, s, None).errors == v.errors + require(declared, v.ty, value.pos)
        }),
{
    reveal_with_fuel(check_stmt, 1);
    reveal_with_fuel(check_let, 1);
    reveal_with_fuel(check_expr, 1);
}

/// An inferred type is held against a new value in the same way. The
/// errors of `name = value`, for a mutable name that something was assigned
/// to, are those in the value and, if the type of the value does not agree
/// with the type of the name, one mismatch that names both, at the value.
pub proof fn law_inferred_type_is_required(
    env: Env,
    name: Seq<u8>,
    pos: Position,
    value: ExprView,
)
    requires
        lookup(env, name) matches Some(symbol) && symbol.mutable && symbol.initialized,
    ensures
        ({
            let v = check_expr(env, value);
            check_stmt(env, assignment(name, pos, AssignOp::Plain, value), None).errors == v.errors
                + require(lookup(env, name).unwrap().ty, v.ty, value.pos)
        }),
{
    reveal_with_fuel(check_stmt, 1);
    reveal_with_fuel(check_assign, 1);
    reveal_with_fuel(check_expr, 1);
}

/// The expression `[value; size]` written at `pos`.
pub open spec fn repeat_at(value: ExprView, size: ExprView, pos: Position) -> ExprView {
    ExprView { kind: ExprKindView::ArrayRepeat(Box::new(value), Box::new(size)), pos }
}

/// An integer literal that fits in 64 bits sizes an array without error:
/// the errors of `[value; size]` are those in the value, and its type is the
/// array of the value's type and that size.
pub proof fn law_literal_size_is_valid(
    env: Env,
    value: ExprView,
    digits: Seq<u8>,
    size_pos: Position,
    pos: Position,
)
    requires
        all_digits(digits),
        decimal_value(digits) <= u64::MAX,
    ensures
        ({
            let size = ExprView { kind: ExprKindView::IntLit(digits), pos: size_pos };
            let v = check_expr(env, value);
            &&& check_expr(env, repeat_at(value, size, pos)).errors == v.errors
            &&& check_expr(env, repeat_at(value, size, pos)).ty == TypeView::Array(
                Box::new(v.ty),
                decimal_value(digits) as u64,
            )
        }),
{
    reveal_with_fuel(check_expr, 1);
    reveal_with_fuel(check_repeat, 1);
    let size = ExprView { kind: ExprKindView::IntLit(digits), pos: size_pos };
    let e = repeat_at(value, size, pos);
    assert(check_expr(env, e) == check_repeat(env, e));
}

/// A size that is neither an integer literal nor a name gives exactly one
/// `InvalidArraySize`, at the size, behind the errors in the value and in the
/// size itself.
pub proof fn law_other_size_is_invalid(env: Env, value: ExprView, size: ExprView, pos: Position)
    requires
        !(size.kind is IntLit),
        !(size.kind is Identifier),
    ensures
        check_expr(env, repeat_at(value, size, pos)).errors == check_expr(env, value).errors
            + check_expr(env, size).errors + seq![
            SemanticErrorView::InvalidArraySize { pos: size.pos },
        ],
{
    reveal_with_fuel(check_expr, 1);
    reveal_with_fuel(check_repeat, 1);
    let e = repeat_at(value, size, pos);
    assert(check_expr(env, e) == check_repeat(env, e));
    assert(!crate::rules::is_constant_name(env, size));
}

proof fn lemma_declare_items_well_formed(env: Env, items: Seq<ItemView>)
    requires
        env.len() > 0,
        well_formed(env),
    ensures
        well_formed(declare_items(env, items)),
        declare_items(env, items).len() == env.len(),
    decreases items.len(),
{
    if items.len() > 0 {
        lemma_declare_items_well_formed(env, items.drop_last());
        let before = declare_items(env, items.drop_last());
        match item_symbol(items.last()) {
            Some(symbol) => {
                lemma_declare_keeps_well_formed(before, symbol);
            },
            None => {},
        }
    }
}

/// The scopes in which a program is checked are well formed: one scope, the
/// outermost, that holds each top-level name once.
pub proof fn law_globals_are_well_formed(program: ProgramView)
    ensures
        well_formed(globals(program)),
        globals(program).len() == 1,
{
    let empty = seq![Seq::<SymbolView>::empty()];
    assert(well_formed(empty));
    lemma_declare_items_well_formed(empty, program.items);
}

/// A mismatch names two known types: the type `Unknown`, which stands in
/// after an error, is never reported as expected or as found, so that one
/// fault does not bring a second error with it.
pub proof fn law_unknown_is_never_reported(expected: TypeView, found: TypeView, pos: Position)
    ensures
        require(expected, found, pos).len() <= 1,
        require(expected, found, pos).len() == 1 ==> !(expected is Unknown) && !(found is Unknown)
            && require(expected, found, pos)[0] == (SemanticErrorView::TypeMismatch {
                expected,
                found,
                pos,
            }),
{
}

} // verus!
