//! Reading moves on and stays within the input: what holds of the grammar
//! on every row of tokens.
//!
//! Three things are proved of every function of [`crate::grammar`]: it uses
//! no more tokens than there are; a construct that cannot be read comes with
//! an error that says so; and a whole construct that is read is made of at
//! least one token.

use vstd::prelude::*;
use crate::ast::{
    ExprKindView, ExprView, FieldInitView, FieldView, FunctionView, ItemView, ParamView,
    SignatureView, StmtView,
};
use crate::grammar::{
    item_skip, left, parse_binary, parse_binary_rest, parse_binding, parse_block, parse_bracket,
    parse_closure_params, parse_closure_tail, parse_const, parse_enum, parse_expr, parse_expr_list,
    parse_expr_stmt, parse_field_inits, parse_fields, parse_for, parse_function, parse_head,
    parse_if, parse_impl, parse_impl_methods, parse_item, parse_items, parse_let,
    parse_macro_call, parse_named, parse_operand, parse_param, parse_params, parse_paren,
    parse_path_rest, parse_postfix, parse_postfix_rest, parse_primary, parse_repeat_size,
    parse_return, parse_return_type, parse_signature, parse_static, parse_stmt, parse_stmts,
    parse_struct, parse_trait, parse_trait_methods, parse_type, parse_type_annotation,
    parse_type_list, parse_unary, parse_variants, parse_while, binary_op_at, binary_rank,
    has_punct, stmt_skip, text_at, Parsed,
};
use crate::token::{Macro, Punctuation, TokenView};
use crate::types::TypeView;

verus! {

/// What was read began at token `pos`: it ends within the input, and if
/// there is no tree there is an error.
pub open spec fn sane<T>(r: Parsed<T>, toks: Seq<TokenView>, pos: nat) -> bool {
    &&& pos + r.used <= toks.len()
    &&& r.node is None ==> r.errors.len() >= 1
}

/// As [`sane`], and a tree was read from one token at least.
pub open spec fn moved<T>(r: Parsed<T>, toks: Seq<TokenView>, pos: nat) -> bool {
    &&& sane(r, toks, pos)
    &&& r.node is Some ==> r.used >= 1
}

#[verifier::spinoff_prover]
proof fn lemma_type(toks: Seq<TokenView>, pos: nat)
    requires
        pos <= toks.len(),
    ensures
        moved(parse_type(toks, pos), toks, pos),
    decreases left(toks, pos), 1nat,
{
    reveal_with_fuel(parse_type, 1);
    reveal_with_fuel(parse_type_list, 1);
    if pos < toks.len() {
        lemma_type(toks, pos + 1);
        lemma_type_list(toks, pos + 1, Seq::empty());
        if pos + 1 < toks.len() {
            lemma_type(toks, pos + 2);
        }
    }
}

#[verifier::spinoff_prover]
proof fn lemma_type_list(toks: Seq<TokenView>, pos: nat, acc: Seq<TypeView>)
    requires
        pos <= toks.len(),
    ensures
        moved(parse_type_list(toks, pos, acc), toks, pos),
    decreases left(toks, pos), 2nat,
{
    reveal_with_fuel(parse_type_list, 1);
    reveal_with_fuel(parse_type, 1);
    lemma_type(toks, pos);
    let first = parse_type(toks, pos);
    if first.node is Some && pos + first.used < toks.len() {
        lemma_type_list(toks, pos + first.used + 1, acc.push(first.node.unwrap()));
    }
}

#[verifier::spinoff_prover]
proof fn lemma_type_annotation(toks: Seq<TokenView>, pos: nat)
    requires
        pos <= toks.len(),
    ensures
        sane(parse_type_annotation(toks, pos), toks, pos),
        sane(parse_return_type(toks, pos), toks, pos),
{
    reveal(parse_type_annotation);
    reveal(parse_return_type);
    reveal_with_fuel(parse_type, 1);
    if pos < toks.len() {
        lemma_type(toks, pos + 1);
    }
}

#[verifier::spinoff_prover]
proof fn lemma_closure_params(toks: Seq<TokenView>, pos: nat, acc: Seq<ParamView>)
    requires
        pos <= toks.len(),
    ensures
        moved(parse_closure_params(toks, pos, acc), toks, pos),
    decreases left(toks, pos),
{
    reveal_with_fuel(parse_closure_params, 1);
    reveal(parse_type_annotation);
    if pos < toks.len() {
        lemma_type_annotation(toks, pos + 1);
        let ty = parse_type_annotation(toks, pos + 1).shifted(1);
        if ty.node is Some && pos + ty.used < toks.len() {
            let param = ParamView { name: text_at(toks, pos), ty: ty.node.unwrap() };
            lemma_closure_params(toks, pos + ty.used + 1, acc.push(param));
        }
    }
}

#[verifier::spinoff_prover]
proof fn lemma_path_rest(toks: Seq<TokenView>, pos: nat, acc: Seq<Seq<u8>>)
    requires
        pos <= toks.len(),
    ensures
        sane(parse_path_rest(toks, pos, acc), toks, pos),
    decreases left(toks, pos),
{
    reveal_with_fuel(parse_path_rest, 1);
    if pos + 1 < toks.len() {
        lemma_path_rest(toks, pos + 2, acc.push(text_at(toks, pos + 1)));
    }
}

#[verifier::spinoff_prover]
proof fn lemma_expr(toks: Seq<TokenView>, pos: nat, st: bool)
    requires
        pos <= toks.len(),
    ensures
        moved(parse_expr(toks, pos, st), toks, pos),
    decreases left(toks, pos), 60nat,
{
    reveal_with_fuel(parse_expr, 1);
    reveal_with_fuel(parse_binary, 1);
    lemma_binary(toks, pos, 0, st);
    let lhs = parse_binary(toks, pos, 0, st);
    if pos + lhs.used < toks.len() {
        lemma_binary(toks, pos + lhs.used + 1, 0, st);
    }
}

#[verifier::spinoff_prover]
proof fn lemma_binary(toks: Seq<TokenView>, pos: nat, level: nat, st: bool)
    requires
        pos <= toks.len(),
    ensures
        moved(parse_binary(toks, pos, level, st), toks, pos),
    decreases left(toks, pos), binary_rank(level),
{
    reveal_with_fuel(parse_binary, 1);
    reveal_with_fuel(parse_operand, 1);
    reveal_with_fuel(parse_binary_rest, 1);
    lemma_operand(toks, pos, level, st);
    let lhs = parse_operand(toks, pos, level, st);
    if lhs.node is Some {
        lemma_binary_rest(toks, pos + lhs.used, level, st, lhs.node.unwrap());
    }
}

#[verifier::spinoff_prover]
proof fn lemma_operand(toks: Seq<TokenView>, pos: nat, level: nat, st: bool)
    requires
        pos <= toks.len(),
    ensures
        moved(parse_operand(toks, pos, level, st), toks, pos),
    decreases left(toks, pos), (binary_rank(level) - 2) as nat,
{
    reveal_with_fuel(parse_operand, 1);
    reveal_with_fuel(parse_binary, 1);
    reveal_with_fuel(parse_unary, 1);
    if level < 4 {
        lemma_binary(toks, pos, level + 1, st);
    } else {
        lemma_unary(toks, pos, st);
    }
}

#[verifier::spinoff_prover]
proof fn lemma_binary_rest(
    toks: Seq<TokenView>,
    pos: nat,
    level: nat,
    st: bool,
    lhs: ExprView,
)
    requires
        pos <= toks.len(),
    ensures
        sane(parse_binary_rest(toks, pos, level, st, lhs), toks, pos),
    decreases left(toks, pos), (binary_rank(level) - 1) as nat,
{
    reveal_with_fuel(parse_binary_rest, 1);
    reveal_with_fuel(parse_operand, 1);
    if pos < toks.len() {
        match binary_op_at(toks, pos, level) {
            Some(op) => {
                lemma_operand(toks, pos + 1, level, st);
                let rhs = parse_operand(toks, pos + 1, level, st).shifted(1);
                if rhs.node is Some {
                    lemma_binary_rest(
                        toks,
                        pos + rhs.used,
                        level,
                        st,
                        ExprView {
                            kind: ExprKindView::Binary(
                                op,
                                Box::new(lhs),
                                Box::new(rhs.node.unwrap()),
                            ),
                            pos: lhs.pos,
                        },
                    );
                }
            },
            None => {},
        }
    }
}

#[verifier::spinoff_prover]
proof fn lemma_unary(toks: Seq<TokenView>, pos: nat, st: bool)
    requires
        pos <= toks.len(),
    ensures
        moved(parse_unary(toks, pos, st), toks, pos),
    decreases left(toks, pos), 30nat,
{
    reveal_with_fuel(parse_unary, 1);
    reveal_with_fuel(parse_postfix, 1);
    if pos < toks.len() {
        lemma_unary(toks, pos + 1, st);
        if pos + 1 < toks.len() {
            lemma_unary(toks, pos + 2, st);
        }
    }
    lemma_postfix(toks, pos, st);
}

#[verifier::spinoff_prover]
proof fn lemma_postfix(toks: Seq<TokenView>, pos: nat, st: bool)
    requires
        pos <= toks.len(),
    ensures
        moved(parse_postfix(toks, pos, st), toks, pos),
    decreases left(toks, pos), 25nat,
{
    reveal_with_fuel(parse_postfix, 1);
    reveal_with_fuel(parse_primary, 1);
    reveal_with_fuel(parse_postfix_rest, 1);
    lemma_primary(toks, pos, st);
    let head = parse_primary(toks, pos, st);
    if head.node is Some {
        lemma_postfix_rest(toks, pos + head.used, head.node.unwrap());
    }
}

#[verifier::spinoff_prover]
proof fn lemma_postfix_rest(toks: Seq<TokenView>, pos: nat, head: ExprView)
    requires
        pos <= toks.len(),
    ensures
        sane(parse_postfix_rest(toks, pos, head), toks, pos),
    decreases left(toks, pos), 24nat,
{
    reveal_with_fuel(parse_postfix_rest, 1);
    reveal_with_fuel(parse_expr_list, 1);
    if pos < toks.len() {
        lemma_expr_list(toks, pos + 1, Punctuation::RParen, Seq::empty());
        let args = parse_expr_list(toks, pos + 1, Punctuation::RParen, Seq::empty()).shifted(1);
        if args.node is Some {
            lemma_postfix_rest(
                toks,
                pos + args.used,
                ExprView {
                    kind: ExprKindView::Call(Box::new(head), args.node.unwrap()),
                    pos: head.pos,
                },
            );
        }
        if pos + 1 < toks.len() {
            lemma_postfix_rest(
                toks,
                pos + 2,
                ExprView {
                    kind: ExprKindView::FieldAccess(Box::new(head), text_at(toks, pos + 1)),
                    pos: head.pos,
                },
            );
        }
    }
}

#[verifier::spinoff_prover]
proof fn lemma_expr_list(
    toks: Seq<TokenView>,
    pos: nat,
    closer: Punctuation,
    acc: Seq<ExprView>,
)
    requires
        pos <= toks.len(),
    ensures
        moved(parse_expr_list(toks, pos, closer, acc), toks, pos),
    decreases left(toks, pos), 70nat,
{
    reveal_with_fuel(parse_expr_list, 1);
    reveal_with_fuel(parse_expr, 1);
    lemma_expr(toks, pos, true);
    let first = parse_expr(toks, pos, true);
    if first.node is Some && pos + first.used < toks.len() {
        lemma_expr_list(toks, pos + first.used + 1, closer, acc.push(first.node.unwrap()));
    }
}

#[verifier::spinoff_prover]
proof fn lemma_field_inits(toks: Seq<TokenView>, pos: nat, acc: Seq<FieldInitView>)
    requires
        pos <= toks.len(),
    ensures
        moved(parse_field_inits(toks, pos, acc), toks, pos),
    decreases left(toks, pos), 70nat,
{
    reveal_with_fuel(parse_field_inits, 1);
    reveal_with_fuel(parse_expr, 1);
    if pos + 1 < toks.len() {
        lemma_expr(toks, pos + 2, true);
        let value = parse_expr(toks, pos + 2, true).shifted(2);
        if value.node is Some && pos + value.used < toks.len() {
            let field = FieldInitView { name: text_at(toks, pos), value: value.node.unwrap() };
            lemma_field_inits(toks, pos + value.used + 1, acc.push(field));
        }
    }
}

#[verifier::spinoff_prover]
proof fn lemma_closure_tail(
    toks: Seq<TokenView>,
    pos: nat,
    st: bool,
    start: nat,
    params: Seq<ParamView>,
)
    requires
        pos <= toks.len(),
    ensures
        sane(parse_closure_tail(toks, pos, st, start, params), toks, pos),
    decreases left(toks, pos), 65nat,
{
    reveal_with_fuel(parse_closure_tail, 1);
    reveal_with_fuel(parse_block, 1);
    reveal_with_fuel(parse_expr, 1);
    reveal(parse_return_type);
    lemma_type_annotation(toks, pos);
    let ret = parse_return_type(toks, pos);
    lemma_block(toks, pos + ret.used);
    lemma_expr(toks, pos + ret.used, st);
}

#[verifier::spinoff_prover]
proof fn lemma_primary(toks: Seq<TokenView>, pos: nat, st: bool)
    requires
        pos <= toks.len(),
    ensures
        moved(parse_primary(toks, pos, st), toks, pos),
    decreases left(toks, pos), 20nat,
{
    reveal_with_fuel(parse_primary, 1);
    reveal_with_fuel(parse_named, 1);
    reveal_with_fuel(parse_macro_call, 1);
    reveal_with_fuel(parse_paren, 1);
    reveal_with_fuel(parse_bracket, 1);
    reveal_with_fuel(parse_closure_tail, 1);
    reveal_with_fuel(parse_closure_params, 1);
    if pos < toks.len() {
        lemma_named(toks, pos, st);
        match crate::grammar::kind_at(toks, pos) {
            Some(crate::token::TokenKind::MacroName(m)) => {
                lemma_macro_call(toks, pos, m);
            },
            _ => {},
        }
        lemma_paren(toks, pos);
        lemma_bracket(toks, pos);
        lemma_closure_tail(toks, pos + 1, st, pos, Seq::empty());
        lemma_closure_params(toks, pos + 1, Seq::empty());
        let params = parse_closure_params(toks, pos + 1, Seq::empty()).shifted(1);
        if params.node is Some {
            lemma_closure_tail(toks, pos + params.used, st, pos, params.node.unwrap());
        }
    }
}

#[verifier::spinoff_prover]
proof fn lemma_named(toks: Seq<TokenView>, pos: nat, st: bool)
    requires
        pos < toks.len(),
    ensures
        moved(parse_named(toks, pos, st), toks, pos),
    decreases left(toks, pos), 19nat,
{
    reveal_with_fuel(parse_named, 1);
    reveal_with_fuel(parse_field_inits, 1);
    reveal_with_fuel(parse_path_rest, 1);
    lemma_path_rest(toks, pos + 1, seq![text_at(toks, pos)]);
    if pos + 1 < toks.len() {
        lemma_field_inits(toks, pos + 2, Seq::empty());
    }
}

#[verifier::spinoff_prover]
proof fn lemma_macro_call(toks: Seq<TokenView>, pos: nat, m: Macro)
    requires
        pos < toks.len(),
    ensures
        moved(parse_macro_call(toks, pos, m), toks, pos),
    decreases left(toks, pos), 19nat,
{
    reveal_with_fuel(parse_macro_call, 1);
    reveal_with_fuel(parse_expr_list, 1);
    if pos + 1 < toks.len() {
        lemma_expr_list(toks, pos + 2, Punctuation::RParen, Seq::empty());
    }
}

#[verifier::spinoff_prover]
proof fn lemma_paren(toks: Seq<TokenView>, pos: nat)
    requires
        pos <= toks.len(),
    ensures
        moved(parse_paren(toks, pos), toks, pos),
    decreases left(toks, pos), 19nat,
{
    reveal_with_fuel(parse_paren, 1);
    reveal_with_fuel(parse_expr, 1);
    reveal_with_fuel(parse_expr_list, 1);
    if pos < toks.len() {
        lemma_expr(toks, pos + 1, true);
        let first = parse_expr(toks, pos + 1, true).shifted(1);
        if first.node is Some && pos + first.used < toks.len() {
            lemma_expr_list(
                toks,
                pos + first.used + 1,
                Punctuation::RParen,
                seq![first.node.unwrap()],
            );
        }
    }
}

#[verifier::spinoff_prover]
proof fn lemma_bracket(toks: Seq<TokenView>, pos: nat)
    requires
        pos <= toks.len(),
    ensures
        moved(parse_bracket(toks, pos), toks, pos),
    decreases left(toks, pos), 19nat,
{
    reveal_with_fuel(parse_bracket, 1);
    reveal_with_fuel(parse_expr, 1);
    reveal_with_fuel(parse_expr_list, 1);
    reveal_with_fuel(parse_repeat_size, 1);
    if pos < toks.len() {
        lemma_expr(toks, pos + 1, true);
        let first = parse_expr(toks, pos + 1, true).shifted(1);
        if first.node is Some && pos + first.used < toks.len() {
            lemma_expr_list(
                toks,
                pos + first.used + 1,
                Punctuation::RBracket,
                seq![first.node.unwrap()],
            );
            lemma_repeat_size(toks, pos + first.used + 1, pos, first.node.unwrap());
        }
    }
}

#[verifier::spinoff_prover]
proof fn lemma_repeat_size(toks: Seq<TokenView>, pos: nat, start: nat, value: ExprView)
    requires
        pos <= toks.len(),
    ensures
        sane(parse_repeat_size(toks, pos, start, value), toks, pos),
    decreases left(toks, pos), 65nat,
{
    reveal_with_fuel(parse_repeat_size, 1);
    reveal_with_fuel(parse_expr, 1);
    lemma_expr(toks, pos, true);
}

#[verifier::spinoff_prover]
proof fn lemma_block(toks: Seq<TokenView>, pos: nat)
    requires
        pos <= toks.len(),
    ensures
        moved(parse_block(toks, pos), toks, pos),
    decreases left(toks, pos), 10nat,
{
    reveal_with_fuel(parse_block, 1);
    reveal_with_fuel(parse_stmts, 1);
    if pos < toks.len() {
        lemma_stmts(toks, pos + 1, Seq::empty());
    }
}

/// The tokens dropped behind a broken statement lie within the input.
#[verifier::spinoff_prover]
proof fn lemma_stmt_skip(toks: Seq<TokenView>, pos: nat)
    requires
        pos <= toks.len(),
    ensures
        pos + stmt_skip(toks, pos) <= toks.len(),
        pos < toks.len() && !has_punct(toks, pos, Punctuation::RBrace) ==> stmt_skip(toks, pos)
            >= 1,
    decreases left(toks, pos),
{
    if pos < toks.len() {
        lemma_stmt_skip(toks, pos + 1);
    }
}

/// The tokens dropped behind a broken item lie within the input.
#[verifier::spinoff_prover]
proof fn lemma_item_skip(toks: Seq<TokenView>, pos: nat)
    requires
        pos <= toks.len(),
    ensures
        pos + item_skip(toks, pos) <= toks.len(),
        pos < toks.len() ==> item_skip(toks, pos) >= 1,
    decreases left(toks, pos),
{
    if pos < toks.len() {
        lemma_item_skip(toks, pos + 1);
    }
}

/// What one step of reading statements takes: the statement, and if it
/// broke, the tokens dropped behind it.
pub open spec fn stmt_step(toks: Seq<TokenView>, pos: nat) -> nat {
    let first = parse_stmt(toks, pos);
    match first.node {
        Some(_) => first.used,
        None => first.used + stmt_skip(toks, pos + first.used),
    }
}

#[verifier::spinoff_prover]
proof fn lemma_stmts(toks: Seq<TokenView>, pos: nat, acc: Seq<StmtView>)
    requires
        pos <= toks.len(),
    ensures
        sane(parse_stmts(toks, pos, acc), toks, pos),
        parse_stmts(toks, pos, acc).node is Some,
        pos < toks.len() && !has_punct(toks, pos, Punctuation::RBrace) ==> stmt_step(toks, pos)
            >= 1,
    decreases left(toks, pos), 80nat,
{
    reveal_with_fuel(parse_stmts, 1);
    reveal_with_fuel(parse_stmt, 1);
    if pos < toks.len() && !has_punct(toks, pos, Punctuation::RBrace) {
        lemma_stmt(toks, pos);
        let first = parse_stmt(toks, pos);
        lemma_stmt_skip(toks, pos + first.used);
        let step = stmt_step(toks, pos);
        assert(step >= 1);
        let next = match first.node {
            Some(s) => acc.push(s),
            None => acc,
        };
        lemma_stmts(toks, pos + step, next);
    }
}

#[verifier::spinoff_prover]
proof fn lemma_stmt(toks: Seq<TokenView>, pos: nat)
    requires
        pos <= toks.len(),
    ensures
        moved(parse_stmt(toks, pos), toks, pos),
    decreases left(toks, pos), 75nat,
{
    reveal_with_fuel(parse_stmt, 1);
    reveal_with_fuel(parse_let, 1);
    reveal_with_fuel(parse_if, 1);
    reveal_with_fuel(parse_while, 1);
    reveal_with_fuel(parse_for, 1);
    reveal_with_fuel(parse_return, 1);
    reveal_with_fuel(parse_expr_stmt, 1);
    reveal_with_fuel(parse_block, 1);
    lemma_let(toks, pos);
    lemma_if(toks, pos);
    lemma_while(toks, pos);
    lemma_for(toks, pos);
    lemma_return(toks, pos);
    lemma_expr_stmt(toks, pos);
    if pos < toks.len() {
        lemma_block(toks, pos + 1);
    }
}

#[verifier::spinoff_prover]
proof fn lemma_while(toks: Seq<TokenView>, pos: nat)
    requires
        pos <= toks.len(),
    ensures
        moved(parse_while(toks, pos), toks, pos),
    decreases left(toks, pos), 72nat,
{
    reveal_with_fuel(parse_while, 1);
    reveal_with_fuel(parse_expr, 1);
    reveal_with_fuel(parse_block, 1);
    if pos < toks.len() {
        lemma_expr(toks, pos + 1, false);
        let cond = parse_expr(toks, pos + 1, false).shifted(1);
        lemma_block(toks, pos + cond.used);
    }
}

#[verifier::spinoff_prover]
proof fn lemma_for(toks: Seq<TokenView>, pos: nat)
    requires
        pos <= toks.len(),
    ensures
        moved(parse_for(toks, pos), toks, pos),
    decreases left(toks, pos), 72nat,
{
    reveal_with_fuel(parse_for, 1);
    reveal_with_fuel(parse_expr, 1);
    reveal_with_fuel(parse_block, 1);
    if pos + 2 < toks.len() {
        lemma_expr(toks, pos + 3, false);
        let range = parse_expr(toks, pos + 3, false).shifted(3);
        lemma_block(toks, pos + range.used);
    }
}

#[verifier::spinoff_prover]
proof fn lemma_return(toks: Seq<TokenView>, pos: nat)
    requires
        pos <= toks.len(),
    ensures
        moved(parse_return(toks, pos), toks, pos),
    decreases left(toks, pos), 72nat,
{
    reveal_with_fuel(parse_return, 1);
    reveal_with_fuel(parse_expr, 1);
    if pos < toks.len() {
        lemma_expr(toks, pos + 1, true);
    }
}

#[verifier::spinoff_prover]
proof fn lemma_expr_stmt(toks: Seq<TokenView>, pos: nat)
    requires
        pos <= toks.len(),
    ensures
        moved(parse_expr_stmt(toks, pos), toks, pos),
    decreases left(toks, pos), 72nat,
{
    reveal_with_fuel(parse_expr_stmt, 1);
    reveal_with_fuel(parse_expr, 1);
    lemma_expr(toks, pos, true);
    let target = parse_expr(toks, pos, true);
    if pos + target.used < toks.len() {
        lemma_expr(toks, pos + target.used + 1, true);
    }
}

#[verifier::spinoff_prover]
proof fn lemma_let(toks: Seq<TokenView>, pos: nat)
    requires
        pos <= toks.len(),
    ensures
        moved(parse_let(toks, pos), toks, pos),
    decreases left(toks, pos), 72nat,
{
    reveal_with_fuel(parse_let, 1);
    reveal_with_fuel(parse_expr, 1);
    reveal(parse_type_annotation);
    let at: nat = if crate::grammar::has_keyword(toks, pos + 1, crate::token::Keyword::Mut) {
        2
    } else {
        1
    };
    if pos + at < toks.len() {
        lemma_type_annotation(toks, pos + at + 1);
        let ty = parse_type_annotation(toks, pos + at + 1).shifted(at + 1);
        if pos + ty.used < toks.len() {
            lemma_expr(toks, pos + ty.used + 1, true);
        }
    }
}

#[verifier::spinoff_prover]
proof fn lemma_if(toks: Seq<TokenView>, pos: nat)
    requires
        pos <= toks.len(),
    ensures
        moved(parse_if(toks, pos), toks, pos),
    decreases left(toks, pos), 72nat,
{
    reveal_with_fuel(parse_if, 1);
    reveal_with_fuel(parse_expr, 1);
    reveal_with_fuel(parse_block, 1);
    if pos < toks.len() {
        lemma_expr(toks, pos + 1, false);
        let cond = parse_expr(toks, pos + 1, false).shifted(1);
        lemma_block(toks, pos + cond.used);
        let then_block = parse_block(toks, pos + cond.used).after(cond);
        if pos + then_block.used < toks.len() {
            lemma_if(toks, pos + then_block.used + 1);
            lemma_block(toks, pos + then_block.used + 1);
        }
    }
}

#[verifier::spinoff_prover]
proof fn lemma_param(toks: Seq<TokenView>, pos: nat)
    requires
        pos <= toks.len(),
    ensures
        moved(parse_param(toks, pos), toks, pos),
{
    reveal(parse_param);
    reveal_with_fuel(parse_type, 1);
    if pos + 1 < toks.len() {
        lemma_type(toks, pos + 2);
    }
}

#[verifier::spinoff_prover]
proof fn lemma_params(toks: Seq<TokenView>, pos: nat, acc: Seq<ParamView>)
    requires
        pos <= toks.len(),
    ensures
        moved(parse_params(toks, pos, acc), toks, pos),
    decreases left(toks, pos),
{
    reveal_with_fuel(parse_params, 1);
    reveal(parse_param);
    lemma_param(toks, pos);
    let param = parse_param(toks, pos);
    if param.node is Some && pos + param.used < toks.len() {
        lemma_params(toks, pos + param.used + 1, acc.push(param.node.unwrap()));
    }
}

#[verifier::spinoff_prover]
proof fn lemma_signature(toks: Seq<TokenView>, pos: nat)
    requires
        pos <= toks.len(),
    ensures
        moved(parse_signature(toks, pos), toks, pos),
{
    reveal(parse_signature);
    reveal_with_fuel(parse_params, 1);
    reveal(parse_return_type);
    if pos + 2 < toks.len() {
        lemma_params(toks, pos + 3, Seq::empty());
        let params = parse_params(toks, pos + 3, Seq::empty()).shifted(3);
        lemma_type_annotation(toks, pos + params.used);
    }
}

#[verifier::spinoff_prover]
proof fn lemma_function(toks: Seq<TokenView>, pos: nat)
    requires
        pos <= toks.len(),
    ensures
        moved(parse_function(toks, pos), toks, pos),
{
    reveal(parse_function);
    reveal(parse_signature);
    reveal_with_fuel(parse_block, 1);
    lemma_signature(toks, pos);
    let sig = parse_signature(toks, pos);
    lemma_block(toks, pos + sig.used);
}

#[verifier::spinoff_prover]
proof fn lemma_fields(toks: Seq<TokenView>, pos: nat, acc: Seq<FieldView>)
    requires
        pos <= toks.len(),
    ensures
        moved(parse_fields(toks, pos, acc), toks, pos),
    decreases left(toks, pos),
{
    reveal_with_fuel(parse_fields, 1);
    reveal_with_fuel(parse_type, 1);
    if pos + 1 < toks.len() {
        lemma_type(toks, pos + 2);
        let ty = parse_type(toks, pos + 2).shifted(2);
        if ty.node is Some && pos + ty.used < toks.len() {
            let field = FieldView { name: text_at(toks, pos), ty: ty.node.unwrap() };
            lemma_fields(toks, pos + ty.used + 1, acc.push(field));
        }
    }
}

#[verifier::spinoff_prover]
proof fn lemma_variants(toks: Seq<TokenView>, pos: nat, acc: Seq<Seq<u8>>)
    requires
        pos <= toks.len(),
    ensures
        moved(parse_variants(toks, pos, acc), toks, pos),
    decreases left(toks, pos),
{
    reveal_with_fuel(parse_variants, 1);
    if pos + 1 < toks.len() {
        lemma_variants(toks, pos + 2, acc.push(text_at(toks, pos)));
    }
}

#[verifier::spinoff_prover]
proof fn lemma_trait_methods(toks: Seq<TokenView>, pos: nat, acc: Seq<SignatureView>)
    requires
        pos <= toks.len(),
    ensures
        moved(parse_trait_methods(toks, pos, acc), toks, pos),
    decreases left(toks, pos),
{
    reveal_with_fuel(parse_trait_methods, 1);
    reveal(parse_signature);
    lemma_signature(toks, pos);
    let sig = parse_signature(toks, pos);
    if sig.node is Some && pos + sig.used < toks.len() {
        lemma_trait_methods(toks, pos + sig.used + 1, acc.push(sig.node.unwrap()));
    }
}

#[verifier::spinoff_prover]
proof fn lemma_impl_methods(toks: Seq<TokenView>, pos: nat, acc: Seq<FunctionView>)
    requires
        pos <= toks.len(),
    ensures
        moved(parse_impl_methods(toks, pos, acc), toks, pos),
    decreases left(toks, pos),
{
    reveal_with_fuel(parse_impl_methods, 1);
    reveal(parse_function);
    if pos < toks.len() {
        lemma_function(toks, pos);
        let method = parse_function(toks, pos);
        if method.node is Some {
            lemma_impl_methods(toks, pos + method.used, acc.push(method.node.unwrap()));
        }
    }
}

#[verifier::spinoff_prover]
proof fn lemma_binding(toks: Seq<TokenView>, pos: nat, at: nat)
    requires
        pos + at <= toks.len(),
    ensures
        sane(parse_binding(toks, pos, at), toks, pos),
        parse_binding(toks, pos, at).used >= at,
{
    reveal(parse_binding);
    reveal_with_fuel(parse_type, 1);
    reveal_with_fuel(parse_expr, 1);
    if pos + at < toks.len() {
        lemma_type(toks, pos + at + 1);
        let ty = parse_type(toks, pos + at + 1).shifted(at + 1);
        if pos + ty.used < toks.len() {
            lemma_expr(toks, pos + ty.used + 1, true);
        }
    }
}

#[verifier::spinoff_prover]
proof fn lemma_head(toks: Seq<TokenView>, pos: nat)
    requires
        pos < toks.len(),
    ensures
        moved(parse_head(toks, pos), toks, pos),
{
    reveal(parse_head);
}

#[verifier::spinoff_prover]
proof fn lemma_item(toks: Seq<TokenView>, pos: nat)
    requires
        pos <= toks.len(),
    ensures
        moved(parse_item(toks, pos), toks, pos),
{
    reveal(parse_item);
    reveal(parse_const);
    reveal(parse_static);
    reveal(parse_struct);
    reveal(parse_enum);
    reveal(parse_trait);
    reveal(parse_impl);
    reveal(parse_function);
    reveal(parse_head);
    reveal(parse_binding);
    reveal_with_fuel(parse_fields, 1);
    reveal_with_fuel(parse_variants, 1);
    reveal_with_fuel(parse_trait_methods, 1);
    reveal_with_fuel(parse_impl_methods, 1);
    lemma_function(toks, pos);
    if pos < toks.len() {
        lemma_head(toks, pos);
        let head = parse_head(toks, pos);
        lemma_fields(toks, pos + head.used, Seq::empty());
        lemma_variants(toks, pos + head.used, Seq::empty());
        lemma_trait_methods(toks, pos + head.used, Seq::empty());
        lemma_impl_methods(toks, pos + head.used, Seq::empty());
        if pos + 1 < toks.len() {
            lemma_binding(toks, pos, 2);
            if pos + 2 < toks.len() {
                lemma_binding(toks, pos, 3);
                lemma_head(toks, pos + 2);
                let far = parse_head(toks, pos + 2).shifted(2);
                lemma_impl_methods(toks, pos + far.used, Seq::empty());
            }
        }
    }
}

/// What one step of reading items takes: the item, and if it broke, the
/// tokens dropped behind it.
pub open spec fn item_step(toks: Seq<TokenView>, pos: nat) -> nat {
    let first = parse_item(toks, pos);
    match first.node {
        Some(_) => first.used,
        None => first.used + item_skip(toks, pos + first.used),
    }
}

#[verifier::spinoff_prover]
proof fn lemma_items(toks: Seq<TokenView>, pos: nat, acc: Seq<ItemView>)
    requires
        pos <= toks.len(),
    ensures
        parse_items(toks, pos, acc).node is Some,
        pos + parse_items(toks, pos, acc).used == toks.len(),
        pos < toks.len() ==> item_step(toks, pos) >= 1,
    decreases left(toks, pos),
{
    reveal_with_fuel(parse_items, 1);
    reveal(parse_item);
    if pos < toks.len() {
        lemma_item(toks, pos);
        let first = parse_item(toks, pos);
        lemma_item_skip(toks, pos + first.used);
        let step = item_step(toks, pos);
        assert(step >= 1);
        let next = match first.node {
            Some(item) => acc.push(item),
            None => acc,
        };
        lemma_items(toks, pos + step, next);
    }
}

/// Reading stays within the input and says when it fails. An expression, a
/// statement, a block, an item or a type that is read from token `pos` on
/// ends within the input; if it cannot be read, at least one error is
/// recorded; and if it is read, it is made of at least one token.
#[verifier::spinoff_prover]
pub proof fn law_reading_is_sane(toks: Seq<TokenView>, pos: nat, st: bool)
    requires
        pos <= toks.len(),
    ensures
        moved(parse_expr(toks, pos, st), toks, pos),
        moved(parse_stmt(toks, pos), toks, pos),
        moved(parse_block(toks, pos), toks, pos),
        moved(parse_item(toks, pos), toks, pos),
        moved(parse_type(toks, pos), toks, pos),
{
    lemma_expr(toks, pos, st);
    lemma_stmt(toks, pos);
    lemma_block(toks, pos);
    lemma_item(toks, pos);
    lemma_type(toks, pos);
}

/// Every step takes a token. Where statements or items are read one after
/// the other, each step, a construct read or a broken one with the tokens
/// dropped behind it, takes at least one token: no step of the grammar stands
/// still. Reading a program always gives a program, and takes every token of
/// the input.
#[verifier::spinoff_prover]
pub proof fn law_every_step_takes_a_token(toks: Seq<TokenView>, pos: nat)
    requires
        pos < toks.len(),
    ensures
        item_step(toks, pos) >= 1,
        !has_punct(toks, pos, Punctuation::RBrace) ==> stmt_step(toks, pos) >= 1,
        parse_items(toks, 0, Seq::empty()).node is Some,
        parse_items(toks, 0, Seq::empty()).used == toks.len(),
{
    lemma_items(toks, pos, Seq::empty());
    lemma_stmts(toks, pos, Seq::empty());
    lemma_items(toks, 0, Seq::empty());
}

} // verus!
