//! The parser: a row of tokens in, a program and its syntax errors out.
//!
//! Every function here reads what its namesake in [`crate::grammar`]
//! describes, and its contract says so.

use vstd::prelude::*;
use crate::ast::{
    expr_view, exprs_view, field_inits_view, fields_view, function_view, functions_view,
    item_view, items_view, names_view, no_exprs, no_field_inits, no_fields, no_functions,
    no_items, no_names, no_params, no_signatures, no_stmts, one_expr, one_name, one_stmt,
    option_expr_view, option_exprs_view, option_names_view, option_params_view,
    option_stmt_view, option_stmts_view, param_view, params_view, push_expr, push_field,
    push_field_init, push_function, push_item, push_name, push_param, push_signature,
    push_stmt, signature_view, signatures_view, stmts_view, AssignOp, BinaryOp, ClosureBody,
    Expr, ExprKind, ExprView, Field, FieldInit, FieldInitView, FieldView, Function, FunctionView, Item,
    ItemView, Param, ParamView, Program, Signature, SignatureView, Stmt, UnaryOp,
};
use crate::grammar;
use crate::grammar::{Expected, Parsed, SyntaxError, SyntaxErrorKind};
use crate::text::{copy_bytes, parse_decimal, same_bytes};
use crate::token::{
    tokens_view, Keyword, Macro, Operator, Position, Punctuation, Token, TokenKind,
};
use crate::types::{option_type_view, type_view, types_view, Primitive, Type, TypeView};

verus! {

/// Whether a parsing function did what the grammar says: it returned the
/// tree `node`, stopped at token `end`, and added the grammar's errors to
/// those recorded `before`.
pub open spec fn reads<V>(
    spec: Parsed<V>,
    node: Option<V>,
    pos: usize,
    end: usize,
    before: Seq<SyntaxError>,
    after: Seq<SyntaxError>,
) -> bool {
    &&& node == spec.node
    &&& end == pos + spec.used
    &&& after =~= before + spec.errors
}

fn kind_at(toks: &Vec<Token>, pos: usize, ahead: usize) -> (kind: Option<TokenKind>)
    ensures
        kind == grammar::kind_at(tokens_view(toks@), (pos + ahead) as nat),
        kind.is_some() ==> pos + ahead < toks.len(),
{
    if ahead < toks.len() && pos < toks.len() - ahead {
        Some(toks[pos + ahead].kind)
    } else {
        None
    }
}

fn has_punct(toks: &Vec<Token>, pos: usize, ahead: usize, p: Punctuation) -> (r: bool)
    ensures
        r == grammar::has_punct(tokens_view(toks@), (pos + ahead) as nat, p),
        r ==> pos + ahead < toks.len(),
{
    kind_at(toks, pos, ahead) == Some(TokenKind::Punctuation(p))
}

fn has_op(toks: &Vec<Token>, pos: usize, ahead: usize, o: Operator) -> (r: bool)
    ensures
        r == grammar::has_op(tokens_view(toks@), (pos + ahead) as nat, o),
        r ==> pos + ahead < toks.len(),
{
    kind_at(toks, pos, ahead) == Some(TokenKind::Operator(o))
}

fn has_keyword(toks: &Vec<Token>, pos: usize, ahead: usize, k: Keyword) -> (r: bool)
    ensures
        r == grammar::has_keyword(tokens_view(toks@), (pos + ahead) as nat, k),
        r ==> pos + ahead < toks.len(),
{
    kind_at(toks, pos, ahead) == Some(TokenKind::Keyword(k))
}

fn has_identifier(toks: &Vec<Token>, pos: usize, ahead: usize) -> (r: bool)
    ensures
        r == grammar::has_identifier(tokens_view(toks@), (pos + ahead) as nat),
        r ==> pos + ahead < toks.len(),
{
    kind_at(toks, pos, ahead) == Some(TokenKind::Identifier)
}

fn place_at(toks: &Vec<Token>, pos: usize) -> (p: Position)
    ensures
        p == grammar::place_at(tokens_view(toks@), pos as nat),
{
    if pos < toks.len() {
        Position { line: toks[pos].line, column: toks[pos].column }
    } else if toks.len() > 0 {
        let last = &toks[toks.len() - 1];
        Position { line: last.line, column: last.column }
    } else {
        Position { line: 1, column: 1 }
    }
}

/// A copy of the text of token `pos`.
fn text_at(toks: &Vec<Token>, pos: usize) -> (text: Vec<u8>)
    requires
        pos < toks.len(),
    ensures
        text@ == grammar::text_at(tokens_view(toks@), pos as nat),
{
    copy_bytes(&toks[pos].lexeme)
}

/// Records the error of meeting token `at` where `expected` had to stand.
fn report(
    toks: &Vec<Token>,
    at: usize,
    kind: SyntaxErrorKind,
    expected: Expected,
    errors: &mut Vec<SyntaxError>,
)
    ensures
        final(errors)@ == old(errors)@.push(
            grammar::error_at(tokens_view(toks@), at as nat, kind, expected),
        ),
{
    let found = kind_at(toks, at, 0);
    let pos = place_at(toks, at);
    errors.push(SyntaxError { kind, expected, found, pos });
}

/// Whether token `at` is `closer`; where it is not, the error is recorded.
fn closes(
    toks: &Vec<Token>,
    at: usize,
    closer: TokenKind,
    kind: SyntaxErrorKind,
    errors: &mut Vec<SyntaxError>,
) -> (r: bool)
    ensures
        r == (grammar::kind_at(tokens_view(toks@), at as nat) == Some(closer)),
        r ==> at < toks.len() && final(errors)@ == old(errors)@,
        !r ==> final(errors)@ == old(errors)@.push(
            grammar::error_at(tokens_view(toks@), at as nat, kind, Expected::Token(closer)),
        ),
{
    if kind_at(toks, at, 0) == Some(closer) {
        true
    } else {
        report(toks, at, kind, Expected::Token(closer), errors);
        false
    }
}

fn semicolon() -> (k: TokenKind)
    ensures
        k == grammar::semicolon(),
{
    TokenKind::Punctuation(Punctuation::Semicolon)
}

/// The type that a name written in type position stands for: a built-in
/// type or a named one.
pub fn named_type(name: &Vec<u8>) -> (t: Type)
    ensures
        type_view(t) == grammar::named_type(name@),
{
    let i32_text = ['i' as u8, '3' as u8, '2' as u8];
    let f64_text = ['f' as u8, '6' as u8, '4' as u8];
    let bool_text = ['b' as u8, 'o' as u8, 'o' as u8, 'l' as u8];
    let char_text = ['c' as u8, 'h' as u8, 'a' as u8, 'r' as u8];
    let string_text = ['S' as u8, 't' as u8, 'r' as u8, 'i' as u8, 'n' as u8, 'g' as u8];
    assert(i32_text@ =~= grammar::text_i32());
    assert(f64_text@ =~= grammar::text_f64());
    assert(bool_text@ =~= grammar::text_bool());
    assert(char_text@ =~= grammar::text_char());
    assert(string_text@ =~= grammar::text_string());
    let word = name.as_slice();
    if same_bytes(word, &i32_text) {
        Type::Primitive(Primitive::I32)
    } else if same_bytes(word, &f64_text) {
        Type::Primitive(Primitive::F64)
    } else if same_bytes(word, &bool_text) {
        Type::Primitive(Primitive::Bool)
    } else if same_bytes(word, &char_text) {
        Type::Primitive(Primitive::Char)
    } else if same_bytes(word, &string_text) {
        Type::Primitive(Primitive::String)
    } else {
        Type::Named(copy_bytes(name))
    }
}

fn reference_type(mutable: bool, target: Type) -> (t: Type)
    ensures
        type_view(t) == grammar::reference_type(mutable, type_view(target)),
{
    let str_text = ['s' as u8, 't' as u8, 'r' as u8];
    assert(str_text@ =~= grammar::text_str());
    let is_str = match &target {
        Type::Named(name) => same_bytes(name.as_slice(), &str_text),
        _ => false,
    };
    if !mutable && is_str {
        Type::Primitive(Primitive::StrRef)
    } else {
        Type::Reference(mutable, Box::new(target))
    }
}

fn self_type_name() -> (name: Vec<u8>)
    ensures
        name@ == grammar::text_self_type(),
{
    let name = vec!['S' as u8, 'e' as u8, 'l' as u8, 'f' as u8];
    assert(name@ =~= grammar::text_self_type());
    name
}

/// Reads a type.
#[verifier::spinoff_prover]
pub fn parse_type(toks: &Vec<Token>, pos: usize, errors: &mut Vec<SyntaxError>) -> (r: (
    Option<Type>,
    usize,
))
    requires
        pos <= toks.len(),
    ensures
        reads(
            grammar::parse_type(tokens_view(toks@), pos as nat),
            option_type_view(r.0),
            pos,
            r.1,
            old(errors)@,
            final(errors)@,
        ),
        r.1 <= toks.len(),
    decreases toks.len() - pos, 1nat,
{
    proof {
        reveal_with_fuel(grammar::parse_type, 1);
        reveal_with_fuel(grammar::parse_type_list, 1);
    }
    if has_op(toks, pos, 0, Operator::Amp) {
        let mutable = has_keyword(toks, pos, 1, Keyword::Mut);
        let skip: usize = if mutable { 2 } else { 1 };
        let (target, end) = parse_type(toks, pos + skip, errors);
        match target {
            Some(t) => (Some(reference_type(mutable, t)), end),
            None => (None, end),
        }
    } else if has_punct(toks, pos, 0, Punctuation::LParen) {
        let empty: Vec<Type> = Vec::new();
        assert(types_view(empty@) =~= Seq::empty());
        let (list, end) = parse_type_list(toks, pos + 1, empty, errors);
        match list {
            Some(elements) => {
                if elements.len() == 0 {
                    (Some(Type::Primitive(Primitive::Unit)), end)
                } else {
                    (Some(Type::Tuple(elements)), end)
                }
            },
            None => (None, end),
        }
    } else if has_punct(toks, pos, 0, Punctuation::LBracket) {
        let (element, end) = parse_type(toks, pos + 1, errors);
        match element {
            None => (None, end),
            Some(e) => {
                if !has_punct(toks, end, 0, Punctuation::Semicolon) {
                    report(
                        toks,
                        end,
                        SyntaxErrorKind::MissingToken,
                        Expected::Token(TokenKind::Punctuation(Punctuation::Semicolon)),
                        errors,
                    );
                    return (None, end);
                }
                let size = if kind_at(toks, end, 1) == Some(TokenKind::IntLiteral) {
                    parse_decimal(toks[end + 1].lexeme.as_slice())
                } else {
                    None
                };
                match size {
                    None => {
                        report(
                            toks,
                            end + 1,
                            SyntaxErrorKind::UnexpectedToken,
                            Expected::ArraySize,
                            errors,
                        );
                        (None, end + 1)
                    },
                    Some(n) => {
                        if !has_punct(toks, end, 2, Punctuation::RBracket) {
                            report(
                                toks,
                                end + 2,
                                SyntaxErrorKind::UnbalancedDelimiter,
                                Expected::Token(TokenKind::Punctuation(Punctuation::RBracket)),
                                errors,
                            );
                            (None, end + 2)
                        } else {
                            (Some(Type::Array(Box::new(e), n)), end + 3)
                        }
                    },
                }
            },
        }
    } else if has_keyword(toks, pos, 0, Keyword::SelfType) {
        (Some(Type::Named(self_type_name())), pos + 1)
    } else if has_identifier(toks, pos, 0) {
        (Some(named_type(&toks[pos].lexeme)), pos + 1)
    } else {
        report(toks, pos, SyntaxErrorKind::UnexpectedToken, Expected::Type, errors);
        (None, pos)
    }
}

/// Reads the rest of a parenthesised row of types, up to its `)`.
#[verifier::spinoff_prover]
pub fn parse_type_list(
    toks: &Vec<Token>,
    pos: usize,
    acc: Vec<Type>,
    errors: &mut Vec<SyntaxError>,
) -> (r: (Option<Vec<Type>>, usize))
    requires
        pos <= toks.len(),
    ensures
        reads(
            grammar::parse_type_list(tokens_view(toks@), pos as nat, types_view(acc@)),
            match r.0 {
                Some(ts) => Some(types_view(ts@)),
                None => None,
            },
            pos,
            r.1,
            old(errors)@,
            final(errors)@,
        ),
        r.1 <= toks.len(),
    decreases toks.len() - pos, 2nat,
{
    proof {
        reveal_with_fuel(grammar::parse_type_list, 1);
        reveal_with_fuel(grammar::parse_type, 1);
    }
    if has_punct(toks, pos, 0, Punctuation::RParen) {
        return (Some(acc), pos + 1);
    }
    let (first, end) = parse_type(toks, pos, errors);
    match first {
        None => (None, end),
        Some(t) => {
            let ghost before = types_view(acc@);
            let ghost tv = type_view(t);
            let mut acc = acc;
            acc.push(t);
            assert(types_view(acc@) =~= before.push(tv));
            if has_punct(toks, end, 0, Punctuation::Comma) {
                parse_type_list(toks, end + 1, acc, errors)
            } else if has_punct(toks, end, 0, Punctuation::RParen) {
                (Some(acc), end + 1)
            } else {
                report(
                    toks,
                    end,
                    SyntaxErrorKind::UnbalancedDelimiter,
                    Expected::Token(TokenKind::Punctuation(Punctuation::RParen)),
                    errors,
                );
                (None, end)
            }
        },
    }
}

fn self_value_name() -> (name: Vec<u8>)
    ensures
        name@ == grammar::text_self_value(),
{
    let name = vec!['s' as u8, 'e' as u8, 'l' as u8, 'f' as u8];
    assert(name@ =~= grammar::text_self_value());
    name
}

fn operator_at_level(o: Operator, level: u8) -> (op: Option<BinaryOp>)
    ensures
        op == grammar::operator_at_level(o, level as nat),
{
    if level == 0 {
        match o {
            Operator::OrOr => Some(BinaryOp::Or),
            _ => None,
        }
    } else if level == 1 {
        match o {
            Operator::AndAnd => Some(BinaryOp::And),
            _ => None,
        }
    } else if level == 2 {
        match o {
            Operator::EqEq => Some(BinaryOp::Eq),
            Operator::NotEq => Some(BinaryOp::NotEq),
            Operator::Less => Some(BinaryOp::Less),
            Operator::LessEq => Some(BinaryOp::LessEq),
            Operator::Greater => Some(BinaryOp::Greater),
            Operator::GreaterEq => Some(BinaryOp::GreaterEq),
            _ => None,
        }
    } else if level == 3 {
        match o {
            Operator::Plus => Some(BinaryOp::Add),
            Operator::Minus => Some(BinaryOp::Sub),
            _ => None,
        }
    } else if level == 4 {
        match o {
            Operator::Star => Some(BinaryOp::Mul),
            Operator::Slash => Some(BinaryOp::Div),
            Operator::Percent => Some(BinaryOp::Rem),
            _ => None,
        }
    } else {
        None
    }
}

fn binary_op_at(toks: &Vec<Token>, pos: usize, level: u8) -> (op: Option<BinaryOp>)
    ensures
        op == grammar::binary_op_at(tokens_view(toks@), pos as nat, level as nat),
        op.is_some() ==> pos < toks.len(),
{
    match kind_at(toks, pos, 0) {
        Some(TokenKind::Operator(o)) => operator_at_level(o, level),
        _ => None,
    }
}

fn assign_op_at(toks: &Vec<Token>, pos: usize) -> (op: Option<AssignOp>)
    ensures
        op == grammar::assign_op_at(tokens_view(toks@), pos as nat),
        op.is_some() ==> pos < toks.len(),
{
    match kind_at(toks, pos, 0) {
        Some(TokenKind::Operator(Operator::Assign)) => Some(AssignOp::Plain),
        Some(TokenKind::Operator(Operator::PlusAssign)) => Some(AssignOp::Add),
        Some(TokenKind::Operator(Operator::MinusAssign)) => Some(AssignOp::Sub),
        Some(TokenKind::Operator(Operator::StarAssign)) => Some(AssignOp::Mul),
        Some(TokenKind::Operator(Operator::SlashAssign)) => Some(AssignOp::Div),
        _ => None,
    }
}

/// The value of a type that may be left out that may be absent.
pub open spec fn option_option_type_view(t: Option<Option<Type>>) -> Option<Option<TypeView>> {
    match t {
        Some(t) => Some(option_type_view(t)),
        None => None,
    }
}

#[verifier::spinoff_prover]
fn parse_type_annotation(toks: &Vec<Token>, pos: usize, errors: &mut Vec<SyntaxError>) -> (r: (
    Option<Option<Type>>,
    usize,
))
    requires
        pos <= toks.len(),
    ensures
        reads(
            grammar::parse_type_annotation(tokens_view(toks@), pos as nat),
            option_option_type_view(r.0),
            pos,
            r.1,
            old(errors)@,
            final(errors)@,
        ),
        r.1 <= toks.len(),
{
    proof {
        reveal(grammar::parse_type_annotation);
        reveal_with_fuel(grammar::parse_type, 1);
    }
    if has_punct(toks, pos, 0, Punctuation::Colon) {
        let (ty, end) = parse_type(toks, pos + 1, errors);
        match ty {
            Some(t) => (Some(Some(t)), end),
            None => (None, end),
        }
    } else {
        (Some(None), pos)
    }
}

#[verifier::spinoff_prover]
fn parse_return_type(toks: &Vec<Token>, pos: usize, errors: &mut Vec<SyntaxError>) -> (r: (
    Option<Option<Type>>,
    usize,
))
    requires
        pos <= toks.len(),
    ensures
        reads(
            grammar::parse_return_type(tokens_view(toks@), pos as nat),
            option_option_type_view(r.0),
            pos,
            r.1,
            old(errors)@,
            final(errors)@,
        ),
        r.1 <= toks.len(),
{
    proof {
        reveal(grammar::parse_return_type);
        reveal_with_fuel(grammar::parse_type, 1);
    }
    if has_punct(toks, pos, 0, Punctuation::Arrow) {
        let (ty, end) = parse_type(toks, pos + 1, errors);
        match ty {
            Some(t) => (Some(Some(t)), end),
            None => (None, end),
        }
    } else {
        (Some(None), pos)
    }
}

#[verifier::spinoff_prover]
fn parse_closure_params(
    toks: &Vec<Token>,
    pos: usize,
    acc: Vec<Param>,
    errors: &mut Vec<SyntaxError>,
) -> (r: (Option<Vec<Param>>, usize))
    requires
        pos <= toks.len(),
    ensures
        reads(
            grammar::parse_closure_params(tokens_view(toks@), pos as nat, params_view(acc@)),
            option_params_view(r.0),
            pos,
            r.1,
            old(errors)@,
            final(errors)@,
        ),
        r.1 <= toks.len(),
    decreases toks.len() - pos,
{
    proof {
        reveal_with_fuel(grammar::parse_closure_params, 1);
        reveal(grammar::parse_type_annotation);
    }
    if has_op(toks, pos, 0, Operator::Pipe) {
        return (Some(acc), pos + 1);
    }
    if !has_identifier(toks, pos, 0) {
        report(toks, pos, SyntaxErrorKind::MissingToken, Expected::Identifier, errors);
        return (None, pos);
    }
    let (ty, end) = parse_type_annotation(toks, pos + 1, errors);
    match ty {
        None => (None, end),
        Some(t) => {
            let acc = push_param(acc, Param { name: text_at(toks, pos), ty: t });
            if has_punct(toks, end, 0, Punctuation::Comma) {
                parse_closure_params(toks, end + 1, acc, errors)
            } else if has_op(toks, end, 0, Operator::Pipe) {
                (Some(acc), end + 1)
            } else {
                report(
                    toks,
                    end,
                    SyntaxErrorKind::UnbalancedDelimiter,
                    Expected::Token(TokenKind::Operator(Operator::Pipe)),
                    errors,
                );
                (None, end)
            }
        },
    }
}

#[verifier::spinoff_prover]
fn parse_path_rest(
    toks: &Vec<Token>,
    pos: usize,
    acc: Vec<Vec<u8>>,
    errors: &mut Vec<SyntaxError>,
) -> (r: (Option<Vec<Vec<u8>>>, usize))
    requires
        pos <= toks.len(),
    ensures
        reads(
            grammar::parse_path_rest(tokens_view(toks@), pos as nat, names_view(acc@)),
            option_names_view(r.0),
            pos,
            r.1,
            old(errors)@,
            final(errors)@,
        ),
        r.1 <= toks.len(),
    decreases toks.len() - pos,
{
    proof {
        reveal_with_fuel(grammar::parse_path_rest, 1);
    }
    if has_op(toks, pos, 0, Operator::PathSep) {
        if has_identifier(toks, pos, 1) {
            let acc = push_name(acc, text_at(toks, pos + 1));
            parse_path_rest(toks, pos + 2, acc, errors)
        } else {
            report(toks, pos + 1, SyntaxErrorKind::MissingToken, Expected::Identifier, errors);
            (None, pos + 1)
        }
    } else {
        (Some(acc), pos)
    }
}

/// Reads an expression.
#[verifier::spinoff_prover]
pub fn parse_expr(toks: &Vec<Token>, pos: usize, st: bool, errors: &mut Vec<SyntaxError>) -> (r: (
    Option<Expr>,
    usize,
))
    requires
        pos <= toks.len(),
    ensures
        reads(
            grammar::parse_expr(tokens_view(toks@), pos as nat, st),
            option_expr_view(r.0),
            pos,
            r.1,
            old(errors)@,
            final(errors)@,
        ),
        r.1 <= toks.len(),
        r.0.is_some() ==> r.1 > pos,
    decreases toks.len() - pos, 60nat,
{
    proof {
        reveal_with_fuel(grammar::parse_expr, 1);
        reveal_with_fuel(grammar::parse_binary, 1);
    }
    let (lhs, mid) = parse_binary(toks, pos, 0, st, errors);
    match lhs {
        None => (None, mid),
        Some(l) => {
            if has_op(toks, mid, 0, Operator::DotDot) {
                let (rhs, end) = parse_binary(toks, mid + 1, 0, st, errors);
                match rhs {
                    None => (None, end),
                    Some(r) => {
                        let at = l.pos;
                        (Some(Expr { kind: ExprKind::Range(Box::new(l), Box::new(r)), pos: at }), end)
                    },
                }
            } else {
                (Some(l), mid)
            }
        },
    }
}

#[verifier::spinoff_prover]
fn parse_binary(
    toks: &Vec<Token>,
    pos: usize,
    level: u8,
    st: bool,
    errors: &mut Vec<SyntaxError>,
) -> (r: (Option<Expr>, usize))
    requires
        pos <= toks.len(),
    ensures
        reads(
            grammar::parse_binary(tokens_view(toks@), pos as nat, level as nat, st),
            option_expr_view(r.0),
            pos,
            r.1,
            old(errors)@,
            final(errors)@,
        ),
        r.1 <= toks.len(),
        r.0.is_some() ==> r.1 > pos,
    decreases toks.len() - pos, grammar::binary_rank(level as nat),
{
    proof {
        reveal_with_fuel(grammar::parse_binary, 1);
        reveal_with_fuel(grammar::parse_operand, 1);
        reveal_with_fuel(grammar::parse_binary_rest, 1);
    }
    let (lhs, mid) = parse_operand(toks, pos, level, st, errors);
    match lhs {
        None => (None, mid),
        Some(l) => {
            parse_binary_rest(toks, mid, level, st, l, errors)
        },
    }
}

#[verifier::spinoff_prover]
fn parse_operand(
    toks: &Vec<Token>,
    pos: usize,
    level: u8,
    st: bool,
    errors: &mut Vec<SyntaxError>,
) -> (r: (Option<Expr>, usize))
    requires
        pos <= toks.len(),
    ensures
        reads(
            grammar::parse_operand(tokens_view(toks@), pos as nat, level as nat, st),
            option_expr_view(r.0),
            pos,
            r.1,
            old(errors)@,
            final(errors)@,
        ),
        r.1 <= toks.len(),
        r.0.is_some() ==> r.1 > pos,
    decreases toks.len() - pos, (grammar::binary_rank(level as nat) - 2) as nat,
{
    proof {
        reveal_with_fuel(grammar::parse_operand, 1);
        reveal_with_fuel(grammar::parse_binary, 1);
        reveal_with_fuel(grammar::parse_unary, 1);
    }
    if level < 4 {
        parse_binary(toks, pos, level + 1, st, errors)
    } else {
        parse_unary(toks, pos, st, errors)
    }
}

#[verifier::spinoff_prover]
fn parse_binary_rest(
    toks: &Vec<Token>,
    pos: usize,
    level: u8,
    st: bool,
    lhs: Expr,
    errors: &mut Vec<SyntaxError>,
) -> (r: (Option<Expr>, usize))
    requires
        pos <= toks.len(),
    ensures
        reads(
            grammar::parse_binary_rest(
                tokens_view(toks@),
                pos as nat,
                level as nat,
                st,
                expr_view(lhs),
            ),
            option_expr_view(r.0),
            pos,
            r.1,
            old(errors)@,
            final(errors)@,
        ),
        r.1 <= toks.len(),
        r.1 >= pos,
    decreases toks.len() - pos, (grammar::binary_rank(level as nat) - 1) as nat,
{
    proof {
        reveal_with_fuel(grammar::parse_binary_rest, 1);
        reveal_with_fuel(grammar::parse_operand, 1);
    }
    match binary_op_at(toks, pos, level) {
        None => (Some(lhs), pos),
        Some(op) => {
            let (rhs, mid) = parse_operand(toks, pos + 1, level, st, errors);
            match rhs {
                None => (None, mid),
                Some(r) => {
                    let at = lhs.pos;
                    let joined = Expr {
                        kind: ExprKind::Binary(op, Box::new(lhs), Box::new(r)),
                        pos: at,
                    };
                    parse_binary_rest(toks, mid, level, st, joined, errors)
                },
            }
        },
    }
}

#[verifier::spinoff_prover]
fn parse_unary(toks: &Vec<Token>, pos: usize, st: bool, errors: &mut Vec<SyntaxError>) -> (r: (
    Option<Expr>,
    usize,
))
    requires
        pos <= toks.len(),
    ensures
        reads(
            grammar::parse_unary(tokens_view(toks@), pos as nat, st),
            option_expr_view(r.0),
            pos,
            r.1,
            old(errors)@,
            final(errors)@,
        ),
        r.1 <= toks.len(),
        r.0.is_some() ==> r.1 > pos,
    decreases toks.len() - pos, 30nat,
{
    proof {
        reveal_with_fuel(grammar::parse_unary, 1);
        reveal_with_fuel(grammar::parse_postfix, 1);
    }
    let minus = has_op(toks, pos, 0, Operator::Minus);
    if minus || has_op(toks, pos, 0, Operator::Not) {
        let op = if minus {
            UnaryOp::Neg
        } else {
            UnaryOp::Not
        };
        let (operand, end) = parse_unary(toks, pos + 1, st, errors);
        match operand {
            None => (None, end),
            Some(e) => (
                Some(Expr { kind: ExprKind::Unary(op, Box::new(e)), pos: place_at(toks, pos) }),
                end,
            ),
        }
    } else if has_op(toks, pos, 0, Operator::Amp) {
        let mutable = has_keyword(toks, pos, 1, Keyword::Mut);
        let skip: usize = if mutable { 2 } else { 1 };
        let (operand, end) = parse_unary(toks, pos + skip, st, errors);
        match operand {
            None => (None, end),
            Some(e) => (
                Some(
                    Expr {
                        kind: ExprKind::Reference(mutable, Box::new(e)),
                        pos: place_at(toks, pos),
                    },
                ),
                end,
            ),
        }
    } else {
        parse_postfix(toks, pos, st, errors)
    }
}

#[verifier::spinoff_prover]
fn parse_postfix(toks: &Vec<Token>, pos: usize, st: bool, errors: &mut Vec<SyntaxError>) -> (r: (
    Option<Expr>,
    usize,
))
    requires
        pos <= toks.len(),
    ensures
        reads(
            grammar::parse_postfix(tokens_view(toks@), pos as nat, st),
            option_expr_view(r.0),
            pos,
            r.1,
            old(errors)@,
            final(errors)@,
        ),
        r.1 <= toks.len(),
        r.0.is_some() ==> r.1 > pos,
    decreases toks.len() - pos, 25nat,
{
    proof {
        reveal_with_fuel(grammar::parse_postfix, 1);
        reveal_with_fuel(grammar::parse_primary, 1);
        reveal_with_fuel(grammar::parse_postfix_rest, 1);
    }
    let (head, mid) = parse_primary(toks, pos, st, errors);
    match head {
        None => (None, mid),
        Some(e) => parse_postfix_rest(toks, mid, e, errors),
    }
}

#[verifier::spinoff_prover]
fn parse_postfix_rest(toks: &Vec<Token>, pos: usize, head: Expr, errors: &mut Vec<SyntaxError>) -> (r:
    (Option<Expr>, usize))
    requires
        pos <= toks.len(),
    ensures
        reads(
            grammar::parse_postfix_rest(tokens_view(toks@), pos as nat, expr_view(head)),
            option_expr_view(r.0),
            pos,
            r.1,
            old(errors)@,
            final(errors)@,
        ),
        r.1 <= toks.len(),
        r.1 >= pos,
    decreases toks.len() - pos, 24nat,
{
    proof {
        reveal_with_fuel(grammar::parse_postfix_rest, 1);
        reveal_with_fuel(grammar::parse_expr_list, 1);
    }
    if has_punct(toks, pos, 0, Punctuation::LParen) {
        let (args, mid) = parse_expr_list(toks, pos + 1, Punctuation::RParen, no_exprs(), errors);
        match args {
            None => (None, mid),
            Some(a) => {
                let at = head.pos;
                let call = Expr { kind: ExprKind::Call(Box::new(head), a), pos: at };
                parse_postfix_rest(toks, mid, call, errors)
            },
        }
    } else if has_op(toks, pos, 0, Operator::Dot) {
        if has_identifier(toks, pos, 1) {
            let at = head.pos;
            let access = Expr {
                kind: ExprKind::FieldAccess(Box::new(head), text_at(toks, pos + 1)),
                pos: at,
            };
            parse_postfix_rest(toks, pos + 2, access, errors)
        } else {
            report(toks, pos + 1, SyntaxErrorKind::MissingToken, Expected::Identifier, errors);
            (None, pos + 1)
        }
    } else {
        (Some(head), pos)
    }
}

#[verifier::spinoff_prover]
fn parse_expr_list(
    toks: &Vec<Token>,
    pos: usize,
    closer: Punctuation,
    acc: Vec<Expr>,
    errors: &mut Vec<SyntaxError>,
) -> (r: (Option<Vec<Expr>>, usize))
    requires
        pos <= toks.len(),
    ensures
        reads(
            grammar::parse_expr_list(tokens_view(toks@), pos as nat, closer, exprs_view(acc@)),
            option_exprs_view(r.0),
            pos,
            r.1,
            old(errors)@,
            final(errors)@,
        ),
        r.1 <= toks.len(),
        r.0.is_some() ==> r.1 > pos,
    decreases toks.len() - pos, 70nat,
{
    proof {
        reveal_with_fuel(grammar::parse_expr_list, 1);
        reveal_with_fuel(grammar::parse_expr, 1);
    }
    if has_punct(toks, pos, 0, closer) {
        return (Some(acc), pos + 1);
    }
    let (first, end) = parse_expr(toks, pos, true, errors);
    match first {
        None => (None, end),
        Some(e) => {
            let acc = push_expr(acc, e);
            if has_punct(toks, end, 0, Punctuation::Comma) {
                parse_expr_list(toks, end + 1, closer, acc, errors)
            } else if has_punct(toks, end, 0, closer) {
                (Some(acc), end + 1)
            } else {
                report(
                    toks,
                    end,
                    SyntaxErrorKind::UnbalancedDelimiter,
                    Expected::Token(TokenKind::Punctuation(closer)),
                    errors,
                );
                (None, end)
            }
        },
    }
}

/// The values of a row of fields of a struct literal that may be absent.
pub open spec fn option_field_inits_view(fs: Option<Vec<FieldInit>>) -> Option<Seq<FieldInitView>> {
    match fs {
        Some(fs) => Some(field_inits_view(fs@)),
        None => None,
    }
}

#[verifier::spinoff_prover]
fn parse_field_inits(
    toks: &Vec<Token>,
    pos: usize,
    acc: Vec<FieldInit>,
    errors: &mut Vec<SyntaxError>,
) -> (r: (Option<Vec<FieldInit>>, usize))
    requires
        pos <= toks.len(),
    ensures
        reads(
            grammar::parse_field_inits(tokens_view(toks@), pos as nat, field_inits_view(acc@)),
            option_field_inits_view(r.0),
            pos,
            r.1,
            old(errors)@,
            final(errors)@,
        ),
        r.1 <= toks.len(),
    decreases toks.len() - pos, 70nat,
{
    proof {
        reveal_with_fuel(grammar::parse_field_inits, 1);
        reveal_with_fuel(grammar::parse_expr, 1);
    }
    if has_punct(toks, pos, 0, Punctuation::RBrace) {
        return (Some(acc), pos + 1);
    }
    if !has_identifier(toks, pos, 0) {
        report(toks, pos, SyntaxErrorKind::MissingToken, Expected::Identifier, errors);
        return (None, pos);
    }
    if !has_punct(toks, pos, 1, Punctuation::Colon) {
        report(
            toks,
            pos + 1,
            SyntaxErrorKind::MissingToken,
            Expected::Token(TokenKind::Punctuation(Punctuation::Colon)),
            errors,
        );
        return (None, pos + 1);
    }
    let (value, end) = parse_expr(toks, pos + 2, true, errors);
    match value {
        None => (None, end),
        Some(e) => {
            let acc = push_field_init(acc, FieldInit { name: text_at(toks, pos), value: e });
            if has_punct(toks, end, 0, Punctuation::Comma) {
                parse_field_inits(toks, end + 1, acc, errors)
            } else if has_punct(toks, end, 0, Punctuation::RBrace) {
                (Some(acc), end + 1)
            } else {
                report(
                    toks,
                    end,
                    SyntaxErrorKind::UnbalancedDelimiter,
                    Expected::Token(TokenKind::Punctuation(Punctuation::RBrace)),
                    errors,
                );
                (None, end)
            }
        },
    }
}

#[verifier::spinoff_prover]
fn parse_closure_tail(
    toks: &Vec<Token>,
    pos: usize,
    st: bool,
    start: usize,
    params: Vec<Param>,
    errors: &mut Vec<SyntaxError>,
) -> (r: (Option<Expr>, usize))
    requires
        pos <= toks.len(),
    ensures
        reads(
            grammar::parse_closure_tail(
                tokens_view(toks@),
                pos as nat,
                st,
                start as nat,
                params_view(params@),
            ),
            option_expr_view(r.0),
            pos,
            r.1,
            old(errors)@,
            final(errors)@,
        ),
        r.1 <= toks.len(),
        r.1 >= pos,
    decreases toks.len() - pos, 65nat,
{
    proof {
        reveal_with_fuel(grammar::parse_closure_tail, 1);
        reveal(grammar::parse_return_type);
        reveal_with_fuel(grammar::parse_block, 1);
        reveal_with_fuel(grammar::parse_expr, 1);
    }
    let (ret, mid) = parse_return_type(toks, pos, errors);
    match ret {
        None => (None, mid),
        Some(r) => {
            if has_punct(toks, mid, 0, Punctuation::LBrace) {
                let (body, end) = parse_block(toks, mid, errors);
                match body {
                    None => (None, end),
                    Some(b) => (
                        Some(
                            Expr {
                                kind: ExprKind::Closure(params, r, ClosureBody::Block(b)),
                                pos: place_at(toks, start),
                            },
                        ),
                        end,
                    ),
                }
            } else {
                let (body, end) = parse_expr(toks, mid, st, errors);
                match body {
                    None => (None, end),
                    Some(e) => (
                        Some(
                            Expr {
                                kind: ExprKind::Closure(params, r, ClosureBody::Expr(Box::new(e))),
                                pos: place_at(toks, start),
                            },
                        ),
                        end,
                    ),
                }
            }
        },
    }
}

#[verifier::spinoff_prover]
fn parse_paren(toks: &Vec<Token>, pos: usize, errors: &mut Vec<SyntaxError>) -> (r: (
    Option<Expr>,
    usize,
))
    requires
        pos <= toks.len(),
    ensures
        reads(
            grammar::parse_paren(tokens_view(toks@), pos as nat),
            option_expr_view(r.0),
            pos,
            r.1,
            old(errors)@,
            final(errors)@,
        ),
        r.1 <= toks.len(),
        r.0.is_some() ==> r.1 > pos,
    decreases toks.len() - pos, 19nat,
{
    proof {
        reveal_with_fuel(grammar::parse_paren, 1);
        reveal_with_fuel(grammar::parse_expr, 1);
        reveal_with_fuel(grammar::parse_expr_list, 1);
    }
    if !has_punct(toks, pos, 0, Punctuation::LParen) {
        report(
            toks,
            pos,
            SyntaxErrorKind::MissingToken,
            Expected::Token(TokenKind::Punctuation(Punctuation::LParen)),
            errors,
        );
        return (None, pos);
    }
    if has_punct(toks, pos, 1, Punctuation::RParen) {
        return (Some(Expr { kind: ExprKind::TupleLit(no_exprs()), pos: place_at(toks, pos) }), pos + 2);
    }
    let (first, mid) = parse_expr(toks, pos + 1, true, errors);
    match first {
        None => (None, mid),
        Some(e) => {
            if has_punct(toks, mid, 0, Punctuation::RParen) {
                (Some(e), mid + 1)
            } else if has_punct(toks, mid, 0, Punctuation::Comma) {
                let acc = one_expr(e);
                let (rest, end) = parse_expr_list(toks, mid + 1, Punctuation::RParen, acc, errors);
                match rest {
                    None => (None, end),
                    Some(es) => (
                        Some(Expr { kind: ExprKind::TupleLit(es), pos: place_at(toks, pos) }),
                        end,
                    ),
                }
            } else {
                report(
                    toks,
                    mid,
                    SyntaxErrorKind::UnbalancedDelimiter,
                    Expected::Token(TokenKind::Punctuation(Punctuation::RParen)),
                    errors,
                );
                (None, mid)
            }
        },
    }
}

#[verifier::spinoff_prover]
fn parse_repeat_size(
    toks: &Vec<Token>,
    pos: usize,
    start: usize,
    value: Expr,
    errors: &mut Vec<SyntaxError>,
) -> (r: (Option<Expr>, usize))
    requires
        pos <= toks.len(),
    ensures
        reads(
            grammar::parse_repeat_size(
                tokens_view(toks@),
                pos as nat,
                start as nat,
                expr_view(value),
            ),
            option_expr_view(r.0),
            pos,
            r.1,
            old(errors)@,
            final(errors)@,
        ),
        r.1 <= toks.len(),
        r.1 >= pos,
    decreases toks.len() - pos, 65nat,
{
    proof {
        reveal_with_fuel(grammar::parse_repeat_size, 1);
        reveal_with_fuel(grammar::parse_expr, 1);
    }
    let (size, end) = parse_expr(toks, pos, true, errors);
    match size {
        None => (None, end),
        Some(n) => {
            if closes(
                toks,
                end,
                TokenKind::Punctuation(Punctuation::RBracket),
                SyntaxErrorKind::UnbalancedDelimiter,
                errors,
            ) {
                (
                    Some(
                        Expr {
                            kind: ExprKind::ArrayRepeat(Box::new(value), Box::new(n)),
                            pos: place_at(toks, start),
                        },
                    ),
                    end + 1,
                )
            } else {
                (None, end)
            }
        },
    }
}

#[verifier::spinoff_prover]
fn parse_bracket(toks: &Vec<Token>, pos: usize, errors: &mut Vec<SyntaxError>) -> (r: (
    Option<Expr>,
    usize,
))
    requires
        pos <= toks.len(),
    ensures
        reads(
            grammar::parse_bracket(tokens_view(toks@), pos as nat),
            option_expr_view(r.0),
            pos,
            r.1,
            old(errors)@,
            final(errors)@,
        ),
        r.1 <= toks.len(),
        r.0.is_some() ==> r.1 > pos,
    decreases toks.len() - pos, 19nat,
{
    proof {
        reveal_with_fuel(grammar::parse_bracket, 1);
        reveal_with_fuel(grammar::parse_expr, 1);
        reveal_with_fuel(grammar::parse_repeat_size, 1);
        reveal_with_fuel(grammar::parse_expr_list, 1);
    }
    if !has_punct(toks, pos, 0, Punctuation::LBracket) {
        report(
            toks,
            pos,
            SyntaxErrorKind::MissingToken,
            Expected::Token(TokenKind::Punctuation(Punctuation::LBracket)),
            errors,
        );
        return (None, pos);
    }
    if has_punct(toks, pos, 1, Punctuation::RBracket) {
        return (Some(Expr { kind: ExprKind::ArrayLit(no_exprs()), pos: place_at(toks, pos) }), pos + 2);
    }
    let (first, mid) = parse_expr(toks, pos + 1, true, errors);
    match first {
        None => (None, mid),
        Some(e) => {
            if has_punct(toks, mid, 0, Punctuation::Semicolon) {
                parse_repeat_size(toks, mid + 1, pos, e, errors)
            } else {
                let acc = one_expr(e);
                if has_punct(toks, mid, 0, Punctuation::Comma) {
                    let (rest, end) = parse_expr_list(
                        toks,
                        mid + 1,
                        Punctuation::RBracket,
                        acc,
                        errors,
                    );
                    match rest {
                        None => (None, end),
                        Some(es) => (
                            Some(Expr { kind: ExprKind::ArrayLit(es), pos: place_at(toks, pos) }),
                            end,
                        ),
                    }
                } else if closes(
                    toks,
                    mid,
                    TokenKind::Punctuation(Punctuation::RBracket),
                    SyntaxErrorKind::UnbalancedDelimiter,
                    errors,
                ) {
                    (Some(Expr { kind: ExprKind::ArrayLit(acc), pos: place_at(toks, pos) }), mid + 1)
                } else {
                    (None, mid)
                }
            }
        },
    }
}

#[verifier::spinoff_prover]
fn parse_named(toks: &Vec<Token>, pos: usize, st: bool, errors: &mut Vec<SyntaxError>) -> (r: (
    Option<Expr>,
    usize,
))
    requires
        pos < toks.len(),
    ensures
        reads(
            grammar::parse_named(tokens_view(toks@), pos as nat, st),
            option_expr_view(r.0),
            pos,
            r.1,
            old(errors)@,
            final(errors)@,
        ),
        r.1 <= toks.len(),
        r.0.is_some() ==> r.1 > pos,
    decreases toks.len() - pos, 19nat,
{
    proof {
        reveal_with_fuel(grammar::parse_named, 1);
        reveal_with_fuel(grammar::parse_path_rest, 1);
        reveal_with_fuel(grammar::parse_field_inits, 1);
    }
    if has_op(toks, pos, 1, Operator::PathSep) {
        let acc = one_name(text_at(toks, pos));
        let (path, end) = parse_path_rest(toks, pos + 1, acc, errors);
        match path {
            None => (None, end),
            Some(segments) => (
                Some(Expr { kind: ExprKind::Path(segments), pos: place_at(toks, pos) }),
                end,
            ),
        }
    } else if st && has_punct(toks, pos, 1, Punctuation::LBrace) {
        let (fields, end) = parse_field_inits(toks, pos + 2, no_field_inits(), errors);
        match fields {
            None => (None, end),
            Some(f) => (
                Some(
                    Expr { kind: ExprKind::StructInit(text_at(toks, pos), f), pos: place_at(toks, pos) },
                ),
                end,
            ),
        }
    } else {
        (
            Some(Expr { kind: ExprKind::Identifier(text_at(toks, pos)), pos: place_at(toks, pos) }),
            pos + 1,
        )
    }
}

#[verifier::spinoff_prover]
fn parse_macro_call(toks: &Vec<Token>, pos: usize, m: Macro, errors: &mut Vec<SyntaxError>) -> (r: (
    Option<Expr>,
    usize,
))
    requires
        pos < toks.len(),
    ensures
        reads(
            grammar::parse_macro_call(tokens_view(toks@), pos as nat, m),
            option_expr_view(r.0),
            pos,
            r.1,
            old(errors)@,
            final(errors)@,
        ),
        r.1 <= toks.len(),
        r.0.is_some() ==> r.1 > pos,
    decreases toks.len() - pos, 19nat,
{
    proof {
        reveal_with_fuel(grammar::parse_macro_call, 1);
        reveal_with_fuel(grammar::parse_expr_list, 1);
    }
    if has_punct(toks, pos, 1, Punctuation::LParen) {
        let (args, end) = parse_expr_list(toks, pos + 2, Punctuation::RParen, no_exprs(), errors);
        match args {
            None => (None, end),
            Some(a) => (
                Some(Expr { kind: ExprKind::MacroCall(m, a), pos: place_at(toks, pos) }),
                end,
            ),
        }
    } else {
        report(
            toks,
            pos + 1,
            SyntaxErrorKind::MissingToken,
            Expected::Token(TokenKind::Punctuation(Punctuation::LParen)),
            errors,
        );
        (None, pos + 1)
    }
}

#[verifier::spinoff_prover]
fn parse_primary(toks: &Vec<Token>, pos: usize, st: bool, errors: &mut Vec<SyntaxError>) -> (r: (
    Option<Expr>,
    usize,
))
    requires
        pos <= toks.len(),
    ensures
        reads(
            grammar::parse_primary(tokens_view(toks@), pos as nat, st),
            option_expr_view(r.0),
            pos,
            r.1,
            old(errors)@,
            final(errors)@,
        ),
        r.1 <= toks.len(),
        r.0.is_some() ==> r.1 > pos,
    decreases toks.len() - pos, 20nat,
{
    proof {
        reveal_with_fuel(grammar::parse_primary, 1);
        reveal_with_fuel(grammar::parse_named, 1);
        reveal_with_fuel(grammar::parse_macro_call, 1);
        reveal_with_fuel(grammar::parse_paren, 1);
        reveal_with_fuel(grammar::parse_bracket, 1);
        reveal_with_fuel(grammar::parse_closure_tail, 1);
        reveal_with_fuel(grammar::parse_closure_params, 1);
    }
    match kind_at(toks, pos, 0) {
        Some(TokenKind::IntLiteral) => (
            Some(Expr { kind: ExprKind::IntLit(text_at(toks, pos)), pos: place_at(toks, pos) }),
            pos + 1,
        ),
        Some(TokenKind::FloatLiteral) => (
            Some(Expr { kind: ExprKind::FloatLit(text_at(toks, pos)), pos: place_at(toks, pos) }),
            pos + 1,
        ),
        Some(TokenKind::StringLiteral) => (
            Some(Expr { kind: ExprKind::StringLit(text_at(toks, pos)), pos: place_at(toks, pos) }),
            pos + 1,
        ),
        Some(TokenKind::CharLiteral) => (
            Some(Expr { kind: ExprKind::CharLit(text_at(toks, pos)), pos: place_at(toks, pos) }),
            pos + 1,
        ),
        Some(TokenKind::BoolLiteral(b)) => (
            Some(Expr { kind: ExprKind::BoolLit(b), pos: place_at(toks, pos) }),
            pos + 1,
        ),
        Some(TokenKind::Keyword(Keyword::SelfValue)) => (
            Some(Expr { kind: ExprKind::Identifier(self_value_name()), pos: place_at(toks, pos) }),
            pos + 1,
        ),
        Some(TokenKind::Identifier) => parse_named(toks, pos, st, errors),
        Some(TokenKind::MacroName(m)) => parse_macro_call(toks, pos, m, errors),
        Some(TokenKind::Punctuation(Punctuation::LParen)) => parse_paren(toks, pos, errors),
        Some(TokenKind::Punctuation(Punctuation::LBracket)) => parse_bracket(toks, pos, errors),
        Some(TokenKind::Operator(Operator::OrOr)) => parse_closure_tail(
            toks,
            pos + 1,
            st,
            pos,
            no_params(),
            errors,
        ),
        Some(TokenKind::Operator(Operator::Pipe)) => {
            let (params, mid) = parse_closure_params(toks, pos + 1, no_params(), errors);
            match params {
                None => (None, mid),
                Some(ps) => parse_closure_tail(toks, mid, st, pos, ps, errors),
            }
        },
        _ => {
            report(toks, pos, SyntaxErrorKind::UnexpectedToken, Expected::Expression, errors);
            (None, pos)
        },
    }
}

/// Reads a block: `{`, statements, `}`.
#[verifier::spinoff_prover]
pub fn parse_block(toks: &Vec<Token>, pos: usize, errors: &mut Vec<SyntaxError>) -> (r: (
    Option<Vec<Stmt>>,
    usize,
))
    requires
        pos <= toks.len(),
    ensures
        reads(
            grammar::parse_block(tokens_view(toks@), pos as nat),
            option_stmts_view(r.0),
            pos,
            r.1,
            old(errors)@,
            final(errors)@,
        ),
        r.1 <= toks.len(),
        r.0.is_some() ==> r.1 > pos,
    decreases toks.len() - pos, 10nat,
{
    proof {
        reveal_with_fuel(grammar::parse_block, 1);
        reveal_with_fuel(grammar::parse_stmts, 1);
    }
    if !has_punct(toks, pos, 0, Punctuation::LBrace) {
        report(
            toks,
            pos,
            SyntaxErrorKind::MissingToken,
            Expected::Token(TokenKind::Punctuation(Punctuation::LBrace)),
            errors,
        );
        return (None, pos);
    }
    let (body, end) = parse_stmts(toks, pos + 1, no_stmts(), errors);
    if has_punct(toks, end, 0, Punctuation::RBrace) {
        (Some(body), end + 1)
    } else {
        report(
            toks,
            end,
            SyntaxErrorKind::UnbalancedDelimiter,
            Expected::Token(TokenKind::Punctuation(Punctuation::RBrace)),
            errors,
        );
        (None, end)
    }
}

/// Counts the tokens to drop after a statement broke at token `pos`.
fn stmt_skip(toks: &Vec<Token>, pos: usize) -> (n: usize)
    requires
        pos <= toks.len(),
    ensures
        n == grammar::stmt_skip(tokens_view(toks@), pos as nat),
        pos + n <= toks.len(),
{
    let mut i: usize = pos;
    loop
        invariant
            pos <= i <= toks.len(),
            grammar::stmt_skip(tokens_view(toks@), pos as nat) == (i - pos) + grammar::stmt_skip(
                tokens_view(toks@),
                i as nat,
            ),
        decreases toks.len() - i,
    {
        if i >= toks.len() || has_punct(toks, i, 0, Punctuation::RBrace) {
            return i - pos;
        }
        if has_punct(toks, i, 0, Punctuation::Semicolon) {
            return i + 1 - pos;
        }
        i += 1;
    }
}

#[verifier::spinoff_prover]
fn parse_stmts(toks: &Vec<Token>, pos: usize, acc: Vec<Stmt>, errors: &mut Vec<SyntaxError>) -> (r: (
    Vec<Stmt>,
    usize,
))
    requires
        pos <= toks.len(),
    ensures
        reads(
            grammar::parse_stmts(tokens_view(toks@), pos as nat, stmts_view(acc@)),
            Some(stmts_view(r.0@)),
            pos,
            r.1,
            old(errors)@,
            final(errors)@,
        ),
        r.1 <= toks.len(),
    decreases toks.len() - pos, 80nat,
{
    let ghost all = grammar::parse_stmts(tokens_view(toks@), pos as nat, stmts_view(acc@));
    let mut row = acc;
    let mut cur: usize = pos;
    loop
        invariant
            pos <= cur <= toks.len(),
            all == grammar::parse_stmts(tokens_view(toks@), pos as nat, stmts_view(acc@)),
            all.node == grammar::parse_stmts(
                tokens_view(toks@),
                cur as nat,
                stmts_view(row@),
            ).node,
            all.used == (cur - pos) + grammar::parse_stmts(
                tokens_view(toks@),
                cur as nat,
                stmts_view(row@),
            ).used,
            old(errors)@ + all.errors =~= errors@ + grammar::parse_stmts(
                tokens_view(toks@),
                cur as nat,
                stmts_view(row@),
            ).errors,
        decreases toks.len() - cur,
    {
        proof {
            reveal_with_fuel(grammar::parse_stmts, 1);
            reveal_with_fuel(grammar::parse_stmt, 1);
        }
        if cur >= toks.len() || has_punct(toks, cur, 0, Punctuation::RBrace) {
            return (row, cur);
        }
        let (first, end) = parse_stmt(toks, cur, errors);
        match first {
            Some(s) => {
                row = push_stmt(row, s);
                cur = end;
            },
            None => {
                let skip = stmt_skip(toks, end);
                cur = end + skip;
            },
        }
    }
}

/// Reads a statement.
#[verifier::spinoff_prover]
pub fn parse_stmt(toks: &Vec<Token>, pos: usize, errors: &mut Vec<SyntaxError>) -> (r: (
    Option<Stmt>,
    usize,
))
    requires
        pos <= toks.len(),
    ensures
        reads(
            grammar::parse_stmt(tokens_view(toks@), pos as nat),
            option_stmt_view(r.0),
            pos,
            r.1,
            old(errors)@,
            final(errors)@,
        ),
        r.1 <= toks.len(),
        r.1 >= pos,
        r.0.is_some() ==> r.1 > pos,
    decreases toks.len() - pos, 75nat,
{
    proof {
        reveal_with_fuel(grammar::parse_stmt, 1);
        reveal_with_fuel(grammar::parse_let, 1);
        reveal_with_fuel(grammar::parse_if, 1);
        reveal_with_fuel(grammar::parse_while, 1);
        reveal_with_fuel(grammar::parse_for, 1);
        reveal_with_fuel(grammar::parse_block, 1);
        reveal_with_fuel(grammar::parse_return, 1);
        reveal_with_fuel(grammar::parse_expr_stmt, 1);
    }
    match kind_at(toks, pos, 0) {
        Some(TokenKind::Keyword(Keyword::Let)) => parse_let(toks, pos, errors),
        Some(TokenKind::Keyword(Keyword::If)) => parse_if(toks, pos, errors),
        Some(TokenKind::Keyword(Keyword::While)) => parse_while(toks, pos, errors),
        Some(TokenKind::Keyword(Keyword::For)) => parse_for(toks, pos, errors),
        Some(TokenKind::Keyword(Keyword::Loop)) => {
            let (body, end) = parse_block(toks, pos + 1, errors);
            match body {
                None => (None, end),
                Some(b) => (Some(Stmt::Loop { body: b }), end),
            }
        },
        Some(TokenKind::Keyword(Keyword::Break)) => {
            if closes(toks, pos + 1, semicolon(), SyntaxErrorKind::MissingToken, errors) {
                (Some(Stmt::Break), pos + 2)
            } else {
                (None, pos + 1)
            }
        },
        Some(TokenKind::Keyword(Keyword::Continue)) => {
            if closes(toks, pos + 1, semicolon(), SyntaxErrorKind::MissingToken, errors) {
                (Some(Stmt::Continue), pos + 2)
            } else {
                (None, pos + 1)
            }
        },
        Some(TokenKind::Keyword(Keyword::Return)) => parse_return(toks, pos, errors),
        _ => parse_expr_stmt(toks, pos, errors),
    }
}

#[verifier::spinoff_prover]
fn parse_while(toks: &Vec<Token>, pos: usize, errors: &mut Vec<SyntaxError>) -> (r: (
    Option<Stmt>,
    usize,
))
    requires
        pos <= toks.len(),
    ensures
        reads(
            grammar::parse_while(tokens_view(toks@), pos as nat),
            option_stmt_view(r.0),
            pos,
            r.1,
            old(errors)@,
            final(errors)@,
        ),
        r.1 <= toks.len(),
        r.1 >= pos,
        r.0.is_some() ==> r.1 > pos,
    decreases toks.len() - pos, 72nat,
{
    proof {
        reveal_with_fuel(grammar::parse_while, 1);
        reveal_with_fuel(grammar::parse_expr, 1);
        reveal_with_fuel(grammar::parse_block, 1);
    }
    if !has_keyword(toks, pos, 0, Keyword::While) {
        report(
            toks,
            pos,
            SyntaxErrorKind::MissingToken,
            Expected::Token(TokenKind::Keyword(Keyword::While)),
            errors,
        );
        return (None, pos);
    }
    let (cond, mid) = parse_expr(toks, pos + 1, false, errors);
    match cond {
        None => (None, mid),
        Some(c) => {
            let (body, end) = parse_block(toks, mid, errors);
            match body {
                None => (None, end),
                Some(b) => (Some(Stmt::While { cond: c, body: b }), end),
            }
        },
    }
}

#[verifier::spinoff_prover]
fn parse_for(toks: &Vec<Token>, pos: usize, errors: &mut Vec<SyntaxError>) -> (r: (
    Option<Stmt>,
    usize,
))
    requires
        pos <= toks.len(),
    ensures
        reads(
            grammar::parse_for(tokens_view(toks@), pos as nat),
            option_stmt_view(r.0),
            pos,
            r.1,
            old(errors)@,
            final(errors)@,
        ),
        r.1 <= toks.len(),
        r.1 >= pos,
        r.0.is_some() ==> r.1 > pos,
    decreases toks.len() - pos, 72nat,
{
    proof {
        reveal_with_fuel(grammar::parse_for, 1);
        reveal_with_fuel(grammar::parse_expr, 1);
        reveal_with_fuel(grammar::parse_block, 1);
    }
    if !has_keyword(toks, pos, 0, Keyword::For) {
        report(
            toks,
            pos,
            SyntaxErrorKind::MissingToken,
            Expected::Token(TokenKind::Keyword(Keyword::For)),
            errors,
        );
        return (None, pos);
    }
    if !has_identifier(toks, pos, 1) {
        report(toks, pos + 1, SyntaxErrorKind::MissingToken, Expected::Identifier, errors);
        return (None, pos + 1);
    }
    if !has_keyword(toks, pos, 2, Keyword::In) {
        report(
            toks,
            pos + 2,
            SyntaxErrorKind::MissingToken,
            Expected::Token(TokenKind::Keyword(Keyword::In)),
            errors,
        );
        return (None, pos + 2);
    }
    let (range, mid) = parse_expr(toks, pos + 3, false, errors);
    match range {
        None => (None, mid),
        Some(r) => {
            let (body, end) = parse_block(toks, mid, errors);
            match body {
                None => (None, end),
                Some(b) => (Some(Stmt::ForIn { var: text_at(toks, pos + 1), range: r, body: b }), end),
            }
        },
    }
}

#[verifier::spinoff_prover]
fn parse_return(toks: &Vec<Token>, pos: usize, errors: &mut Vec<SyntaxError>) -> (r: (
    Option<Stmt>,
    usize,
))
    requires
        pos <= toks.len(),
    ensures
        reads(
            grammar::parse_return(tokens_view(toks@), pos as nat),
            option_stmt_view(r.0),
            pos,
            r.1,
            old(errors)@,
            final(errors)@,
        ),
        r.1 <= toks.len(),
        r.1 >= pos,
        r.0.is_some() ==> r.1 > pos,
    decreases toks.len() - pos, 72nat,
{
    proof {
        reveal_with_fuel(grammar::parse_return, 1);
        reveal_with_fuel(grammar::parse_expr, 1);
    }
    if !has_keyword(toks, pos, 0, Keyword::Return) {
        report(
            toks,
            pos,
            SyntaxErrorKind::MissingToken,
            Expected::Token(TokenKind::Keyword(Keyword::Return)),
            errors,
        );
        return (None, pos);
    }
    if has_punct(toks, pos, 1, Punctuation::Semicolon) {
        return (Some(Stmt::Return(None)), pos + 2);
    }
    let (value, end) = parse_expr(toks, pos + 1, true, errors);
    match value {
        None => (None, end),
        Some(e) => {
            if closes(toks, end, semicolon(), SyntaxErrorKind::MissingToken, errors) {
                (Some(Stmt::Return(Some(e))), end + 1)
            } else {
                (None, end)
            }
        },
    }
}

#[verifier::spinoff_prover]
fn parse_expr_stmt(toks: &Vec<Token>, pos: usize, errors: &mut Vec<SyntaxError>) -> (r: (
    Option<Stmt>,
    usize,
))
    requires
        pos <= toks.len(),
    ensures
        reads(
            grammar::parse_expr_stmt(tokens_view(toks@), pos as nat),
            option_stmt_view(r.0),
            pos,
            r.1,
            old(errors)@,
            final(errors)@,
        ),
        r.1 <= toks.len(),
        r.1 >= pos,
        r.0.is_some() ==> r.1 > pos,
    decreases toks.len() - pos, 72nat,
{
    proof {
        reveal_with_fuel(grammar::parse_expr_stmt, 1);
        reveal_with_fuel(grammar::parse_expr, 1);
    }
    let (target, mid) = parse_expr(toks, pos, true, errors);
    match target {
        None => (None, mid),
        Some(t) => match assign_op_at(toks, mid) {
            None => {
                if closes(toks, mid, semicolon(), SyntaxErrorKind::MissingToken, errors) {
                    (Some(Stmt::Expr(t)), mid + 1)
                } else {
                    (None, mid)
                }
            },
            Some(op) => {
                let (value, end) = parse_expr(toks, mid + 1, true, errors);
                match value {
                    None => (None, end),
                    Some(v) => {
                        if closes(toks, end, semicolon(), SyntaxErrorKind::MissingToken, errors) {
                            (Some(Stmt::Assign { target: t, op, value: v }), end + 1)
                        } else {
                            (None, end)
                        }
                    },
                }
            },
        },
    }
}

#[verifier::spinoff_prover]
fn parse_let(toks: &Vec<Token>, pos: usize, errors: &mut Vec<SyntaxError>) -> (r: (
    Option<Stmt>,
    usize,
))
    requires
        pos <= toks.len(),
    ensures
        reads(
            grammar::parse_let(tokens_view(toks@), pos as nat),
            option_stmt_view(r.0),
            pos,
            r.1,
            old(errors)@,
            final(errors)@,
        ),
        r.1 <= toks.len(),
        r.1 >= pos,
        r.0.is_some() ==> r.1 > pos,
    decreases toks.len() - pos, 72nat,
{
    proof {
        reveal_with_fuel(grammar::parse_let, 1);
        reveal(grammar::parse_type_annotation);
        reveal_with_fuel(grammar::parse_expr, 1);
    }
    if !has_keyword(toks, pos, 0, Keyword::Let) {
        report(
            toks,
            pos,
            SyntaxErrorKind::MissingToken,
            Expected::Token(TokenKind::Keyword(Keyword::Let)),
            errors,
        );
        return (None, pos);
    }
    let mutable = has_keyword(toks, pos, 1, Keyword::Mut);
    let at: usize = if mutable { 2 } else { 1 };
    if !has_identifier(toks, pos, at) {
        report(toks, pos + at, SyntaxErrorKind::MissingToken, Expected::Identifier, errors);
        return (None, pos + at);
    }
    let name = text_at(toks, pos + at);
    let (ty, mid) = parse_type_annotation(toks, pos + at + 1, errors);
    match ty {
        None => (None, mid),
        Some(declared) => {
            if has_op(toks, mid, 0, Operator::Assign) {
                let (init, end) = parse_expr(toks, mid + 1, true, errors);
                match init {
                    None => (None, end),
                    Some(e) => {
                        if closes(toks, end, semicolon(), SyntaxErrorKind::MissingToken, errors) {
                            (Some(Stmt::Let { name, mutable, declared, init: Some(e) }), end + 1)
                        } else {
                            (None, end)
                        }
                    },
                }
            } else if closes(toks, mid, semicolon(), SyntaxErrorKind::MissingToken, errors) {
                (Some(Stmt::Let { name, mutable, declared, init: None }), mid + 1)
            } else {
                (None, mid)
            }
        },
    }
}

#[verifier::spinoff_prover]
fn parse_if(toks: &Vec<Token>, pos: usize, errors: &mut Vec<SyntaxError>) -> (r: (
    Option<Stmt>,
    usize,
))
    requires
        pos <= toks.len(),
    ensures
        reads(
            grammar::parse_if(tokens_view(toks@), pos as nat),
            option_stmt_view(r.0),
            pos,
            r.1,
            old(errors)@,
            final(errors)@,
        ),
        r.1 <= toks.len(),
        r.1 >= pos,
        r.0.is_some() ==> r.1 > pos,
    decreases toks.len() - pos, 72nat,
{
    proof {
        reveal_with_fuel(grammar::parse_if, 1);
        reveal_with_fuel(grammar::parse_expr, 1);
        reveal_with_fuel(grammar::parse_block, 1);
    }
    if !has_keyword(toks, pos, 0, Keyword::If) {
        report(
            toks,
            pos,
            SyntaxErrorKind::MissingToken,
            Expected::Token(TokenKind::Keyword(Keyword::If)),
            errors,
        );
        return (None, pos);
    }
    let (cond, mid) = parse_expr(toks, pos + 1, false, errors);
    match cond {
        None => (None, mid),
        Some(c) => {
            let (then_block, after) = parse_block(toks, mid, errors);
            match then_block {
                None => (None, after),
                Some(t) => {
                    if !has_keyword(toks, after, 0, Keyword::Else) {
                        (Some(Stmt::If { cond: c, then_block: t, else_block: None }), after)
                    } else if has_keyword(toks, after, 1, Keyword::If) {
                        let (nested, end) = parse_if(toks, after + 1, errors);
                        match nested {
                            None => (None, end),
                            Some(n) => {
                                let block = one_stmt(n);
                                (
                                    Some(
                                        Stmt::If { cond: c, then_block: t, else_block: Some(block) },
                                    ),
                                    end,
                                )
                            },
                        }
                    } else {
                        let (else_block, end) = parse_block(toks, after + 1, errors);
                        match else_block {
                            None => (None, end),
                            Some(e) => (
                                Some(Stmt::If { cond: c, then_block: t, else_block: Some(e) }),
                                end,
                            ),
                        }
                    }
                },
            }
        },
    }
}

/// The value of a parameter that may be absent.
pub open spec fn option_param_view(p: Option<Param>) -> Option<ParamView> {
    match p {
        Some(p) => Some(param_view(p)),
        None => None,
    }
}

/// The value of a function head that may be absent.
pub open spec fn option_signature_view(s: Option<Signature>) -> Option<SignatureView> {
    match s {
        Some(s) => Some(signature_view(s)),
        None => None,
    }
}

/// The value of a function that may be absent.
pub open spec fn option_function_view(f: Option<Function>) -> Option<FunctionView> {
    match f {
        Some(f) => Some(function_view(f)),
        None => None,
    }
}

/// The values of a row of fields of a struct declaration that may be absent.
pub open spec fn option_fields_view(fs: Option<Vec<Field>>) -> Option<Seq<FieldView>> {
    match fs {
        Some(fs) => Some(fields_view(fs@)),
        None => None,
    }
}

/// The values of a row of function heads that may be absent.
pub open spec fn option_signatures_view(ss: Option<Vec<Signature>>) -> Option<Seq<SignatureView>> {
    match ss {
        Some(ss) => Some(signatures_view(ss@)),
        None => None,
    }
}

/// The values of a row of functions that may be absent.
pub open spec fn option_functions_view(fs: Option<Vec<Function>>) -> Option<Seq<FunctionView>> {
    match fs {
        Some(fs) => Some(functions_view(fs@)),
        None => None,
    }
}

/// The value of an item that may be absent.
pub open spec fn option_item_view(item: Option<Item>) -> Option<ItemView> {
    match item {
        Some(item) => Some(item_view(item)),
        None => None,
    }
}

/// The value of a type and value of a constant that may be absent.
pub open spec fn option_binding_view(b: Option<(Type, Expr)>) -> Option<(TypeView, ExprView)> {
    match b {
        Some(b) => Some((type_view(b.0), expr_view(b.1))),
        None => None,
    }
}

/// The value of a text that may be absent.
pub open spec fn option_text_view(t: Option<Vec<u8>>) -> Option<Seq<u8>> {
    match t {
        Some(t) => Some(t@),
        None => None,
    }
}

#[verifier::spinoff_prover]
fn parse_param(toks: &Vec<Token>, pos: usize, errors: &mut Vec<SyntaxError>) -> (r: (
    Option<Param>,
    usize,
))
    requires
        pos <= toks.len(),
    ensures
        reads(
            grammar::parse_param(tokens_view(toks@), pos as nat),
            option_param_view(r.0),
            pos,
            r.1,
            old(errors)@,
            final(errors)@,
        ),
        r.1 <= toks.len(),
{
    proof {
        reveal(grammar::parse_param);
        reveal_with_fuel(grammar::parse_type, 1);
    }
    if has_keyword(toks, pos, 0, Keyword::SelfValue) {
        return (
            Some(Param { name: self_value_name(), ty: Some(Type::Named(self_type_name())) }),
            pos + 1,
        );
    }
    if has_op(toks, pos, 0, Operator::Amp) {
        let mutable = has_keyword(toks, pos, 1, Keyword::Mut);
        let at: usize = if mutable { 2 } else { 1 };
        if has_keyword(toks, pos, at, Keyword::SelfValue) {
            let target = Type::Named(self_type_name());
            assert(type_view(target) == grammar::self_type());
            let ty = Type::Reference(mutable, Box::new(target));
            return (Some(Param { name: self_value_name(), ty: Some(ty) }), pos + at + 1);
        }
        report(
            toks,
            pos + at,
            SyntaxErrorKind::MissingToken,
            Expected::Token(TokenKind::Keyword(Keyword::SelfValue)),
            errors,
        );
        return (None, pos + at);
    }
    if !has_identifier(toks, pos, 0) {
        report(toks, pos, SyntaxErrorKind::MissingToken, Expected::Identifier, errors);
        return (None, pos);
    }
    if !has_punct(toks, pos, 1, Punctuation::Colon) {
        report(
            toks,
            pos + 1,
            SyntaxErrorKind::MissingToken,
            Expected::Token(TokenKind::Punctuation(Punctuation::Colon)),
            errors,
        );
        return (None, pos + 1);
    }
    let (ty, end) = parse_type(toks, pos + 2, errors);
    match ty {
        None => (None, end),
        Some(t) => (Some(Param { name: text_at(toks, pos), ty: Some(t) }), end),
    }
}

#[verifier::spinoff_prover]
fn parse_params(toks: &Vec<Token>, pos: usize, acc: Vec<Param>, errors: &mut Vec<SyntaxError>) -> (r: (
    Option<Vec<Param>>,
    usize,
))
    requires
        pos <= toks.len(),
    ensures
        reads(
            grammar::parse_params(tokens_view(toks@), pos as nat, params_view(acc@)),
            option_params_view(r.0),
            pos,
            r.1,
            old(errors)@,
            final(errors)@,
        ),
        r.1 <= toks.len(),
    decreases toks.len() - pos,
{
    proof {
        reveal_with_fuel(grammar::parse_params, 1);
        reveal(grammar::parse_param);
    }
    if has_punct(toks, pos, 0, Punctuation::RParen) {
        return (Some(acc), pos + 1);
    }
    let (param, end) = parse_param(toks, pos, errors);
    match param {
        None => (None, end),
        Some(p) => {
            let acc = push_param(acc, p);
            if has_punct(toks, end, 0, Punctuation::Comma) {
                parse_params(toks, end + 1, acc, errors)
            } else if has_punct(toks, end, 0, Punctuation::RParen) {
                (Some(acc), end + 1)
            } else {
                report(
                    toks,
                    end,
                    SyntaxErrorKind::UnbalancedDelimiter,
                    Expected::Token(TokenKind::Punctuation(Punctuation::RParen)),
                    errors,
                );
                (None, end)
            }
        },
    }
}

#[verifier::spinoff_prover]
fn parse_signature(toks: &Vec<Token>, pos: usize, errors: &mut Vec<SyntaxError>) -> (r: (
    Option<Signature>,
    usize,
))
    requires
        pos <= toks.len(),
    ensures
        reads(
            grammar::parse_signature(tokens_view(toks@), pos as nat),
            option_signature_view(r.0),
            pos,
            r.1,
            old(errors)@,
            final(errors)@,
        ),
        r.1 <= toks.len(),
        r.0.is_some() ==> r.1 > pos,
{
    proof {
        reveal(grammar::parse_signature);
        reveal_with_fuel(grammar::parse_params, 1);
        reveal(grammar::parse_return_type);
    }
    if !has_keyword(toks, pos, 0, Keyword::Fn) {
        report(
            toks,
            pos,
            SyntaxErrorKind::MissingToken,
            Expected::Token(TokenKind::Keyword(Keyword::Fn)),
            errors,
        );
        return (None, pos);
    }
    if !has_identifier(toks, pos, 1) {
        report(toks, pos + 1, SyntaxErrorKind::MissingToken, Expected::Identifier, errors);
        return (None, pos + 1);
    }
    if !has_punct(toks, pos, 2, Punctuation::LParen) {
        report(
            toks,
            pos + 2,
            SyntaxErrorKind::MissingToken,
            Expected::Token(TokenKind::Punctuation(Punctuation::LParen)),
            errors,
        );
        return (None, pos + 2);
    }
    let (params, mid) = parse_params(toks, pos + 3, no_params(), errors);
    match params {
        None => (None, mid),
        Some(ps) => {
            let (ret, end) = parse_return_type(toks, mid, errors);
            match ret {
                None => (None, end),
                Some(r) => (Some(Signature { name: text_at(toks, pos + 1), params: ps, ret: r }), end),
            }
        },
    }
}

#[verifier::spinoff_prover]
fn parse_function(toks: &Vec<Token>, pos: usize, errors: &mut Vec<SyntaxError>) -> (r: (
    Option<Function>,
    usize,
))
    requires
        pos <= toks.len(),
    ensures
        reads(
            grammar::parse_function(tokens_view(toks@), pos as nat),
            option_function_view(r.0),
            pos,
            r.1,
            old(errors)@,
            final(errors)@,
        ),
        r.1 <= toks.len(),
        r.1 >= pos,
        r.0.is_some() ==> r.1 > pos,
{
    proof {
        reveal(grammar::parse_function);
        reveal(grammar::parse_signature);
        reveal_with_fuel(grammar::parse_block, 1);
    }
    let (sig, mid) = parse_signature(toks, pos, errors);
    match sig {
        None => (None, mid),
        Some(s) => {
            let (body, end) = parse_block(toks, mid, errors);
            match body {
                None => (None, end),
                Some(b) => (Some(Function { sig: s, body: b }), end),
            }
        },
    }
}

#[verifier::spinoff_prover]
fn parse_fields(toks: &Vec<Token>, pos: usize, acc: Vec<Field>, errors: &mut Vec<SyntaxError>) -> (r: (
    Option<Vec<Field>>,
    usize,
))
    requires
        pos <= toks.len(),
    ensures
        reads(
            grammar::parse_fields(tokens_view(toks@), pos as nat, fields_view(acc@)),
            option_fields_view(r.0),
            pos,
            r.1,
            old(errors)@,
            final(errors)@,
        ),
        r.1 <= toks.len(),
    decreases toks.len() - pos,
{
    proof {
        reveal_with_fuel(grammar::parse_fields, 1);
        reveal_with_fuel(grammar::parse_type, 1);
    }
    if has_punct(toks, pos, 0, Punctuation::RBrace) {
        return (Some(acc), pos + 1);
    }
    if !has_identifier(toks, pos, 0) {
        report(toks, pos, SyntaxErrorKind::MissingToken, Expected::Identifier, errors);
        return (None, pos);
    }
    if !has_punct(toks, pos, 1, Punctuation::Colon) {
        report(
            toks,
            pos + 1,
            SyntaxErrorKind::MissingToken,
            Expected::Token(TokenKind::Punctuation(Punctuation::Colon)),
            errors,
        );
        return (None, pos + 1);
    }
    let (ty, end) = parse_type(toks, pos + 2, errors);
    match ty {
        None => (None, end),
        Some(t) => {
            let acc = push_field(acc, Field { name: text_at(toks, pos), ty: t });
            if has_punct(toks, end, 0, Punctuation::Comma) {
                parse_fields(toks, end + 1, acc, errors)
            } else if has_punct(toks, end, 0, Punctuation::RBrace) {
                (Some(acc), end + 1)
            } else {
                report(
                    toks,
                    end,
                    SyntaxErrorKind::UnbalancedDelimiter,
                    Expected::Token(TokenKind::Punctuation(Punctuation::RBrace)),
                    errors,
                );
                (None, end)
            }
        },
    }
}

#[verifier::spinoff_prover]
fn parse_variants(
    toks: &Vec<Token>,
    pos: usize,
    acc: Vec<Vec<u8>>,
    errors: &mut Vec<SyntaxError>,
) -> (r: (Option<Vec<Vec<u8>>>, usize))
    requires
        pos <= toks.len(),
    ensures
        reads(
            grammar::parse_variants(tokens_view(toks@), pos as nat, names_view(acc@)),
            option_names_view(r.0),
            pos,
            r.1,
            old(errors)@,
            final(errors)@,
        ),
        r.1 <= toks.len(),
    decreases toks.len() - pos,
{
    proof {
        reveal_with_fuel(grammar::parse_variants, 1);
    }
    if has_punct(toks, pos, 0, Punctuation::RBrace) {
        return (Some(acc), pos + 1);
    }
    if !has_identifier(toks, pos, 0) {
        report(toks, pos, SyntaxErrorKind::MissingToken, Expected::Identifier, errors);
        return (None, pos);
    }
    if has_punct(toks, pos, 1, Punctuation::Comma) {
        let acc = push_name(acc, text_at(toks, pos));
        parse_variants(toks, pos + 2, acc, errors)
    } else if has_punct(toks, pos, 1, Punctuation::RBrace) {
        let acc = push_name(acc, text_at(toks, pos));
        (Some(acc), pos + 2)
    } else {
        report(
            toks,
            pos + 1,
            SyntaxErrorKind::UnbalancedDelimiter,
            Expected::Token(TokenKind::Punctuation(Punctuation::RBrace)),
            errors,
        );
        (None, pos + 1)
    }
}

#[verifier::spinoff_prover]
fn parse_trait_methods(
    toks: &Vec<Token>,
    pos: usize,
    acc: Vec<Signature>,
    errors: &mut Vec<SyntaxError>,
) -> (r: (Option<Vec<Signature>>, usize))
    requires
        pos <= toks.len(),
    ensures
        reads(
            grammar::parse_trait_methods(tokens_view(toks@), pos as nat, signatures_view(acc@)),
            option_signatures_view(r.0),
            pos,
            r.1,
            old(errors)@,
            final(errors)@,
        ),
        r.1 <= toks.len(),
    decreases toks.len() - pos,
{
    proof {
        reveal_with_fuel(grammar::parse_trait_methods, 1);
        reveal(grammar::parse_signature);
    }
    if has_punct(toks, pos, 0, Punctuation::RBrace) {
        return (Some(acc), pos + 1);
    }
    let (sig, end) = parse_signature(toks, pos, errors);
    match sig {
        None => (None, end),
        Some(s) => {
            if closes(toks, end, semicolon(), SyntaxErrorKind::MissingToken, errors) {
                let acc = push_signature(acc, s);
                parse_trait_methods(toks, end + 1, acc, errors)
            } else {
                (None, end)
            }
        },
    }
}

#[verifier::spinoff_prover]
fn parse_impl_methods(
    toks: &Vec<Token>,
    pos: usize,
    acc: Vec<Function>,
    errors: &mut Vec<SyntaxError>,
) -> (r: (Option<Vec<Function>>, usize))
    requires
        pos <= toks.len(),
    ensures
        reads(
            grammar::parse_impl_methods(tokens_view(toks@), pos as nat, functions_view(acc@)),
            option_functions_view(r.0),
            pos,
            r.1,
            old(errors)@,
            final(errors)@,
        ),
        r.1 <= toks.len(),
{
    let ghost all = grammar::parse_impl_methods(
        tokens_view(toks@),
        pos as nat,
        functions_view(acc@),
    );
    let mut row = acc;
    let mut cur: usize = pos;
    loop
        invariant
            pos <= cur <= toks.len(),
            all == grammar::parse_impl_methods(tokens_view(toks@), pos as nat, functions_view(acc@)),
            all.node == grammar::parse_impl_methods(
                tokens_view(toks@),
                cur as nat,
                functions_view(row@),
            ).node,
            all.used == (cur - pos) + grammar::parse_impl_methods(
                tokens_view(toks@),
                cur as nat,
                functions_view(row@),
            ).used,
            old(errors)@ + all.errors =~= errors@ + grammar::parse_impl_methods(
                tokens_view(toks@),
                cur as nat,
                functions_view(row@),
            ).errors,
        decreases toks.len() - cur,
    {
        proof {
            reveal_with_fuel(grammar::parse_impl_methods, 1);
            reveal(grammar::parse_function);
        }
        if has_punct(toks, cur, 0, Punctuation::RBrace) {
            return (Some(row), cur + 1);
        }
        if cur >= toks.len() {
            report(
                toks,
                cur,
                SyntaxErrorKind::UnbalancedDelimiter,
                Expected::Token(TokenKind::Punctuation(Punctuation::RBrace)),
                errors,
            );
            return (None, cur);
        }
        let (method, end) = parse_function(toks, cur, errors);
        match method {
            None => {
                return (None, end);
            },
            Some(m) => {
                row = push_function(row, m);
                cur = end;
            },
        }
    }
}

#[verifier::spinoff_prover]
fn parse_binding(toks: &Vec<Token>, pos: usize, at: usize, errors: &mut Vec<SyntaxError>) -> (r: (
    Option<(Type, Expr)>,
    usize,
))
    requires
        pos + at <= toks.len(),
    ensures
        reads(
            grammar::parse_binding(tokens_view(toks@), pos as nat, at as nat),
            option_binding_view(r.0),
            pos,
            r.1,
            old(errors)@,
            final(errors)@,
        ),
        r.1 <= toks.len(),
        r.1 >= pos + at,
{
    proof {
        reveal(grammar::parse_binding);
        reveal_with_fuel(grammar::parse_type, 1);
        reveal_with_fuel(grammar::parse_expr, 1);
    }
    if !has_punct(toks, pos, at, Punctuation::Colon) {
        report(
            toks,
            pos + at,
            SyntaxErrorKind::MissingToken,
            Expected::Token(TokenKind::Punctuation(Punctuation::Colon)),
            errors,
        );
        return (None, pos + at);
    }
    let (ty, mid) = parse_type(toks, pos + at + 1, errors);
    match ty {
        None => (None, mid),
        Some(t) => {
            if !has_op(toks, mid, 0, Operator::Assign) {
                report(
                    toks,
                    mid,
                    SyntaxErrorKind::MissingToken,
                    Expected::Token(TokenKind::Operator(Operator::Assign)),
                    errors,
                );
                return (None, mid);
            }
            let (value, end) = parse_expr(toks, mid + 1, true, errors);
            match value {
                None => (None, end),
                Some(v) => {
                    if closes(toks, end, semicolon(), SyntaxErrorKind::MissingToken, errors) {
                        (Some((t, v)), end + 1)
                    } else {
                        (None, end)
                    }
                },
            }
        },
    }
}

#[verifier::spinoff_prover]
fn parse_head(toks: &Vec<Token>, pos: usize, errors: &mut Vec<SyntaxError>) -> (r: (
    Option<Vec<u8>>,
    usize,
))
    requires
        pos < toks.len(),
    ensures
        reads(
            grammar::parse_head(tokens_view(toks@), pos as nat),
            option_text_view(r.0),
            pos,
            r.1,
            old(errors)@,
            final(errors)@,
        ),
        r.1 <= toks.len(),
        r.1 > pos,
{
    proof {
        reveal(grammar::parse_head);
    }
    if !has_identifier(toks, pos, 1) {
        report(toks, pos + 1, SyntaxErrorKind::MissingToken, Expected::Identifier, errors);
        return (None, pos + 1);
    }
    if !has_punct(toks, pos, 2, Punctuation::LBrace) {
        report(
            toks,
            pos + 2,
            SyntaxErrorKind::MissingToken,
            Expected::Token(TokenKind::Punctuation(Punctuation::LBrace)),
            errors,
        );
        return (None, pos + 2);
    }
    (Some(text_at(toks, pos + 1)), pos + 3)
}

#[verifier::spinoff_prover]
fn parse_const(toks: &Vec<Token>, pos: usize, errors: &mut Vec<SyntaxError>) -> (r: (
    Option<Item>,
    usize,
))
    requires
        pos < toks.len(),
    ensures
        reads(
            grammar::parse_const(tokens_view(toks@), pos as nat),
            option_item_view(r.0),
            pos,
            r.1,
            old(errors)@,
            final(errors)@,
        ),
        r.1 <= toks.len(),
        r.1 > pos,
{
    proof {
        reveal(grammar::parse_const);
        reveal(grammar::parse_binding);
    }
    if !has_identifier(toks, pos, 1) {
        report(toks, pos + 1, SyntaxErrorKind::MissingToken, Expected::Identifier, errors);
        return (None, pos + 1);
    }
    let (rest, end) = parse_binding(toks, pos, 2, errors);
    match rest {
        None => (None, end),
        Some(b) => (Some(Item::Const { name: text_at(toks, pos + 1), ty: b.0, value: b.1 }), end),
    }
}

#[verifier::spinoff_prover]
fn parse_static(toks: &Vec<Token>, pos: usize, errors: &mut Vec<SyntaxError>) -> (r: (
    Option<Item>,
    usize,
))
    requires
        pos < toks.len(),
    ensures
        reads(
            grammar::parse_static(tokens_view(toks@), pos as nat),
            option_item_view(r.0),
            pos,
            r.1,
            old(errors)@,
            final(errors)@,
        ),
        r.1 <= toks.len(),
        r.1 > pos,
{
    proof {
        reveal(grammar::parse_static);
        reveal(grammar::parse_binding);
    }
    let mutable = has_keyword(toks, pos, 1, Keyword::Mut);
    let at: usize = if mutable { 2 } else { 1 };
    if !has_identifier(toks, pos, at) {
        report(toks, pos + at, SyntaxErrorKind::MissingToken, Expected::Identifier, errors);
        return (None, pos + at);
    }
    let (rest, end) = parse_binding(toks, pos, at + 1, errors);
    match rest {
        None => (None, end),
        Some(b) => (
            Some(Item::Static { name: text_at(toks, pos + at), mutable, ty: b.0, value: b.1 }),
            end,
        ),
    }
}

#[verifier::spinoff_prover]
fn parse_struct(toks: &Vec<Token>, pos: usize, errors: &mut Vec<SyntaxError>) -> (r: (
    Option<Item>,
    usize,
))
    requires
        pos < toks.len(),
    ensures
        reads(
            grammar::parse_struct(tokens_view(toks@), pos as nat),
            option_item_view(r.0),
            pos,
            r.1,
            old(errors)@,
            final(errors)@,
        ),
        r.1 <= toks.len(),
        r.1 > pos,
{
    proof {
        reveal(grammar::parse_struct);
        reveal(grammar::parse_head);
        reveal_with_fuel(grammar::parse_fields, 1);
    }
    let (head, mid) = parse_head(toks, pos, errors);
    match head {
        None => (None, mid),
        Some(name) => {
            let (fields, end) = parse_fields(toks, mid, no_fields(), errors);
            match fields {
                None => (None, end),
                Some(f) => (Some(Item::Struct { name, fields: f }), end),
            }
        },
    }
}

#[verifier::spinoff_prover]
fn parse_enum(toks: &Vec<Token>, pos: usize, errors: &mut Vec<SyntaxError>) -> (r: (
    Option<Item>,
    usize,
))
    requires
        pos < toks.len(),
    ensures
        reads(
            grammar::parse_enum(tokens_view(toks@), pos as nat),
            option_item_view(r.0),
            pos,
            r.1,
            old(errors)@,
            final(errors)@,
        ),
        r.1 <= toks.len(),
        r.1 > pos,
{
    proof {
        reveal(grammar::parse_enum);
        reveal(grammar::parse_head);
        reveal_with_fuel(grammar::parse_variants, 1);
    }
    let (head, mid) = parse_head(toks, pos, errors);
    match head {
        None => (None, mid),
        Some(name) => {
            let (variants, end) = parse_variants(toks, mid, no_names(), errors);
            match variants {
                None => (None, end),
                Some(v) => (Some(Item::Enum { name, variants: v }), end),
            }
        },
    }
}

#[verifier::spinoff_prover]
fn parse_trait(toks: &Vec<Token>, pos: usize, errors: &mut Vec<SyntaxError>) -> (r: (
    Option<Item>,
    usize,
))
    requires
        pos < toks.len(),
    ensures
        reads(
            grammar::parse_trait(tokens_view(toks@), pos as nat),
            option_item_view(r.0),
            pos,
            r.1,
            old(errors)@,
            final(errors)@,
        ),
        r.1 <= toks.len(),
        r.1 > pos,
{
    proof {
        reveal(grammar::parse_trait);
        reveal(grammar::parse_head);
        reveal_with_fuel(grammar::parse_trait_methods, 1);
    }
    let (head, mid) = parse_head(toks, pos, errors);
    match head {
        None => (None, mid),
        Some(name) => {
            let (methods, end) = parse_trait_methods(toks, mid, no_signatures(), errors);
            match methods {
                None => (None, end),
                Some(m) => (Some(Item::Trait { name, methods: m }), end),
            }
        },
    }
}

#[verifier::spinoff_prover]
fn parse_impl(toks: &Vec<Token>, pos: usize, errors: &mut Vec<SyntaxError>) -> (r: (
    Option<Item>,
    usize,
))
    requires
        pos < toks.len(),
    ensures
        reads(
            grammar::parse_impl(tokens_view(toks@), pos as nat),
            option_item_view(r.0),
            pos,
            r.1,
            old(errors)@,
            final(errors)@,
        ),
        r.1 <= toks.len(),
        r.1 > pos,
{
    proof {
        reveal(grammar::parse_impl);
        reveal(grammar::parse_head);
        reveal_with_fuel(grammar::parse_impl_methods, 1);
    }
    if !has_identifier(toks, pos, 1) {
        report(toks, pos + 1, SyntaxErrorKind::MissingToken, Expected::Identifier, errors);
        return (None, pos + 1);
    }
    if has_keyword(toks, pos, 2, Keyword::For) {
        let (head, mid) = parse_head(toks, pos + 2, errors);
        match head {
            None => (None, mid),
            Some(target) => {
                let (methods, end) = parse_impl_methods(toks, mid, no_functions(), errors);
                match methods {
                    None => (None, end),
                    Some(m) => (
                        Some(
                            Item::Impl {
                                target,
                                trait_name: Some(text_at(toks, pos + 1)),
                                methods: m,
                            },
                        ),
                        end,
                    ),
                }
            },
        }
    } else {
        let (head, mid) = parse_head(toks, pos, errors);
        match head {
            None => (None, mid),
            Some(target) => {
                let (methods, end) = parse_impl_methods(toks, mid, no_functions(), errors);
                match methods {
                    None => (None, end),
                    Some(m) => (Some(Item::Impl { target, trait_name: None, methods: m }), end),
                }
            },
        }
    }
}

/// Reads a top-level item.
#[verifier::spinoff_prover]
pub fn parse_item(toks: &Vec<Token>, pos: usize, errors: &mut Vec<SyntaxError>) -> (r: (
    Option<Item>,
    usize,
))
    requires
        pos <= toks.len(),
    ensures
        reads(
            grammar::parse_item(tokens_view(toks@), pos as nat),
            option_item_view(r.0),
            pos,
            r.1,
            old(errors)@,
            final(errors)@,
        ),
        r.1 <= toks.len(),
        r.1 >= pos,
        r.0.is_some() ==> r.1 > pos,
{
    proof {
        reveal(grammar::parse_item);
        reveal(grammar::parse_const);
        reveal(grammar::parse_static);
        reveal(grammar::parse_struct);
        reveal(grammar::parse_enum);
        reveal(grammar::parse_trait);
        reveal(grammar::parse_impl);
        reveal(grammar::parse_function);
    }
    match kind_at(toks, pos, 0) {
        Some(TokenKind::Keyword(Keyword::Const)) => parse_const(toks, pos, errors),
        Some(TokenKind::Keyword(Keyword::Static)) => parse_static(toks, pos, errors),
        Some(TokenKind::Keyword(Keyword::Struct)) => parse_struct(toks, pos, errors),
        Some(TokenKind::Keyword(Keyword::Enum)) => parse_enum(toks, pos, errors),
        Some(TokenKind::Keyword(Keyword::Trait)) => parse_trait(toks, pos, errors),
        Some(TokenKind::Keyword(Keyword::Impl)) => parse_impl(toks, pos, errors),
        Some(TokenKind::Keyword(Keyword::Fn)) => {
            let (function, end) = parse_function(toks, pos, errors);
            match function {
                None => (None, end),
                Some(f) => (Some(Item::Function(f)), end),
            }
        },
        _ => {
            report(toks, pos, SyntaxErrorKind::UnexpectedToken, Expected::Item, errors);
            (None, pos)
        },
    }
}

/// Counts the tokens to drop after an item broke at token `pos`.
fn item_skip(toks: &Vec<Token>, pos: usize) -> (n: usize)
    requires
        pos <= toks.len(),
    ensures
        n == grammar::item_skip(tokens_view(toks@), pos as nat),
        pos + n <= toks.len(),
        pos < toks.len() ==> n >= 1,
{
    let mut i: usize = pos;
    loop
        invariant
            pos <= i <= toks.len(),
            grammar::item_skip(tokens_view(toks@), pos as nat) == (i - pos) + grammar::item_skip(
                tokens_view(toks@),
                i as nat,
            ),
        decreases toks.len() - i,
    {
        if i >= toks.len() {
            return i - pos;
        }
        if has_punct(toks, i, 0, Punctuation::Semicolon) || has_punct(
            toks,
            i,
            0,
            Punctuation::RBrace,
        ) {
            return i + 1 - pos;
        }
        i += 1;
    }
}

#[verifier::spinoff_prover]
fn parse_items(toks: &Vec<Token>, pos: usize, acc: Vec<Item>, errors: &mut Vec<SyntaxError>) -> (r: (
    Vec<Item>,
    usize,
))
    requires
        pos <= toks.len(),
    ensures
        reads(
            grammar::parse_items(tokens_view(toks@), pos as nat, items_view(acc@)),
            Some(items_view(r.0@)),
            pos,
            r.1,
            old(errors)@,
            final(errors)@,
        ),
        r.1 <= toks.len(),
{
    let ghost all = grammar::parse_items(tokens_view(toks@), pos as nat, items_view(acc@));
    let mut row = acc;
    let mut cur: usize = pos;
    loop
        invariant
            pos <= cur <= toks.len(),
            all == grammar::parse_items(tokens_view(toks@), pos as nat, items_view(acc@)),
            all.node == grammar::parse_items(
                tokens_view(toks@),
                cur as nat,
                items_view(row@),
            ).node,
            all.used == (cur - pos) + grammar::parse_items(
                tokens_view(toks@),
                cur as nat,
                items_view(row@),
            ).used,
            old(errors)@ + all.errors =~= errors@ + grammar::parse_items(
                tokens_view(toks@),
                cur as nat,
                items_view(row@),
            ).errors,
        decreases toks.len() - cur,
    {
        proof {
            reveal_with_fuel(grammar::parse_items, 1);
            reveal(grammar::parse_item);
        }
        if cur >= toks.len() {
            return (row, cur);
        }
        let (first, end) = parse_item(toks, cur, errors);
        match first {
            Some(item) => {
                row = push_item(row, item);
                cur = end;
            },
            None => {
                let skip = item_skip(toks, end);
                cur = end + skip;
            },
        }
    }
}

/// Reads a program from a row of tokens.
///
/// Returns the items that could be read, in source order, and the syntax
/// errors met, in the order in which they were met. Any row of tokens is
/// accepted: where nothing can be read the program is empty.
#[verifier::spinoff_prover]
pub fn parse(tokens: &Vec<Token>) -> (r: (Program, Vec<SyntaxError>))
    ensures
        r.0@ == grammar::parse_program(tokens_view(tokens@)),
        r.1@ == grammar::syntax_errors(tokens_view(tokens@)),
{
    proof {
        reveal(grammar::parse_program);
        reveal_with_fuel(grammar::parse_items, 1);
    }
    let mut errors: Vec<SyntaxError> = Vec::new();
    let (items, _end) = parse_items(tokens, 0, no_items(), &mut errors);
    assert(errors@ =~= grammar::syntax_errors(tokens_view(tokens@)));
    (Program { items }, errors)
}

} // verus!
