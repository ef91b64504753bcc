//! The grammar, as functions from a row of tokens to a tree.
//!
//! Each function reads the construct that starts at token `pos` and says
//! what was read: the tree, the number of tokens used, and the syntax errors
//! met on the way. A construct that cannot be read has no tree; its last error
//! says what was expected at the token after the `used` ones.

use vstd::prelude::*;
use crate::text::{all_digits, decimal_value};
use crate::token::{Keyword, Macro, Operator, Position, Punctuation, TokenKind, TokenView};
use crate::ast::{
    AssignOp, BinaryOp, ClosureBodyView, ExprKindView, ExprView, FieldInitView, FieldView,
    FunctionView, ItemView, ParamView, ProgramView, SignatureView, StmtView, UnaryOp,
};
use crate::types::{Primitive, TypeView};

verus! {

/// The kinds of syntax error.
#[derive(Clone, Copy, Debug, PartialEq, Eq, Structural)]
pub enum SyntaxErrorKind {
    /// The token starts nothing that may stand here.
    UnexpectedToken,
    /// One particular token, or a name, had to stand here.
    MissingToken,
    /// A bracket was opened and its closing bracket does not stand here.
    UnbalancedDelimiter,
}

/// What the parser was looking for when it met an error.
#[derive(Clone, Copy, Debug, PartialEq, Eq, Structural)]
pub enum Expected {
    /// This very token.
    Token(TokenKind),
    Identifier,
    Expression,
    Type,
    Item,
    /// An integer literal that fits in 64 bits.
    ArraySize,
}

/// A syntax error: what was expected, what was found in its place (`None`
/// at the end of the input), and where.
#[derive(Clone, Copy, Debug, PartialEq, Eq, Structural)]
pub struct SyntaxError {
    pub kind: SyntaxErrorKind,
    pub expected: Expected,
    pub found: Option<TokenKind>,
    pub pos: Position,
}

/// What reading one construct gave.
pub struct Parsed<T> {
    pub node: Option<T>,
    pub used: nat,
    pub errors: Seq<SyntaxError>,
}

impl<T> Parsed<T> {
    /// The construct was read from `used` tokens, without error.
    pub open spec fn ok(node: T, used: nat) -> Self {
        Parsed { node: Some(node), used, errors: Seq::empty() }
    }

    /// The same outcome for a construct that began `first.used` tokens
    /// earlier, with what `first` read.
    pub open spec fn after<U>(self, first: Parsed<U>) -> Self {
        Parsed { node: self.node, used: first.used + self.used, errors: first.errors + self.errors }
    }

    /// The same outcome for a construct that began `n` tokens earlier.
    pub open spec fn shifted(self, n: nat) -> Self {
        Parsed { node: self.node, used: n + self.used, errors: self.errors }
    }

    /// The same failure, of a construct of another kind.
    pub open spec fn failed<U>(self) -> Parsed<U> {
        Parsed { node: None, used: self.used, errors: self.errors }
    }

    /// The same outcome with another tree in place of the one read.
    pub open spec fn with<U>(self, node: U) -> Parsed<U> {
        Parsed { node: Some(node), used: self.used, errors: self.errors }
    }
}

/// The kind of token `pos`, if there is such a token.
pub open spec fn kind_at(toks: Seq<TokenView>, pos: nat) -> Option<TokenKind> {
    if pos < toks.len() {
        Some(toks[pos as int].kind)
    } else {
        None
    }
}

/// The text of token `pos`.
pub open spec fn text_at(toks: Seq<TokenView>, pos: nat) -> Seq<u8> {
    toks[pos as int].lexeme
}

/// Whether token `pos` is the punctuation `p`.
pub open spec fn has_punct(toks: Seq<TokenView>, pos: nat, p: Punctuation) -> bool {
    kind_at(toks, pos) == Some(TokenKind::Punctuation(p))
}

/// Whether token `pos` is the operator `o`.
pub open spec fn has_op(toks: Seq<TokenView>, pos: nat, o: Operator) -> bool {
    kind_at(toks, pos) == Some(TokenKind::Operator(o))
}

/// Whether token `pos` is the keyword `k`.
pub open spec fn has_keyword(toks: Seq<TokenView>, pos: nat, k: Keyword) -> bool {
    kind_at(toks, pos) == Some(TokenKind::Keyword(k))
}

/// Whether token `pos` is an identifier.
pub open spec fn has_identifier(toks: Seq<TokenView>, pos: nat) -> bool {
    kind_at(toks, pos) == Some(TokenKind::Identifier)
}

/// Where token `pos` starts; past the end, where the last token starts; in
/// an empty input, line 1 and column 1.
pub open spec fn place_at(toks: Seq<TokenView>, pos: nat) -> Position {
    if pos < toks.len() {
        Position { line: toks[pos as int].line as usize, column: toks[pos as int].column as usize }
    } else if toks.len() > 0 {
        Position { line: toks.last().line as usize, column: toks.last().column as usize }
    } else {
        Position { line: 1, column: 1 }
    }
}

/// The error of meeting token `at` where `expected` had to stand.
pub open spec fn error_at(
    toks: Seq<TokenView>,
    at: nat,
    kind: SyntaxErrorKind,
    expected: Expected,
) -> SyntaxError {
    SyntaxError { kind, expected, found: kind_at(toks, at), pos: place_at(toks, at) }
}

/// A construct that began at token `pos` and broke at token `pos + used`.
pub open spec fn fail<T>(
    toks: Seq<TokenView>,
    pos: nat,
    used: nat,
    kind: SyntaxErrorKind,
    expected: Expected,
) -> Parsed<T> {
    Parsed { node: None, used, errors: seq![error_at(toks, pos + used, kind, expected)] }
}

/// A construct that began at token `pos`, read `first` and `extra` tokens
/// more, and broke at the token after those.
pub open spec fn fail_after<T, U>(
    first: Parsed<U>,
    toks: Seq<TokenView>,
    pos: nat,
    extra: nat,
    kind: SyntaxErrorKind,
    expected: Expected,
) -> Parsed<T> {
    Parsed {
        node: None,
        used: first.used + extra,
        errors: first.errors.push(error_at(toks, pos + first.used + extra, kind, expected)),
    }
}

/// The number of tokens of `toks` from token `pos` on.
pub open spec fn left(toks: Seq<TokenView>, pos: nat) -> nat {
    if pos < toks.len() {
        (toks.len() - pos) as nat
    } else {
        0
    }
}

/// The spelling of `i32`.
pub open spec fn text_i32() -> Seq<u8> {
    seq!['i' as u8, '3' as u8, '2' as u8]
}

/// The spelling of `f64`.
pub open spec fn text_f64() -> Seq<u8> {
    seq!['f' as u8, '6' as u8, '4' as u8]
}

/// The spelling of `bool`.
pub open spec fn text_bool() -> Seq<u8> {
    seq!['b' as u8, 'o' as u8, 'o' as u8, 'l' as u8]
}

/// The spelling of `char`.
pub open spec fn text_char() -> Seq<u8> {
    seq!['c' as u8, 'h' as u8, 'a' as u8, 'r' as u8]
}

/// The spelling of `str`.
pub open spec fn text_str() -> Seq<u8> {
    seq!['s' as u8, 't' as u8, 'r' as u8]
}

/// The spelling of `String`.
pub open spec fn text_string() -> Seq<u8> {
    seq!['S' as u8, 't' as u8, 'r' as u8, 'i' as u8, 'n' as u8, 'g' as u8]
}

/// The spelling of `Self`.
pub open spec fn text_self_type() -> Seq<u8> {
    seq!['S' as u8, 'e' as u8, 'l' as u8, 'f' as u8]
}

/// The spelling of `self`.
pub open spec fn text_self_value() -> Seq<u8> {
    seq!['s' as u8, 'e' as u8, 'l' as u8, 'f' as u8]
}

/// The type that a name written in type position stands for.
pub open spec fn named_type(name: Seq<u8>) -> TypeView {
    if name == text_i32() {
        TypeView::Primitive(Primitive::I32)
    } else if name == text_f64() {
        TypeView::Primitive(Primitive::F64)
    } else if name == text_bool() {
        TypeView::Primitive(Primitive::Bool)
    } else if name == text_char() {
        TypeView::Primitive(Primitive::Char)
    } else if name == text_string() {
        TypeView::Primitive(Primitive::String)
    } else {
        TypeView::Named(name)
    }
}

/// The type that `&` or `&mut` before `target` writes: `&str` is the
/// primitive string slice.
pub open spec fn reference_type(mutable: bool, target: TypeView) -> TypeView {
    if !mutable && target == TypeView::Named(text_str()) {
        TypeView::Primitive(Primitive::StrRef)
    } else {
        TypeView::Reference(mutable, Box::new(target))
    }
}

/// The type of a parenthesised row of types: none is the unit type.
pub open spec fn tuple_type(elements: Seq<TypeView>) -> TypeView {
    if elements.len() == 0 {
        TypeView::Primitive(Primitive::Unit)
    } else {
        TypeView::Tuple(elements)
    }
}

/// Whether token `pos` is an integer literal that can size an array.
pub open spec fn has_array_size(toks: Seq<TokenView>, pos: nat) -> bool {
    kind_at(toks, pos) == Some(TokenKind::IntLiteral) && all_digits(text_at(toks, pos))
        && decimal_value(text_at(toks, pos)) <= u64::MAX
}

/// Type ::= "&" "mut"? Type | "(" (Type ("," Type)*)? ")" | "[" Type ";" IntLiteral "]"
///        | "Self" | Identifier
#[verifier::opaque]
pub open spec fn parse_type(toks: Seq<TokenView>, pos: nat) -> Parsed<TypeView>
    decreases left(toks, pos), 1nat,
{
    if has_op(toks, pos, Operator::Amp) {
        let mutable = has_keyword(toks, pos + 1, Keyword::Mut);
        let skip: nat = if mutable { 2 } else { 1 };
        let target = parse_type(toks, pos + skip).shifted(skip);
        match target.node {
            Some(t) => target.with(reference_type(mutable, t)),
            None => target,
        }
    } else if has_punct(toks, pos, Punctuation::LParen) {
        let list = parse_type_list(toks, pos + 1, Seq::empty()).shifted(1);
        match list.node {
            Some(elements) => list.with(tuple_type(elements)),
            None => list.failed(),
        }
    } else if has_punct(toks, pos, Punctuation::LBracket) {
        let element = parse_type(toks, pos + 1).shifted(1);
        match element.node {
            None => element,
            Some(e) => {
                let used = element.used;
                if !has_punct(toks, pos + used, Punctuation::Semicolon) {
                    fail_after(
                        element,
                        toks,
                        pos,
                        0,
                        SyntaxErrorKind::MissingToken,
                        Expected::Token(TokenKind::Punctuation(Punctuation::Semicolon)),
                    )
                } else if !has_array_size(toks, pos + used + 1) {
                    fail_after(
                        element,
                        toks,
                        pos,
                        1,
                        SyntaxErrorKind::UnexpectedToken,
                        Expected::ArraySize,
                    )
                } else if !has_punct(toks, pos + used + 2, Punctuation::RBracket) {
                    fail_after(
                        element,
                        toks,
                        pos,
                        2,
                        SyntaxErrorKind::UnbalancedDelimiter,
                        Expected::Token(TokenKind::Punctuation(Punctuation::RBracket)),
                    )
                } else {
                    let size = decimal_value(text_at(toks, pos + used + 1)) as u64;
                    Parsed {
                        node: Some(TypeView::Array(Box::new(e), size)),
                        used: used + 3,
                        errors: element.errors,
                    }
                }
            },
        }
    } else if has_keyword(toks, pos, Keyword::SelfType) {
        Parsed::ok(TypeView::Named(text_self_type()), 1)
    } else if has_identifier(toks, pos) {
        Parsed::ok(named_type(text_at(toks, pos)), 1)
    } else {
        fail(toks, pos, 0, SyntaxErrorKind::UnexpectedToken, Expected::Type)
    }
}

/// The rest of a parenthesised row of types, up to its `)`: `acc` holds the
/// types read so far.
#[verifier::opaque]
pub open spec fn parse_type_list(toks: Seq<TokenView>, pos: nat, acc: Seq<TypeView>) -> Parsed<
    Seq<TypeView>,
>
    decreases left(toks, pos), 2nat,
{
    if has_punct(toks, pos, Punctuation::RParen) {
        Parsed::ok(acc, 1)
    } else {
        let first = parse_type(toks, pos);
        match first.node {
            None => first.failed(),
            Some(t) => {
                if has_punct(toks, pos + first.used, Punctuation::Comma) {
                    parse_type_list(toks, pos + first.used + 1, acc.push(t)).shifted(1).after(first)
                } else if has_punct(toks, pos + first.used, Punctuation::RParen) {
                    Parsed { node: Some(acc.push(t)), used: first.used + 1, errors: first.errors }
                } else {
                    fail_after(
                        first,
                        toks,
                        pos,
                        0,
                        SyntaxErrorKind::UnbalancedDelimiter,
                        Expected::Token(TokenKind::Punctuation(Punctuation::RParen)),
                    )
                }
            },
        }
    }
}

/// An expression that starts at token `pos`.
pub open spec fn expr_at(toks: Seq<TokenView>, pos: nat, kind: ExprKindView) -> ExprView {
    ExprView { kind, pos: place_at(toks, pos) }
}

/// The binary operator that token `pos` is, if it is one of precedence
/// `level`. The levels, loosest first: `||`; `&&`; the comparisons; `+ -`;
/// `* / %`.
pub open spec fn binary_op_at(toks: Seq<TokenView>, pos: nat, level: nat) -> Option<BinaryOp> {
    match kind_at(toks, pos) {
        Some(TokenKind::Operator(o)) => operator_at_level(o, level),
        _ => None,
    }
}

/// The binary operator that `o` is at precedence `level`, if it is one there.
pub open spec fn operator_at_level(o: Operator, level: nat) -> Option<BinaryOp> {
    if level == 0 {
        match o {
            Operator::OrOr => Some(BinaryOp::Or),
            _ => None,
        }
    } else if level == 1 {
        match o {
            Operator::AndAnd => Some(BinaryOp::And),
            _ => None,
        }
    } else if level == 2 {
        match o {
            Operator::EqEq => Some(BinaryOp::Eq),
            Operator::NotEq => Some(BinaryOp::NotEq),
            Operator::Less => Some(BinaryOp::Less),
            Operator::LessEq => Some(BinaryOp::LessEq),
            Operator::Greater => Some(BinaryOp::Greater),
            Operator::GreaterEq => Some(BinaryOp::GreaterEq),
            _ => None,
        }
    } else if level == 3 {
        match o {
            Operator::Plus => Some(BinaryOp::Add),
            Operator::Minus => Some(BinaryOp::Sub),
            _ => None,
        }
    } else if level == 4 {
        match o {
            Operator::Star => Some(BinaryOp::Mul),
            Operator::Slash => Some(BinaryOp::Div),
            Operator::Percent => Some(BinaryOp::Rem),
            _ => None,
        }
    } else {
        None
    }
}

/// The assignment operator that token `pos` is, if it is one.
pub open spec fn assign_op_at(toks: Seq<TokenView>, pos: nat) -> Option<AssignOp> {
    match kind_at(toks, pos) {
        Some(TokenKind::Operator(Operator::Assign)) => Some(AssignOp::Plain),
        Some(TokenKind::Operator(Operator::PlusAssign)) => Some(AssignOp::Add),
        Some(TokenKind::Operator(Operator::MinusAssign)) => Some(AssignOp::Sub),
        Some(TokenKind::Operator(Operator::StarAssign)) => Some(AssignOp::Mul),
        Some(TokenKind::Operator(Operator::SlashAssign)) => Some(AssignOp::Div),
        _ => None,
    }
}

/// Orders the functions of the expression grammar that may call one another
/// on the same token: the caller ranks above the callee.
pub open spec fn binary_rank(level: nat) -> nat {
    if level <= 4 {
        (50 - 3 * level) as nat
    } else {
        38
    }
}

/// `(":" Type)?`
#[verifier::opaque]
pub open spec fn parse_type_annotation(toks: Seq<TokenView>, pos: nat) -> Parsed<Option<TypeView>> {
    if has_punct(toks, pos, Punctuation::Colon) {
        let ty = parse_type(toks, pos + 1).shifted(1);
        match ty.node {
            Some(t) => ty.with(Some(t)),
            None => ty.failed(),
        }
    } else {
        Parsed::ok(None, 0)
    }
}

/// `("->" Type)?`
#[verifier::opaque]
pub open spec fn parse_return_type(toks: Seq<TokenView>, pos: nat) -> Parsed<Option<TypeView>> {
    if has_punct(toks, pos, Punctuation::Arrow) {
        let ty = parse_type(toks, pos + 1).shifted(1);
        match ty.node {
            Some(t) => ty.with(Some(t)),
            None => ty.failed(),
        }
    } else {
        Parsed::ok(None, 0)
    }
}

/// The parameters of a closure after its opening `|`, up to its closing
/// `|`: `(Identifier (":" Type)? ("," ...)*)? "|"`.
#[verifier::opaque]
pub open spec fn parse_closure_params(toks: Seq<TokenView>, pos: nat, acc: Seq<ParamView>) -> Parsed<
    Seq<ParamView>,
>
    decreases left(toks, pos),
{
    if has_op(toks, pos, Operator::Pipe) {
        Parsed::ok(acc, 1)
    } else if !has_identifier(toks, pos) {
        fail(toks, pos, 0, SyntaxErrorKind::MissingToken, Expected::Identifier)
    } else {
        let ty = parse_type_annotation(toks, pos + 1).shifted(1);
        match ty.node {
            None => ty.failed(),
            Some(t) => {
                let param = ParamView { name: text_at(toks, pos), ty: t };
                if has_punct(toks, pos + ty.used, Punctuation::Comma) {
                    parse_closure_params(toks, pos + ty.used + 1, acc.push(param)).shifted(1).after(
                        ty,
                    )
                } else if has_op(toks, pos + ty.used, Operator::Pipe) {
                    Parsed { node: Some(acc.push(param)), used: ty.used + 1, errors: ty.errors }
                } else {
                    fail_after(
                        ty,
                        toks,
                        pos,
                        0,
                        SyntaxErrorKind::UnbalancedDelimiter,
                        Expected::Token(TokenKind::Operator(Operator::Pipe)),
                    )
                }
            },
        }
    }
}

/// The rest of a path after its first name: `("::" Identifier)*`, with
/// `acc` the names read so far.
#[verifier::opaque]
pub open spec fn parse_path_rest(toks: Seq<TokenView>, pos: nat, acc: Seq<Seq<u8>>) -> Parsed<
    Seq<Seq<u8>>,
>
    decreases left(toks, pos),
{
    if has_op(toks, pos, Operator::PathSep) {
        if has_identifier(toks, pos + 1) {
            parse_path_rest(toks, pos + 2, acc.push(text_at(toks, pos + 1))).shifted(2)
        } else {
            fail(toks, pos, 1, SyntaxErrorKind::MissingToken, Expected::Identifier)
        }
    } else {
        Parsed::ok(acc, 0)
    }
}

/// Expr ::= Binary (".." Binary)?
///
/// With `st` false, a name followed by `{` is not read as a struct literal:
/// that is so in the head of an `if`, a `while` or a `for`.
#[verifier::opaque]
pub open spec fn parse_expr(toks: Seq<TokenView>, pos: nat, st: bool) -> Parsed<ExprView>
    decreases left(toks, pos), 60nat,
{
    let lhs = parse_binary(toks, pos, 0, st);
    match lhs.node {
        None => lhs,
        Some(l) => {
            if has_op(toks, pos + lhs.used, Operator::DotDot) {
                let rhs = parse_binary(toks, pos + lhs.used + 1, 0, st).shifted(1).after(lhs);
                match rhs.node {
                    None => rhs,
                    Some(r) => rhs.with(
                        ExprView { kind: ExprKindView::Range(Box::new(l), Box::new(r)), pos: l.pos },
                    ),
                }
            } else {
                lhs
            }
        },
    }
}

/// A chain of binary operators of precedence `level`, read from the left:
/// `Operand (op Operand)*`.
#[verifier::opaque]
pub open spec fn parse_binary(toks: Seq<TokenView>, pos: nat, level: nat, st: bool) -> Parsed<
    ExprView,
>
    decreases left(toks, pos), binary_rank(level),
{
    let lhs = parse_operand(toks, pos, level, st);
    match lhs.node {
        None => lhs,
        Some(l) => parse_binary_rest(toks, pos + lhs.used, level, st, l).after(lhs),
    }
}

/// What the operators of precedence `level` join: a chain of the next
/// tighter level, or a unary expression below the tightest.
#[verifier::opaque]
pub open spec fn parse_operand(toks: Seq<TokenView>, pos: nat, level: nat, st: bool) -> Parsed<
    ExprView,
>
    decreases left(toks, pos), (binary_rank(level) - 2) as nat,
{
    if level < 4 {
        parse_binary(toks, pos, level + 1, st)
    } else {
        parse_unary(toks, pos, st)
    }
}

/// `(op Operand)*` after the left operand `lhs`: each operator takes all that
/// was read before it as its left operand.
#[verifier::opaque]
pub open spec fn parse_binary_rest(
    toks: Seq<TokenView>,
    pos: nat,
    level: nat,
    st: bool,
    lhs: ExprView,
) -> Parsed<ExprView>
    decreases left(toks, pos), (binary_rank(level) - 1) as nat,
{
    match binary_op_at(toks, pos, level) {
        None => Parsed::ok(lhs, 0),
        Some(op) => {
            let rhs = parse_operand(toks, pos + 1, level, st).shifted(1);
            match rhs.node {
                None => rhs,
                Some(r) => parse_binary_rest(
                    toks,
                    pos + rhs.used,
                    level,
                    st,
                    ExprView { kind: ExprKindView::Binary(op, Box::new(lhs), Box::new(r)), pos: lhs.pos },
                ).after(rhs),
            }
        },
    }
}

/// Unary ::= ("-" | "!") Unary | "&" "mut"? Unary | Postfix
#[verifier::opaque]
pub open spec fn parse_unary(toks: Seq<TokenView>, pos: nat, st: bool) -> Parsed<ExprView>
    decreases left(toks, pos), 30nat,
{
    if has_op(toks, pos, Operator::Minus) || has_op(toks, pos, Operator::Not) {
        let op = if has_op(toks, pos, Operator::Minus) {
            UnaryOp::Neg
        } else {
            UnaryOp::Not
        };
        let operand = parse_unary(toks, pos + 1, st).shifted(1);
        match operand.node {
            None => operand,
            Some(e) => operand.with(expr_at(toks, pos, ExprKindView::Unary(op, Box::new(e)))),
        }
    } else if has_op(toks, pos, Operator::Amp) {
        let mutable = has_keyword(toks, pos + 1, Keyword::Mut);
        let skip: nat = if mutable { 2 } else { 1 };
        let operand = parse_unary(toks, pos + skip, st).shifted(skip);
        match operand.node {
            None => operand,
            Some(e) => operand.with(
                expr_at(toks, pos, ExprKindView::Reference(mutable, Box::new(e))),
            ),
        }
    } else {
        parse_postfix(toks, pos, st)
    }
}

/// Postfix ::= Primary ("(" Args ")" | "." Identifier)*
#[verifier::opaque]
pub open spec fn parse_postfix(toks: Seq<TokenView>, pos: nat, st: bool) -> Parsed<ExprView>
    decreases left(toks, pos), 25nat,
{
    let head = parse_primary(toks, pos, st);
    match head.node {
        None => head,
        Some(e) => parse_postfix_rest(toks, pos + head.used, e).after(head),
    }
}

/// `("(" Args ")" | "." Identifier)*` behind the expression `head`: each
/// call or field access takes all that was read before it.
#[verifier::opaque]
pub open spec fn parse_postfix_rest(toks: Seq<TokenView>, pos: nat, head: ExprView) -> Parsed<
    ExprView,
>
    decreases left(toks, pos), 24nat,
{
    if has_punct(toks, pos, Punctuation::LParen) {
        let args = parse_expr_list(toks, pos + 1, Punctuation::RParen, Seq::empty()).shifted(1);
        match args.node {
            None => args.failed(),
            Some(a) => parse_postfix_rest(
                toks,
                pos + args.used,
                ExprView { kind: ExprKindView::Call(Box::new(head), a), pos: head.pos },
            ).after(args),
        }
    } else if has_op(toks, pos, Operator::Dot) {
        if has_identifier(toks, pos + 1) {
            parse_postfix_rest(
                toks,
                pos + 2,
                ExprView {
                    kind: ExprKindView::FieldAccess(Box::new(head), text_at(toks, pos + 1)),
                    pos: head.pos,
                },
            ).shifted(2)
        } else {
            fail(toks, pos, 1, SyntaxErrorKind::MissingToken, Expected::Identifier)
        }
    } else {
        Parsed::ok(head, 0)
    }
}

/// A row of expressions up to the bracket `closer`, which is read too:
/// `(Expr ("," Expr)* ","?)? closer`, with `acc` the expressions read so far.
#[verifier::opaque]
pub open spec fn parse_expr_list(
    toks: Seq<TokenView>,
    pos: nat,
    closer: Punctuation,
    acc: Seq<ExprView>,
) -> Parsed<Seq<ExprView>>
    decreases left(toks, pos), 70nat,
{
    if has_punct(toks, pos, closer) {
        Parsed::ok(acc, 1)
    } else {
        let first = parse_expr(toks, pos, true);
        match first.node {
            None => first.failed(),
            Some(e) => {
                if has_punct(toks, pos + first.used, Punctuation::Comma) {
                    parse_expr_list(toks, pos + first.used + 1, closer, acc.push(e)).shifted(
                        1,
                    ).after(first)
                } else if has_punct(toks, pos + first.used, closer) {
                    Parsed { node: Some(acc.push(e)), used: first.used + 1, errors: first.errors }
                } else {
                    fail_after(
                        first,
                        toks,
                        pos,
                        0,
                        SyntaxErrorKind::UnbalancedDelimiter,
                        Expected::Token(TokenKind::Punctuation(closer)),
                    )
                }
            },
        }
    }
}

/// The fields of a struct literal after its `{`, up to its `}`:
/// `(Identifier ":" Expr ("," ...)* ","?)? "}"`.
#[verifier::opaque]
pub open spec fn parse_field_inits(toks: Seq<TokenView>, pos: nat, acc: Seq<FieldInitView>) -> Parsed<
    Seq<FieldInitView>,
>
    decreases left(toks, pos), 70nat,
{
    if has_punct(toks, pos, Punctuation::RBrace) {
        Parsed::ok(acc, 1)
    } else if !has_identifier(toks, pos) {
        fail(toks, pos, 0, SyntaxErrorKind::MissingToken, Expected::Identifier)
    } else if !has_punct(toks, pos + 1, Punctuation::Colon) {
        fail(
            toks,
            pos,
            1,
            SyntaxErrorKind::MissingToken,
            Expected::Token(TokenKind::Punctuation(Punctuation::Colon)),
        )
    } else {
        let value = parse_expr(toks, pos + 2, true).shifted(2);
        match value.node {
            None => value.failed(),
            Some(e) => {
                let field = FieldInitView { name: text_at(toks, pos), value: e };
                if has_punct(toks, pos + value.used, Punctuation::Comma) {
                    parse_field_inits(toks, pos + value.used + 1, acc.push(field)).shifted(1).after(
                        value,
                    )
                } else if has_punct(toks, pos + value.used, Punctuation::RBrace) {
                    Parsed { node: Some(acc.push(field)), used: value.used + 1, errors: value.errors }
                } else {
                    fail_after(
                        value,
                        toks,
                        pos,
                        0,
                        SyntaxErrorKind::UnbalancedDelimiter,
                        Expected::Token(TokenKind::Punctuation(Punctuation::RBrace)),
                    )
                }
            },
        }
    }
}

/// What follows the parameters of a closure: `("->" Type)? (Block | Expr)`.
/// The closure itself started at token `start` with the parameters `params`.
#[verifier::opaque]
pub open spec fn parse_closure_tail(
    toks: Seq<TokenView>,
    pos: nat,
    st: bool,
    start: nat,
    params: Seq<ParamView>,
) -> Parsed<ExprView>
    decreases left(toks, pos), 65nat,
{
    let ret = parse_return_type(toks, pos);
    match ret.node {
        None => ret.failed(),
        Some(r) => {
            if has_punct(toks, pos + ret.used, Punctuation::LBrace) {
                let body = parse_block(toks, pos + ret.used).after(ret);
                match body.node {
                    None => body.failed(),
                    Some(b) => body.with(
                        expr_at(
                            toks,
                            start,
                            ExprKindView::Closure(params, r, ClosureBodyView::Block(b)),
                        ),
                    ),
                }
            } else {
                let body = parse_expr(toks, pos + ret.used, st).after(ret);
                match body.node {
                    None => body,
                    Some(e) => body.with(
                        expr_at(
                            toks,
                            start,
                            ExprKindView::Closure(params, r, ClosureBodyView::Expr(Box::new(e))),
                        ),
                    ),
                }
            }
        },
    }
}

/// Primary ::= literal | "self" | Named | MacroCall | Paren | Bracket | Closure
#[verifier::opaque]
pub open spec fn parse_primary(toks: Seq<TokenView>, pos: nat, st: bool) -> Parsed<ExprView>
    decreases left(toks, pos), 20nat,
{
    match kind_at(toks, pos) {
        Some(TokenKind::IntLiteral) => Parsed::ok(
            expr_at(toks, pos, ExprKindView::IntLit(text_at(toks, pos))),
            1,
        ),
        Some(TokenKind::FloatLiteral) => Parsed::ok(
            expr_at(toks, pos, ExprKindView::FloatLit(text_at(toks, pos))),
            1,
        ),
        Some(TokenKind::StringLiteral) => Parsed::ok(
            expr_at(toks, pos, ExprKindView::StringLit(text_at(toks, pos))),
            1,
        ),
        Some(TokenKind::CharLiteral) => Parsed::ok(
            expr_at(toks, pos, ExprKindView::CharLit(text_at(toks, pos))),
            1,
        ),
        Some(TokenKind::BoolLiteral(b)) => Parsed::ok(
            expr_at(toks, pos, ExprKindView::BoolLit(b)),
            1,
        ),
        Some(TokenKind::Keyword(Keyword::SelfValue)) => Parsed::ok(
            expr_at(toks, pos, ExprKindView::Identifier(text_self_value())),
            1,
        ),
        Some(TokenKind::Identifier) => parse_named(toks, pos, st),
        Some(TokenKind::MacroName(m)) => parse_macro_call(toks, pos, m),
        Some(TokenKind::Punctuation(Punctuation::LParen)) => parse_paren(toks, pos),
        Some(TokenKind::Punctuation(Punctuation::LBracket)) => parse_bracket(toks, pos),
        Some(TokenKind::Operator(Operator::OrOr)) => parse_closure_tail(
            toks,
            pos + 1,
            st,
            pos,
            Seq::empty(),
        ).shifted(1),
        Some(TokenKind::Operator(Operator::Pipe)) => {
            let params = parse_closure_params(toks, pos + 1, Seq::empty()).shifted(1);
            match params.node {
                None => params.failed(),
                Some(ps) => parse_closure_tail(toks, pos + params.used, st, pos, ps).after(params),
            }
        },
        _ => fail(toks, pos, 0, SyntaxErrorKind::UnexpectedToken, Expected::Expression),
    }
}

/// What the name at token `pos` starts.
/// Named ::= Identifier ("::" Identifier)+ | Identifier "{" FieldInits "}" | Identifier
#[verifier::opaque]
pub open spec fn parse_named(toks: Seq<TokenView>, pos: nat, st: bool) -> Parsed<ExprView>
    decreases left(toks, pos), 19nat,
{
    if has_op(toks, pos + 1, Operator::PathSep) {
        let path = parse_path_rest(toks, pos + 1, seq![text_at(toks, pos)]).shifted(1);
        match path.node {
            None => path.failed(),
            Some(segments) => path.with(expr_at(toks, pos, ExprKindView::Path(segments))),
        }
    } else if st && has_punct(toks, pos + 1, Punctuation::LBrace) {
        let fields = parse_field_inits(toks, pos + 2, Seq::empty()).shifted(2);
        match fields.node {
            None => fields.failed(),
            Some(f) => fields.with(
                expr_at(toks, pos, ExprKindView::StructInit(text_at(toks, pos), f)),
            ),
        }
    } else {
        Parsed::ok(expr_at(toks, pos, ExprKindView::Identifier(text_at(toks, pos))), 1)
    }
}

/// MacroCall ::= macro "(" Args ")", the macro's name at token `pos`.
#[verifier::opaque]
pub open spec fn parse_macro_call(toks: Seq<TokenView>, pos: nat, m: Macro) -> Parsed<ExprView>
    decreases left(toks, pos), 19nat,
{
    if has_punct(toks, pos + 1, Punctuation::LParen) {
        let args = parse_expr_list(toks, pos + 2, Punctuation::RParen, Seq::empty()).shifted(2);
        match args.node {
            None => args.failed(),
            Some(a) => args.with(expr_at(toks, pos, ExprKindView::MacroCall(m, a))),
        }
    } else {
        fail(
            toks,
            pos,
            1,
            SyntaxErrorKind::MissingToken,
            Expected::Token(TokenKind::Punctuation(Punctuation::LParen)),
        )
    }
}

/// Paren ::= "(" ")" | "(" Expr ")" | "(" Expr "," Args ")", the `(` at
/// token `pos`. One expression in brackets is that expression; none, or a
/// comma, makes a tuple.
#[verifier::opaque]
pub open spec fn parse_paren(toks: Seq<TokenView>, pos: nat) -> Parsed<ExprView>
    decreases left(toks, pos), 19nat,
{
    if !has_punct(toks, pos, Punctuation::LParen) {
        fail(
            toks,
            pos,
            0,
            SyntaxErrorKind::MissingToken,
            Expected::Token(TokenKind::Punctuation(Punctuation::LParen)),
        )
    } else if has_punct(toks, pos + 1, Punctuation::RParen) {
        Parsed::ok(expr_at(toks, pos, ExprKindView::TupleLit(Seq::empty())), 2)
    } else {
        let first = parse_expr(toks, pos + 1, true).shifted(1);
        match first.node {
            None => first,
            Some(e) => {
                if has_punct(toks, pos + first.used, Punctuation::RParen) {
                    Parsed { node: Some(e), used: first.used + 1, errors: first.errors }
                } else if has_punct(toks, pos + first.used, Punctuation::Comma) {
                    let rest = parse_expr_list(
                        toks,
                        pos + first.used + 1,
                        Punctuation::RParen,
                        seq![e],
                    ).shifted(1).after(first);
                    match rest.node {
                        None => rest.failed(),
                        Some(es) => rest.with(expr_at(toks, pos, ExprKindView::TupleLit(es))),
                    }
                } else {
                    fail_after(
                        first,
                        toks,
                        pos,
                        0,
                        SyntaxErrorKind::UnbalancedDelimiter,
                        Expected::Token(TokenKind::Punctuation(Punctuation::RParen)),
                    )
                }
            },
        }
    }
}

/// Bracket ::= "[" "]" | "[" Expr ";" Expr "]" | "[" Expr ("," Args)? "]",
/// the `[` at token `pos`.
#[verifier::opaque]
pub open spec fn parse_bracket(toks: Seq<TokenView>, pos: nat) -> Parsed<ExprView>
    decreases left(toks, pos), 19nat,
{
    if !has_punct(toks, pos, Punctuation::LBracket) {
        fail(
            toks,
            pos,
            0,
            SyntaxErrorKind::MissingToken,
            Expected::Token(TokenKind::Punctuation(Punctuation::LBracket)),
        )
    } else if has_punct(toks, pos + 1, Punctuation::RBracket) {
        Parsed::ok(expr_at(toks, pos, ExprKindView::ArrayLit(Seq::empty())), 2)
    } else {
        let first = parse_expr(toks, pos + 1, true).shifted(1);
        match first.node {
            None => first,
            Some(e) => {
                if has_punct(toks, pos + first.used, Punctuation::Semicolon) {
                    parse_repeat_size(toks, pos + first.used + 1, pos, e).shifted(1).after(first)
                } else if has_punct(toks, pos + first.used, Punctuation::Comma) {
                    let rest = parse_expr_list(
                        toks,
                        pos + first.used + 1,
                        Punctuation::RBracket,
                        seq![e],
                    ).shifted(1).after(first);
                    match rest.node {
                        None => rest.failed(),
                        Some(es) => rest.with(expr_at(toks, pos, ExprKindView::ArrayLit(es))),
                    }
                } else {
                    close(
                        first,
                        toks,
                        pos,
                        TokenKind::Punctuation(Punctuation::RBracket),
                        SyntaxErrorKind::UnbalancedDelimiter,
                        expr_at(toks, pos, ExprKindView::ArrayLit(seq![e])),
                    )
                }
            },
        }
    }
}

/// The end of `[value; size]`, from the size at token `pos` on: `Expr "]"`.
/// The literal started at token `start`.
#[verifier::opaque]
pub open spec fn parse_repeat_size(toks: Seq<TokenView>, pos: nat, start: nat, value: ExprView) -> Parsed<
    ExprView,
>
    decreases left(toks, pos), 65nat,
{
    let size = parse_expr(toks, pos, true);
    match size.node {
        None => size,
        Some(n) => close(
            size,
            toks,
            pos,
            TokenKind::Punctuation(Punctuation::RBracket),
            SyntaxErrorKind::UnbalancedDelimiter,
            expr_at(toks, start, ExprKindView::ArrayRepeat(Box::new(value), Box::new(n))),
        ),
    }
}

/// Block ::= "{" Statement* "}"
#[verifier::opaque]
pub open spec fn parse_block(toks: Seq<TokenView>, pos: nat) -> Parsed<Seq<StmtView>>
    decreases left(toks, pos), 10nat,
{
    if !has_punct(toks, pos, Punctuation::LBrace) {
        fail(
            toks,
            pos,
            0,
            SyntaxErrorKind::MissingToken,
            Expected::Token(TokenKind::Punctuation(Punctuation::LBrace)),
        )
    } else {
        let body = parse_stmts(toks, pos + 1, Seq::empty()).shifted(1);
        if has_punct(toks, pos + body.used, Punctuation::RBrace) {
            Parsed { node: body.node, used: body.used + 1, errors: body.errors }
        } else {
            fail_after(
                body,
                toks,
                pos,
                0,
                SyntaxErrorKind::UnbalancedDelimiter,
                Expected::Token(TokenKind::Punctuation(Punctuation::RBrace)),
            )
        }
    }
}

/// The number of tokens to drop, from token `pos` on, after a statement
/// broke there: all up to the next `;`, and that `;` too, but nothing from a
/// `}` on.
pub open spec fn stmt_skip(toks: Seq<TokenView>, pos: nat) -> nat
    decreases left(toks, pos),
{
    if pos >= toks.len() || has_punct(toks, pos, Punctuation::RBrace) {
        0
    } else if has_punct(toks, pos, Punctuation::Semicolon) {
        1
    } else {
        1 + stmt_skip(toks, pos + 1)
    }
}

/// Recovery stops at the first boundary. The tokens dropped after a broken
/// statement hold no `}` and no `;` but the last of them, and what stands
/// behind them is the end of the input or a `}`, unless that last is a `;`.
pub proof fn law_statement_recovery_stops_at_boundary(toks: Seq<TokenView>, pos: nat)
    ensures
        ({
            let n = stmt_skip(toks, pos);
            &&& pos + n <= toks.len() || n == 0
            &&& forall|i: nat|
                pos <= i < pos + n ==> !#[trigger] has_punct(toks, i, Punctuation::RBrace)
            &&& forall|i: nat|
                pos <= i < pos + n - 1 ==> !#[trigger] has_punct(toks, i, Punctuation::Semicolon)
            &&& (n > 0 && has_punct(toks, (pos + n - 1) as nat, Punctuation::Semicolon)) || pos + n
                >= toks.len() || has_punct(toks, pos + n, Punctuation::RBrace)
        }),
    decreases left(toks, pos),
{
    if pos < toks.len() && !has_punct(toks, pos, Punctuation::RBrace) && !has_punct(
        toks,
        pos,
        Punctuation::Semicolon,
    ) {
        law_statement_recovery_stops_at_boundary(toks, pos + 1);
    }
}

/// The statements from token `pos` up to the `}` that closes their block,
/// or to the end of the input; `acc` holds those read so far. A statement
/// that breaks is dropped with the tokens that [`stmt_skip`] counts, and
/// reading goes on behind them. Every step takes at least one token.
#[verifier::opaque]
pub open spec fn parse_stmts(toks: Seq<TokenView>, pos: nat, acc: Seq<StmtView>) -> Parsed<
    Seq<StmtView>,
>
    decreases left(toks, pos), 80nat,
{
    if pos >= toks.len() || has_punct(toks, pos, Punctuation::RBrace) {
        Parsed::ok(acc, 0)
    } else {
        let first = parse_stmt(toks, pos);
        let (step, next) = match first.node {
            Some(s) => (first.used, acc.push(s)),
            None => (first.used + stmt_skip(toks, pos + first.used), acc),
        };
        let step = if step == 0 {
            1
        } else {
            step
        };
        let rest = parse_stmts(toks, pos + step, next);
        Parsed { node: rest.node, used: step + rest.used, errors: first.errors + rest.errors }
    }
}

/// A construct that must end with the token `closer` after what `first`
/// read, `first` counted from token `pos`: with the token there it is
/// `node`, without it a failure of kind `kind`.
pub open spec fn close<T, U>(
    first: Parsed<U>,
    toks: Seq<TokenView>,
    pos: nat,
    closer: TokenKind,
    kind: SyntaxErrorKind,
    node: T,
) -> Parsed<T> {
    if kind_at(toks, pos + first.used) == Some(closer) {
        Parsed { node: Some(node), used: first.used + 1, errors: first.errors }
    } else {
        fail_after(first, toks, pos, 0, kind, Expected::Token(closer))
    }
}

/// The token `;`.
pub open spec fn semicolon() -> TokenKind {
    TokenKind::Punctuation(Punctuation::Semicolon)
}

/// Statement ::= Let | If | While | For | Loop | "break" ";" | "continue" ";"
///             | Return | Expr (AssignOp Expr)? ";"
#[verifier::opaque]
pub open spec fn parse_stmt(toks: Seq<TokenView>, pos: nat) -> Parsed<StmtView>
    decreases left(toks, pos), 75nat,
{
    match kind_at(toks, pos) {
        Some(TokenKind::Keyword(Keyword::Let)) => parse_let(toks, pos),
        Some(TokenKind::Keyword(Keyword::If)) => parse_if(toks, pos),
        Some(TokenKind::Keyword(Keyword::While)) => parse_while(toks, pos),
        Some(TokenKind::Keyword(Keyword::For)) => parse_for(toks, pos),
        Some(TokenKind::Keyword(Keyword::Loop)) => {
            let body = parse_block(toks, pos + 1).shifted(1);
            match body.node {
                None => body.failed(),
                Some(b) => body.with(StmtView::Loop { body: b }),
            }
        },
        Some(TokenKind::Keyword(Keyword::Break)) => close(
            Parsed::ok((), 1),
            toks,
            pos,
            semicolon(),
            SyntaxErrorKind::MissingToken,
            StmtView::Break,
        ),
        Some(TokenKind::Keyword(Keyword::Continue)) => close(
            Parsed::ok((), 1),
            toks,
            pos,
            semicolon(),
            SyntaxErrorKind::MissingToken,
            StmtView::Continue,
        ),
        Some(TokenKind::Keyword(Keyword::Return)) => parse_return(toks, pos),
        _ => parse_expr_stmt(toks, pos),
    }
}

/// While ::= "while" Expr Block
#[verifier::opaque]
pub open spec fn parse_while(toks: Seq<TokenView>, pos: nat) -> Parsed<StmtView>
    decreases left(toks, pos), 72nat,
{
    if !has_keyword(toks, pos, Keyword::While) {
        fail(
            toks,
            pos,
            0,
            SyntaxErrorKind::MissingToken,
            Expected::Token(TokenKind::Keyword(Keyword::While)),
        )
    } else {
        let cond = parse_expr(toks, pos + 1, false).shifted(1);
        match cond.node {
            None => cond.failed(),
            Some(c) => {
                let body = parse_block(toks, pos + cond.used).after(cond);
                match body.node {
                    None => body.failed(),
                    Some(b) => body.with(StmtView::While { cond: c, body: b }),
                }
            },
        }
    }
}

/// For ::= "for" Identifier "in" Expr Block
#[verifier::opaque]
pub open spec fn parse_for(toks: Seq<TokenView>, pos: nat) -> Parsed<StmtView>
    decreases left(toks, pos), 72nat,
{
    if !has_keyword(toks, pos, Keyword::For) {
        fail(
            toks,
            pos,
            0,
            SyntaxErrorKind::MissingToken,
            Expected::Token(TokenKind::Keyword(Keyword::For)),
        )
    } else if !has_identifier(toks, pos + 1) {
        fail(toks, pos, 1, SyntaxErrorKind::MissingToken, Expected::Identifier)
    } else if !has_keyword(toks, pos + 2, Keyword::In) {
        fail(
            toks,
            pos,
            2,
            SyntaxErrorKind::MissingToken,
            Expected::Token(TokenKind::Keyword(Keyword::In)),
        )
    } else {
        let range = parse_expr(toks, pos + 3, false).shifted(3);
        match range.node {
            None => range.failed(),
            Some(r) => {
                let body = parse_block(toks, pos + range.used).after(range);
                match body.node {
                    None => body.failed(),
                    Some(b) => body.with(
                        StmtView::ForIn { var: text_at(toks, pos + 1), range: r, body: b },
                    ),
                }
            },
        }
    }
}

/// Return ::= "return" Expr? ";"
#[verifier::opaque]
pub open spec fn parse_return(toks: Seq<TokenView>, pos: nat) -> Parsed<StmtView>
    decreases left(toks, pos), 72nat,
{
    if !has_keyword(toks, pos, Keyword::Return) {
        fail(
            toks,
            pos,
            0,
            SyntaxErrorKind::MissingToken,
            Expected::Token(TokenKind::Keyword(Keyword::Return)),
        )
    } else if has_punct(toks, pos + 1, Punctuation::Semicolon) {
        Parsed::ok(StmtView::Return(None), 2)
    } else {
        let value = parse_expr(toks, pos + 1, true).shifted(1);
        match value.node {
            None => value.failed(),
            Some(e) => close(
                value,
                toks,
                pos,
                semicolon(),
                SyntaxErrorKind::MissingToken,
                StmtView::Return(Some(e)),
            ),
        }
    }
}

/// An assignment or an expression used as a statement:
/// `Expr (AssignOp Expr)? ";"`.
#[verifier::opaque]
pub open spec fn parse_expr_stmt(toks: Seq<TokenView>, pos: nat) -> Parsed<StmtView>
    decreases left(toks, pos), 72nat,
{
    let target = parse_expr(toks, pos, true);
    match target.node {
        None => target.failed(),
        Some(t) => match assign_op_at(toks, pos + target.used) {
            None => close(
                target,
                toks,
                pos,
                semicolon(),
                SyntaxErrorKind::MissingToken,
                StmtView::Expr(t),
            ),
            Some(op) => {
                let value = parse_expr(toks, pos + target.used + 1, true).shifted(1).after(target);
                match value.node {
                    None => value.failed(),
                    Some(v) => close(
                        value,
                        toks,
                        pos,
                        semicolon(),
                        SyntaxErrorKind::MissingToken,
                        StmtView::Assign { target: t, op, value: v },
                    ),
                }
            },
        },
    }
}

/// Let ::= "let" "mut"? Identifier (":" Type)? ("=" Expr)? ";"
#[verifier::opaque]
pub open spec fn parse_let(toks: Seq<TokenView>, pos: nat) -> Parsed<StmtView>
    decreases left(toks, pos), 72nat,
{
    let mutable = has_keyword(toks, pos + 1, Keyword::Mut);
    let at: nat = if mutable { 2 } else { 1 };
    if !has_keyword(toks, pos, Keyword::Let) {
        fail(
            toks,
            pos,
            0,
            SyntaxErrorKind::MissingToken,
            Expected::Token(TokenKind::Keyword(Keyword::Let)),
        )
    } else if !has_identifier(toks, pos + at) {
        fail(toks, pos, at, SyntaxErrorKind::MissingToken, Expected::Identifier)
    } else {
        let name = text_at(toks, pos + at);
        let ty = parse_type_annotation(toks, pos + at + 1).shifted(at + 1);
        match ty.node {
            None => ty.failed(),
            Some(declared) => {
                if has_op(toks, pos + ty.used, Operator::Assign) {
                    let init = parse_expr(toks, pos + ty.used + 1, true).shifted(1).after(ty);
                    match init.node {
                        None => init.failed(),
                        Some(e) => close(
                            init,
                            toks,
                            pos,
                            semicolon(),
                            SyntaxErrorKind::MissingToken,
                            StmtView::Let { name, mutable, declared, init: Some(e) },
                        ),
                    }
                } else {
                    close(
                        ty,
                        toks,
                        pos,
                        semicolon(),
                        SyntaxErrorKind::MissingToken,
                        StmtView::Let { name, mutable, declared, init: None },
                    )
                }
            },
        }
    }
}

/// If ::= "if" Expr Block ("else" (If | Block))?
///
/// An `else if` is an `else` block that holds that one `if`.
#[verifier::opaque]
pub open spec fn parse_if(toks: Seq<TokenView>, pos: nat) -> Parsed<StmtView>
    decreases left(toks, pos), 72nat,
{
    if !has_keyword(toks, pos, Keyword::If) {
        fail(
            toks,
            pos,
            0,
            SyntaxErrorKind::MissingToken,
            Expected::Token(TokenKind::Keyword(Keyword::If)),
        )
    } else {
        let cond = parse_expr(toks, pos + 1, false).shifted(1);
        match cond.node {
            None => cond.failed(),
            Some(c) => {
                let then_block = parse_block(toks, pos + cond.used).after(cond);
                match then_block.node {
                    None => then_block.failed(),
                    Some(t) => {
                        if !has_keyword(toks, pos + then_block.used, Keyword::Else) {
                            then_block.with(StmtView::If { cond: c, then_block: t, else_block: None })
                        } else if has_keyword(toks, pos + then_block.used + 1, Keyword::If) {
                            let nested = parse_if(toks, pos + then_block.used + 1).shifted(1).after(
                                then_block,
                            );
                            match nested.node {
                                None => nested,
                                Some(n) => nested.with(
                                    StmtView::If {
                                        cond: c,
                                        then_block: t,
                                        else_block: Some(seq![n]),
                                    },
                                ),
                            }
                        } else {
                            let else_block = parse_block(toks, pos + then_block.used + 1).shifted(
                                1,
                            ).after(then_block);
                            match else_block.node {
                                None => else_block.failed(),
                                Some(e) => else_block.with(
                                    StmtView::If { cond: c, then_block: t, else_block: Some(e) },
                                ),
                            }
                        }
                    },
                }
            },
        }
    }
}

/// The type of a receiver: `Self`.
pub open spec fn self_type() -> TypeView {
    TypeView::Named(text_self_type())
}

/// The parameters of a function after its `(`, up to its `)`:
/// `(Param ("," Param)* ","?)? ")"`, where
/// Param ::= "&" "mut"? "self" | "self" | Identifier ":" Type.
/// A receiver is a parameter named `self`, of type `Self` or a reference to it.
#[verifier::opaque]
pub open spec fn parse_params(toks: Seq<TokenView>, pos: nat, acc: Seq<ParamView>) -> Parsed<
    Seq<ParamView>,
>
    decreases left(toks, pos),
{
    if has_punct(toks, pos, Punctuation::RParen) {
        Parsed::ok(acc, 1)
    } else {
        let param = parse_param(toks, pos);
        match param.node {
            None => param.failed(),
            Some(p) => {
                if has_punct(toks, pos + param.used, Punctuation::Comma) {
                    parse_params(toks, pos + param.used + 1, acc.push(p)).shifted(1).after(param)
                } else if has_punct(toks, pos + param.used, Punctuation::RParen) {
                    Parsed { node: Some(acc.push(p)), used: param.used + 1, errors: param.errors }
                } else {
                    fail_after(
                        param,
                        toks,
                        pos,
                        0,
                        SyntaxErrorKind::UnbalancedDelimiter,
                        Expected::Token(TokenKind::Punctuation(Punctuation::RParen)),
                    )
                }
            },
        }
    }
}

/// Param ::= "&" "mut"? "self" | "self" | Identifier ":" Type
#[verifier::opaque]
pub open spec fn parse_param(toks: Seq<TokenView>, pos: nat) -> Parsed<ParamView> {
    if has_keyword(toks, pos, Keyword::SelfValue) {
        Parsed::ok(ParamView { name: text_self_value(), ty: Some(self_type()) }, 1)
    } else if has_op(toks, pos, Operator::Amp) {
        let mutable = has_keyword(toks, pos + 1, Keyword::Mut);
        let at: nat = if mutable { 2 } else { 1 };
        if has_keyword(toks, pos + at, Keyword::SelfValue) {
            Parsed::ok(
                ParamView {
                    name: text_self_value(),
                    ty: Some(TypeView::Reference(mutable, Box::new(self_type()))),
                },
                at + 1,
            )
        } else {
            fail(
                toks,
                pos,
                at,
                SyntaxErrorKind::MissingToken,
                Expected::Token(TokenKind::Keyword(Keyword::SelfValue)),
            )
        }
    } else if !has_identifier(toks, pos) {
        fail(toks, pos, 0, SyntaxErrorKind::MissingToken, Expected::Identifier)
    } else if !has_punct(toks, pos + 1, Punctuation::Colon) {
        fail(
            toks,
            pos,
            1,
            SyntaxErrorKind::MissingToken,
            Expected::Token(TokenKind::Punctuation(Punctuation::Colon)),
        )
    } else {
        let ty = parse_type(toks, pos + 2).shifted(2);
        match ty.node {
            None => ty.failed(),
            Some(t) => ty.with(ParamView { name: text_at(toks, pos), ty: Some(t) }),
        }
    }
}

/// Signature ::= "fn" Identifier "(" Params ")" ("->" Type)?
#[verifier::opaque]
pub open spec fn parse_signature(toks: Seq<TokenView>, pos: nat) -> Parsed<SignatureView> {
    if !has_keyword(toks, pos, Keyword::Fn) {
        fail(
            toks,
            pos,
            0,
            SyntaxErrorKind::MissingToken,
            Expected::Token(TokenKind::Keyword(Keyword::Fn)),
        )
    } else if !has_identifier(toks, pos + 1) {
        fail(toks, pos, 1, SyntaxErrorKind::MissingToken, Expected::Identifier)
    } else if !has_punct(toks, pos + 2, Punctuation::LParen) {
        fail(
            toks,
            pos,
            2,
            SyntaxErrorKind::MissingToken,
            Expected::Token(TokenKind::Punctuation(Punctuation::LParen)),
        )
    } else {
        let params = parse_params(toks, pos + 3, Seq::empty()).shifted(3);
        match params.node {
            None => params.failed(),
            Some(ps) => {
                let ret = parse_return_type(toks, pos + params.used).after(params);
                match ret.node {
                    None => ret.failed(),
                    Some(r) => ret.with(
                        SignatureView { name: text_at(toks, pos + 1), params: ps, ret: r },
                    ),
                }
            },
        }
    }
}

/// Function ::= Signature Block
#[verifier::opaque]
pub open spec fn parse_function(toks: Seq<TokenView>, pos: nat) -> Parsed<FunctionView> {
    let sig = parse_signature(toks, pos);
    match sig.node {
        None => sig.failed(),
        Some(s) => {
            let body = parse_block(toks, pos + sig.used).after(sig);
            match body.node {
                None => body.failed(),
                Some(b) => body.with(FunctionView { sig: s, body: b }),
            }
        },
    }
}

/// The fields of a struct after its `{`, up to its `}`:
/// `(Identifier ":" Type ("," ...)* ","?)? "}"`.
#[verifier::opaque]
pub open spec fn parse_fields(toks: Seq<TokenView>, pos: nat, acc: Seq<FieldView>) -> Parsed<
    Seq<FieldView>,
>
    decreases left(toks, pos),
{
    if has_punct(toks, pos, Punctuation::RBrace) {
        Parsed::ok(acc, 1)
    } else if !has_identifier(toks, pos) {
        fail(toks, pos, 0, SyntaxErrorKind::MissingToken, Expected::Identifier)
    } else if !has_punct(toks, pos + 1, Punctuation::Colon) {
        fail(
            toks,
            pos,
            1,
            SyntaxErrorKind::MissingToken,
            Expected::Token(TokenKind::Punctuation(Punctuation::Colon)),
        )
    } else {
        let ty = parse_type(toks, pos + 2).shifted(2);
        match ty.node {
            None => ty.failed(),
            Some(t) => {
                let field = FieldView { name: text_at(toks, pos), ty: t };
                if has_punct(toks, pos + ty.used, Punctuation::Comma) {
                    parse_fields(toks, pos + ty.used + 1, acc.push(field)).shifted(1).after(ty)
                } else if has_punct(toks, pos + ty.used, Punctuation::RBrace) {
                    Parsed { node: Some(acc.push(field)), used: ty.used + 1, errors: ty.errors }
                } else {
                    fail_after(
                        ty,
                        toks,
                        pos,
                        0,
                        SyntaxErrorKind::UnbalancedDelimiter,
                        Expected::Token(TokenKind::Punctuation(Punctuation::RBrace)),
                    )
                }
            },
        }
    }
}

/// The variants of an enum after its `{`, up to its `}`:
/// `(Identifier ("," Identifier)* ","?)? "}"`.
#[verifier::opaque]
pub open spec fn parse_variants(toks: Seq<TokenView>, pos: nat, acc: Seq<Seq<u8>>) -> Parsed<
    Seq<Seq<u8>>,
>
    decreases left(toks, pos),
{
    if has_punct(toks, pos, Punctuation::RBrace) {
        Parsed::ok(acc, 1)
    } else if !has_identifier(toks, pos) {
        fail(toks, pos, 0, SyntaxErrorKind::MissingToken, Expected::Identifier)
    } else if has_punct(toks, pos + 1, Punctuation::Comma) {
        parse_variants(toks, pos + 2, acc.push(text_at(toks, pos))).shifted(2)
    } else if has_punct(toks, pos + 1, Punctuation::RBrace) {
        Parsed::ok(acc.push(text_at(toks, pos)), 2)
    } else {
        fail(
            toks,
            pos,
            1,
            SyntaxErrorKind::UnbalancedDelimiter,
            Expected::Token(TokenKind::Punctuation(Punctuation::RBrace)),
        )
    }
}

/// The method heads of a trait after its `{`, up to its `}`:
/// `(Signature ";")* "}"`.
#[verifier::opaque]
pub open spec fn parse_trait_methods(toks: Seq<TokenView>, pos: nat, acc: Seq<SignatureView>) -> Parsed<
    Seq<SignatureView>,
>
    decreases left(toks, pos),
{
    if has_punct(toks, pos, Punctuation::RBrace) {
        Parsed::ok(acc, 1)
    } else {
        let sig = parse_signature(toks, pos);
        match sig.node {
            None => sig.failed(),
            Some(s) => {
                if has_punct(toks, pos + sig.used, Punctuation::Semicolon) {
                    parse_trait_methods(toks, pos + sig.used + 1, acc.push(s)).shifted(1).after(sig)
                } else {
                    fail_after(
                        sig,
                        toks,
                        pos,
                        0,
                        SyntaxErrorKind::MissingToken,
                        Expected::Token(semicolon()),
                    )
                }
            },
        }
    }
}

/// The methods of an `impl` after its `{`, up to its `}`: `Function* "}"`.
#[verifier::opaque]
pub open spec fn parse_impl_methods(toks: Seq<TokenView>, pos: nat, acc: Seq<FunctionView>) -> Parsed<
    Seq<FunctionView>,
>
    decreases left(toks, pos),
{
    if has_punct(toks, pos, Punctuation::RBrace) {
        Parsed::ok(acc, 1)
    } else if pos >= toks.len() {
        fail(
            toks,
            pos,
            0,
            SyntaxErrorKind::UnbalancedDelimiter,
            Expected::Token(TokenKind::Punctuation(Punctuation::RBrace)),
        )
    } else {
        let method = parse_function(toks, pos);
        match method.node {
            None => method.failed(),
            Some(m) => {
                let step: nat = if method.used == 0 { 1 } else { method.used };
                let rest = parse_impl_methods(toks, pos + step, acc.push(m));
                Parsed { node: rest.node, used: step + rest.used, errors: method.errors + rest.errors }
            },
        }
    }
}

/// What follows the name of a constant or a static: `":" Type "=" Expr ";"`.
/// `pos` is the item's first token, and the name is the last of the `at`
/// tokens read so far.
#[verifier::opaque]
pub open spec fn parse_binding(toks: Seq<TokenView>, pos: nat, at: nat) -> Parsed<
    (TypeView, ExprView),
> {
    if !has_punct(toks, pos + at, Punctuation::Colon) {
        fail(
            toks,
            pos,
            at,
            SyntaxErrorKind::MissingToken,
            Expected::Token(TokenKind::Punctuation(Punctuation::Colon)),
        )
    } else {
        let ty = parse_type(toks, pos + at + 1).shifted(at + 1);
        match ty.node {
            None => ty.failed(),
            Some(t) => {
                if !has_op(toks, pos + ty.used, Operator::Assign) {
                    fail_after(
                        ty,
                        toks,
                        pos,
                        0,
                        SyntaxErrorKind::MissingToken,
                        Expected::Token(TokenKind::Operator(Operator::Assign)),
                    )
                } else {
                    let value = parse_expr(toks, pos + ty.used + 1, true).shifted(1).after(ty);
                    match value.node {
                        None => value.failed(),
                        Some(v) => close(
                            value,
                            toks,
                            pos,
                            semicolon(),
                            SyntaxErrorKind::MissingToken,
                            (t, v),
                        ),
                    }
                }
            },
        }
    }
}

/// The name of a declaration and the `{` behind it, after the keyword at
/// token `pos`: `Identifier "{"`. Gives the name.
#[verifier::opaque]
pub open spec fn parse_head(toks: Seq<TokenView>, pos: nat) -> Parsed<Seq<u8>> {
    if !has_identifier(toks, pos + 1) {
        fail(toks, pos, 1, SyntaxErrorKind::MissingToken, Expected::Identifier)
    } else if !has_punct(toks, pos + 2, Punctuation::LBrace) {
        fail(
            toks,
            pos,
            2,
            SyntaxErrorKind::MissingToken,
            Expected::Token(TokenKind::Punctuation(Punctuation::LBrace)),
        )
    } else {
        Parsed::ok(text_at(toks, pos + 1), 3)
    }
}

/// Const ::= "const" Identifier ":" Type "=" Expr ";"
#[verifier::opaque]
pub open spec fn parse_const(toks: Seq<TokenView>, pos: nat) -> Parsed<ItemView> {
    if !has_identifier(toks, pos + 1) {
        fail(toks, pos, 1, SyntaxErrorKind::MissingToken, Expected::Identifier)
    } else {
        let rest = parse_binding(toks, pos, 2);
        match rest.node {
            None => rest.failed(),
            Some(b) => rest.with(
                ItemView::Const { name: text_at(toks, pos + 1), ty: b.0, value: b.1 },
            ),
        }
    }
}

/// Static ::= "static" "mut"? Identifier ":" Type "=" Expr ";"
#[verifier::opaque]
pub open spec fn parse_static(toks: Seq<TokenView>, pos: nat) -> Parsed<ItemView> {
    let mutable = has_keyword(toks, pos + 1, Keyword::Mut);
    let at: nat = if mutable { 2 } else { 1 };
    if !has_identifier(toks, pos + at) {
        fail(toks, pos, at, SyntaxErrorKind::MissingToken, Expected::Identifier)
    } else {
        let rest = parse_binding(toks, pos, at + 1);
        match rest.node {
            None => rest.failed(),
            Some(b) => rest.with(
                ItemView::Static { name: text_at(toks, pos + at), mutable, ty: b.0, value: b.1 },
            ),
        }
    }
}

/// Struct ::= "struct" Identifier "{" Fields "}"
#[verifier::opaque]
pub open spec fn parse_struct(toks: Seq<TokenView>, pos: nat) -> Parsed<ItemView> {
    let head = parse_head(toks, pos);
    match head.node {
        None => head.failed(),
        Some(name) => {
            let fields = parse_fields(toks, pos + head.used, Seq::empty()).after(head);
            match fields.node {
                None => fields.failed(),
                Some(f) => fields.with(ItemView::Struct { name, fields: f }),
            }
        },
    }
}

/// Enum ::= "enum" Identifier "{" Variants "}"
#[verifier::opaque]
pub open spec fn parse_enum(toks: Seq<TokenView>, pos: nat) -> Parsed<ItemView> {
    let head = parse_head(toks, pos);
    match head.node {
        None => head.failed(),
        Some(name) => {
            let variants = parse_variants(toks, pos + head.used, Seq::empty()).after(head);
            match variants.node {
                None => variants.failed(),
                Some(v) => variants.with(ItemView::Enum { name, variants: v }),
            }
        },
    }
}

/// Trait ::= "trait" Identifier "{" (Signature ";")* "}"
#[verifier::opaque]
pub open spec fn parse_trait(toks: Seq<TokenView>, pos: nat) -> Parsed<ItemView> {
    let head = parse_head(toks, pos);
    match head.node {
        None => head.failed(),
        Some(name) => {
            let methods = parse_trait_methods(toks, pos + head.used, Seq::empty()).after(head);
            match methods.node {
                None => methods.failed(),
                Some(m) => methods.with(ItemView::Trait { name, methods: m }),
            }
        },
    }
}

/// Impl ::= "impl" Identifier ("for" Identifier)? "{" Function* "}"
///
/// In `impl A for B`, `A` is the trait and `B` the type that gets the methods.
#[verifier::opaque]
pub open spec fn parse_impl(toks: Seq<TokenView>, pos: nat) -> Parsed<ItemView> {
    if !has_identifier(toks, pos + 1) {
        fail(toks, pos, 1, SyntaxErrorKind::MissingToken, Expected::Identifier)
    } else if has_keyword(toks, pos + 2, Keyword::For) {
        let head = parse_head(toks, pos + 2).shifted(2);
        match head.node {
            None => head.failed(),
            Some(target) => {
                let methods = parse_impl_methods(toks, pos + head.used, Seq::empty()).after(head);
                match methods.node {
                    None => methods.failed(),
                    Some(m) => methods.with(
                        ItemView::Impl {
                            target,
                            trait_name: Some(text_at(toks, pos + 1)),
                            methods: m,
                        },
                    ),
                }
            },
        }
    } else {
        let head = parse_head(toks, pos);
        match head.node {
            None => head.failed(),
            Some(target) => {
                let methods = parse_impl_methods(toks, pos + head.used, Seq::empty()).after(head);
                match methods.node {
                    None => methods.failed(),
                    Some(m) => methods.with(
                        ItemView::Impl { target, trait_name: None, methods: m },
                    ),
                }
            },
        }
    }
}

/// Item ::= Const | Static | Struct | Enum | Trait | Impl | Function
#[verifier::opaque]
pub open spec fn parse_item(toks: Seq<TokenView>, pos: nat) -> Parsed<ItemView> {
    match kind_at(toks, pos) {
        Some(TokenKind::Keyword(Keyword::Const)) => parse_const(toks, pos),
        Some(TokenKind::Keyword(Keyword::Static)) => parse_static(toks, pos),
        Some(TokenKind::Keyword(Keyword::Struct)) => parse_struct(toks, pos),
        Some(TokenKind::Keyword(Keyword::Enum)) => parse_enum(toks, pos),
        Some(TokenKind::Keyword(Keyword::Trait)) => parse_trait(toks, pos),
        Some(TokenKind::Keyword(Keyword::Impl)) => parse_impl(toks, pos),
        Some(TokenKind::Keyword(Keyword::Fn)) => {
            let function = parse_function(toks, pos);
            match function.node {
                None => function.failed(),
                Some(f) => function.with(ItemView::Function(f)),
            }
        },
        _ => fail(toks, pos, 0, SyntaxErrorKind::UnexpectedToken, Expected::Item),
    }
}

/// The number of tokens to drop, from token `pos` on, after an item broke
/// there: all up to the next `;` or `}`, and that token too.
pub open spec fn item_skip(toks: Seq<TokenView>, pos: nat) -> nat
    decreases left(toks, pos),
{
    if pos >= toks.len() {
        0
    } else if has_punct(toks, pos, Punctuation::Semicolon) || has_punct(
        toks,
        pos,
        Punctuation::RBrace,
    ) {
        1
    } else {
        1 + item_skip(toks, pos + 1)
    }
}

/// Recovery stops at the first boundary. The tokens dropped after a broken
/// item hold no `;` and no `}` but the last of them, and that last is a `;`
/// or a `}` unless the input ends first.
pub proof fn law_item_recovery_stops_at_boundary(toks: Seq<TokenView>, pos: nat)
    ensures
        ({
            let n = item_skip(toks, pos);
            &&& pos + n <= toks.len() || n == 0
            &&& forall|i: nat|
                pos <= i < pos + n - 1 ==> !#[trigger] has_punct(toks, i, Punctuation::Semicolon)
            &&& forall|i: nat|
                pos <= i < pos + n - 1 ==> !#[trigger] has_punct(toks, i, Punctuation::RBrace)
            &&& pos + n >= toks.len() || has_punct(toks, (pos + n - 1) as nat, Punctuation::Semicolon)
                || has_punct(toks, (pos + n - 1) as nat, Punctuation::RBrace)
            &&& pos < toks.len() ==> n >= 1
        }),
    decreases left(toks, pos),
{
    if pos < toks.len() && !has_punct(toks, pos, Punctuation::RBrace) && !has_punct(
        toks,
        pos,
        Punctuation::Semicolon,
    ) {
        law_item_recovery_stops_at_boundary(toks, pos + 1);
    }
}

/// The items from token `pos` to the end of the input; `acc` holds those
/// read so far. An item that breaks is dropped with the tokens that
/// [`item_skip`] counts, and reading goes on behind them. Every step takes at
/// least one token.
#[verifier::opaque]
pub open spec fn parse_items(toks: Seq<TokenView>, pos: nat, acc: Seq<ItemView>) -> Parsed<
    Seq<ItemView>,
>
    decreases left(toks, pos),
{
    if pos >= toks.len() {
        Parsed::ok(acc, 0)
    } else {
        let first = parse_item(toks, pos);
        let (step, next) = match first.node {
            Some(item) => (first.used, acc.push(item)),
            None => (first.used + item_skip(toks, pos + first.used), acc),
        };
        let step = if step == 0 {
            1
        } else {
            step
        };
        let rest = parse_items(toks, pos + step, next);
        Parsed { node: rest.node, used: step + rest.used, errors: first.errors + rest.errors }
    }
}

/// Program ::= Item*
///
/// The program that a row of tokens writes: the items that could be read,
/// in order.
pub open spec fn parse_program(toks: Seq<TokenView>) -> ProgramView {
    ProgramView { items: parse_items(toks, 0, Seq::empty()).node.unwrap() }
}

/// The syntax errors of a row of tokens, in the order in which they are met.
pub open spec fn syntax_errors(toks: Seq<TokenView>) -> Seq<SyntaxError> {
    parse_items(toks, 0, Seq::empty()).errors
}

} // verus!
