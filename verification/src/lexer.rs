//! The lexer: source bytes in, tokens and lexical errors out.
//!
//! The source is read as a row of *pieces* that follow one another without
//! gap: a piece is a token, a lexical error, or trivia (white space or a
//! comment). [`piece_at`] says which piece starts at a given byte;
//! [`tokens_from`] and [`errors_from`] collect the tokens and the errors of
//! all pieces from a byte on. [`tokenize`] computes both.

use vstd::prelude::*;
use vstd::slice::slice_subrange;
use crate::text::{copy_range, is_digit, same_bytes};
use crate::token::{
    keyword_text, macro_text, text_false, text_true, Keyword, Macro, Operator, Punctuation, Token,
    TokenKind, TokenView,
};
use crate::tiling::{
    errors_in_order, law_errors_are_in_the_source, law_tokens_are_source_text, tokens_in_order,
};
use crate::token::tokens_view;

verus! {

/// The two ways in which source text can fail to be a token.
#[derive(Clone, Copy, Debug, PartialEq, Eq, Structural)]
pub enum LexErrorKind {
    /// A byte that starts no token.
    InvalidCharacter,
    /// A string or character literal that its line does not close.
    UnterminatedLiteral,
}

/// A lexical error: the bytes `offset .. offset + length` of the source
/// are no token.
#[derive(Clone, Copy, Debug, PartialEq, Eq, Structural)]
pub struct LexError {
    pub kind: LexErrorKind,
    pub offset: usize,
    pub length: usize,
    pub line: usize,
    pub column: usize,
}

/// Classes of bytes of which the lexer scans maximal runs.
#[derive(Clone, Copy, Debug, PartialEq, Eq, Structural)]
pub enum ByteClass {
    /// A decimal digit.
    Digit,
    /// A letter, a digit or `_`: what an identifier continues with.
    Word,
    /// Any byte but a line feed.
    SameLine,
    /// A byte of a character outside ASCII.
    High,
}

/// Whether a byte is white space: a blank, a tab, a line feed or a carriage
/// return.
pub open spec fn is_space(b: u8) -> bool {
    b == ' ' as u8 || b == '\t' as u8 || b == '\n' as u8 || b == '\r' as u8
}

/// Whether a byte may start an identifier: a letter or `_`.
pub open spec fn is_word_start(b: u8) -> bool {
    ('a' as u8 <= b <= 'z' as u8) || ('A' as u8 <= b <= 'Z' as u8) || b == '_' as u8
}

/// Whether the byte `b` is of the class `class`.
pub open spec fn in_class(class: ByteClass, b: u8) -> bool {
    match class {
        ByteClass::Digit => is_digit(b),
        ByteClass::Word => is_word_start(b) || is_digit(b),
        ByteClass::SameLine => b != '\n' as u8,
        ByteClass::High => b >= 0x80,
    }
}

/// The length of the longest run of bytes of `class` that starts at `pos`.
pub open spec fn run_length(src: Seq<u8>, pos: int, class: ByteClass) -> nat
    decreases src.len() - pos,
{
    if 0 <= pos < src.len() && in_class(class, src[pos]) {
        1 + run_length(src, pos + 1, class)
    } else {
        0
    }
}

/// From `pos`, inside a string literal: the distance to the `"` that closes
/// it. A backslash takes the byte after it along. `None` when the line or the
/// source ends first.
pub open spec fn string_close(src: Seq<u8>, pos: int) -> Option<nat>
    decreases src.len() - pos,
{
    if pos < 0 || pos >= src.len() || src[pos] == '\n' as u8 {
        None
    } else if src[pos] == '"' as u8 {
        Some(0)
    } else if src[pos] == '\\' as u8 && pos + 1 < src.len() && src[pos + 1] != '\n' as u8 {
        match string_close(src, pos + 2) {
            Some(d) => Some(d + 2),
            None => None,
        }
    } else {
        match string_close(src, pos + 1) {
            Some(d) => Some(d + 1),
            None => None,
        }
    }
}

/// From `pos`, inside a block comment: the distance to the end of the `*/`
/// that closes it, or to the end of the source where nothing closes it.
pub open spec fn comment_close(src: Seq<u8>, pos: int) -> nat
    decreases src.len() - pos,
{
    if pos < 0 || pos >= src.len() {
        0
    } else if src[pos] == '*' as u8 && pos + 1 < src.len() && src[pos + 1] == '/' as u8 {
        2
    } else {
        1 + comment_close(src, pos + 1)
    }
}

/// The length of the character literal whose opening quote is at `pos`:
/// one escaped byte, one character outside ASCII, or one plain byte,
/// between two quotes. `None` where no such literal starts.
pub open spec fn char_literal_length(src: Seq<u8>, pos: int) -> Option<nat> {
    if pos + 1 >= src.len() {
        None
    } else if src[pos + 1] == '\\' as u8 {
        if pos + 3 < src.len() && src[pos + 2] != '\n' as u8 && src[pos + 3] == '\'' as u8 {
            Some(4)
        } else {
            None
        }
    } else if src[pos + 1] >= 0x80 {
        let n = run_length(src, pos + 1, ByteClass::High);
        if pos + 1 + n < src.len() && src[pos + 1 + n] == '\'' as u8 {
            Some(n + 2)
        } else {
            None
        }
    } else if src[pos + 1] != '\'' as u8 && src[pos + 1] != '\n' as u8 && pos + 2 < src.len()
        && src[pos + 2] == '\'' as u8 {
        Some(3)
    } else {
        None
    }
}

/// The token that two bytes spell together, if any.
pub open spec fn symbol_pair(a: u8, b: u8) -> Option<TokenKind> {
    if a == '=' as u8 && b == '=' as u8 {
        Some(TokenKind::Operator(Operator::EqEq))
    } else if a == '!' as u8 && b == '=' as u8 {
        Some(TokenKind::Operator(Operator::NotEq))
    } else if a == '<' as u8 && b == '=' as u8 {
        Some(TokenKind::Operator(Operator::LessEq))
    } else if a == '>' as u8 && b == '=' as u8 {
        Some(TokenKind::Operator(Operator::GreaterEq))
    } else if a == '&' as u8 && b == '&' as u8 {
        Some(TokenKind::Operator(Operator::AndAnd))
    } else if a == '|' as u8 && b == '|' as u8 {
        Some(TokenKind::Operator(Operator::OrOr))
    } else if a == '+' as u8 && b == '=' as u8 {
        Some(TokenKind::Operator(Operator::PlusAssign))
    } else if a == '-' as u8 && b == '=' as u8 {
        Some(TokenKind::Operator(Operator::MinusAssign))
    } else if a == '*' as u8 && b == '=' as u8 {
        Some(TokenKind::Operator(Operator::StarAssign))
    } else if a == '/' as u8 && b == '=' as u8 {
        Some(TokenKind::Operator(Operator::SlashAssign))
    } else if a == '.' as u8 && b == '.' as u8 {
        Some(TokenKind::Operator(Operator::DotDot))
    } else if a == ':' as u8 && b == ':' as u8 {
        Some(TokenKind::Operator(Operator::PathSep))
    } else if a == '-' as u8 && b == '>' as u8 {
        Some(TokenKind::Punctuation(Punctuation::Arrow))
    } else {
        None
    }
}

/// The token that one byte spells alone, if any.
pub open spec fn symbol_single(a: u8) -> Option<TokenKind> {
    if a == '+' as u8 {
        Some(TokenKind::Operator(Operator::Plus))
    } else if a == '-' as u8 {
        Some(TokenKind::Operator(Operator::Minus))
    } else if a == '*' as u8 {
        Some(TokenKind::Operator(Operator::Star))
    } else if a == '/' as u8 {
        Some(TokenKind::Operator(Operator::Slash))
    } else if a == '%' as u8 {
        Some(TokenKind::Operator(Operator::Percent))
    } else if a == '<' as u8 {
        Some(TokenKind::Operator(Operator::Less))
    } else if a == '>' as u8 {
        Some(TokenKind::Operator(Operator::Greater))
    } else if a == '!' as u8 {
        Some(TokenKind::Operator(Operator::Not))
    } else if a == '=' as u8 {
        Some(TokenKind::Operator(Operator::Assign))
    } else if a == '&' as u8 {
        Some(TokenKind::Operator(Operator::Amp))
    } else if a == '|' as u8 {
        Some(TokenKind::Operator(Operator::Pipe))
    } else if a == '.' as u8 {
        Some(TokenKind::Operator(Operator::Dot))
    } else if a == '(' as u8 {
        Some(TokenKind::Punctuation(Punctuation::LParen))
    } else if a == ')' as u8 {
        Some(TokenKind::Punctuation(Punctuation::RParen))
    } else if a == '{' as u8 {
        Some(TokenKind::Punctuation(Punctuation::LBrace))
    } else if a == '}' as u8 {
        Some(TokenKind::Punctuation(Punctuation::RBrace))
    } else if a == '[' as u8 {
        Some(TokenKind::Punctuation(Punctuation::LBracket))
    } else if a == ']' as u8 {
        Some(TokenKind::Punctuation(Punctuation::RBracket))
    } else if a == ',' as u8 {
        Some(TokenKind::Punctuation(Punctuation::Comma))
    } else if a == ';' as u8 {
        Some(TokenKind::Punctuation(Punctuation::Semicolon))
    } else if a == ':' as u8 {
        Some(TokenKind::Punctuation(Punctuation::Colon))
    } else {
        None
    }
}

/// The keywords, in the order in which a word is held against them.
pub open spec fn keywords() -> Seq<Keyword> {
    seq![
        Keyword::Let,
        Keyword::Mut,
        Keyword::Const,
        Keyword::Static,
        Keyword::Fn,
        Keyword::Return,
        Keyword::If,
        Keyword::Else,
        Keyword::While,
        Keyword::For,
        Keyword::In,
        Keyword::Loop,
        Keyword::Break,
        Keyword::Continue,
        Keyword::Struct,
        Keyword::Enum,
        Keyword::Impl,
        Keyword::Trait,
        Keyword::SelfValue,
        Keyword::SelfType,
    ]
}

/// The print macros, in the order in which a word is held against them.
pub open spec fn macros() -> Seq<Macro> {
    seq![Macro::Println, Macro::Print, Macro::Eprintln, Macro::Eprint]
}

/// The first keyword from place `from` of [`keywords`] on that `word` spells.
pub open spec fn find_keyword(word: Seq<u8>, from: nat) -> Option<Keyword>
    decreases keywords().len() - from,
{
    if from >= keywords().len() {
        None
    } else if keyword_text(keywords()[from as int]) == word {
        Some(keywords()[from as int])
    } else {
        find_keyword(word, from + 1)
    }
}

/// The first macro from place `from` of [`macros`] on whose name `word` spells.
pub open spec fn find_macro(word: Seq<u8>, from: nat) -> Option<Macro>
    decreases macros().len() - from,
{
    if from >= macros().len() {
        None
    } else if macro_text(macros()[from as int]) == word {
        Some(macros()[from as int])
    } else {
        find_macro(word, from + 1)
    }
}

/// What a whole word is: a keyword or a boolean literal where it is spelt
/// exactly like one, an identifier otherwise.
pub open spec fn word_kind(word: Seq<u8>) -> TokenKind {
    if let Some(k) = find_keyword(word, 0) {
        TokenKind::Keyword(k)
    } else if word == text_true() {
        TokenKind::BoolLiteral(true)
    } else if word == text_false() {
        TokenKind::BoolLiteral(false)
    } else {
        TokenKind::Identifier
    }
}

/// What a piece of source is.
#[derive(Clone, Copy, Debug, PartialEq, Eq, Structural)]
pub enum PieceKind {
    /// White space or a comment: nothing is emitted.
    Trivia,
    Token(TokenKind),
    Error(LexErrorKind),
}

/// A piece: its kind and the number of bytes it covers.
pub struct Piece {
    pub kind: PieceKind,
    pub length: nat,
}

/// The piece that starts at byte `pos` of `src`, for `0 <= pos < src.len()`.
/// Every piece covers at least one byte.
pub open spec fn piece_at(src: Seq<u8>, pos: int) -> Piece {
    let b = src[pos];
    let next_is = |c: char| pos + 1 < src.len() && src[pos + 1] == c as u8;
    if is_space(b) {
        Piece { kind: PieceKind::Trivia, length: 1 }
    } else if b == '/' as u8 && next_is('/') {
        Piece { kind: PieceKind::Trivia, length: 2 + run_length(src, pos + 2, ByteClass::SameLine) }
    } else if b == '/' as u8 && next_is('*') {
        Piece { kind: PieceKind::Trivia, length: 2 + comment_close(src, pos + 2) }
    } else if is_word_start(b) {
        let n = 1 + run_length(src, pos + 1, ByteClass::Word);
        let word = src.subrange(pos, pos + n);
        let name = find_macro(word, 0);
        if name.is_some() && pos + n < src.len() && src[pos + n] == '!' as u8 {
            Piece { kind: PieceKind::Token(TokenKind::MacroName(name.unwrap())), length: n + 1 }
        } else {
            Piece { kind: PieceKind::Token(word_kind(word)), length: n }
        }
    } else if is_digit(b) {
        let n = 1 + run_length(src, pos + 1, ByteClass::Digit);
        if pos + n + 1 < src.len() && src[pos + n] == '.' as u8 && is_digit(src[pos + n + 1]) {
            Piece {
                kind: PieceKind::Token(TokenKind::FloatLiteral),
                length: n + 1 + run_length(src, pos + n + 1, ByteClass::Digit),
            }
        } else {
            Piece { kind: PieceKind::Token(TokenKind::IntLiteral), length: n }
        }
    } else if b == '"' as u8 {
        match string_close(src, pos + 1) {
            Some(d) => Piece { kind: PieceKind::Token(TokenKind::StringLiteral), length: d + 2 },
            None => Piece {
                kind: PieceKind::Error(LexErrorKind::UnterminatedLiteral),
                length: 1 + run_length(src, pos + 1, ByteClass::SameLine),
            },
        }
    } else if b == '\'' as u8 {
        match char_literal_length(src, pos) {
            Some(n) => Piece { kind: PieceKind::Token(TokenKind::CharLiteral), length: n },
            None => Piece {
                kind: PieceKind::Error(LexErrorKind::UnterminatedLiteral),
                length: 1 + run_length(src, pos + 1, ByteClass::SameLine),
            },
        }
    } else if pos + 1 < src.len() && symbol_pair(b, src[pos + 1]).is_some() {
        Piece { kind: PieceKind::Token(symbol_pair(b, src[pos + 1]).unwrap()), length: 2 }
    } else if symbol_single(b).is_some() {
        Piece { kind: PieceKind::Token(symbol_single(b).unwrap()), length: 1 }
    } else {
        Piece { kind: PieceKind::Error(LexErrorKind::InvalidCharacter), length: 1 }
    }
}

/// The number of bytes of `src` from byte `pos` on.
pub open spec fn remaining(src: Seq<u8>, pos: nat) -> nat {
    if pos < src.len() {
        (src.len() - pos) as nat
    } else {
        0
    }
}

/// The line of byte `pos`, counted from 1: one more than the number of line
/// feeds before it.
pub open spec fn line_of(src: Seq<u8>, pos: nat) -> nat
    decreases pos,
{
    if pos == 0 {
        1
    } else if src[pos - 1] == '\n' as u8 {
        line_of(src, (pos - 1) as nat) + 1
    } else {
        line_of(src, (pos - 1) as nat)
    }
}

/// The column of byte `pos`, counted from 1: one more than the number of
/// bytes between it and the start of its line.
pub open spec fn column_of(src: Seq<u8>, pos: nat) -> nat
    decreases pos,
{
    if pos == 0 || src[pos - 1] == '\n' as u8 {
        1
    } else {
        column_of(src, (pos - 1) as nat) + 1
    }
}

/// The token that the bytes `pos .. pos + length` of `src` make.
pub open spec fn token_at(src: Seq<u8>, pos: nat, kind: TokenKind, length: nat) -> TokenView {
    TokenView {
        kind,
        lexeme: src.subrange(pos as int, (pos + length) as int),
        offset: pos,
        line: line_of(src, pos),
        column: column_of(src, pos),
    }
}

/// The tokens of the pieces of `src` from byte `pos` on, in source order.
pub open spec fn tokens_from(src: Seq<u8>, pos: nat) -> Seq<TokenView>
    decreases remaining(src, pos),
{
    if pos >= src.len() {
        Seq::empty()
    } else {
        let piece = piece_at(src, pos as int);
        let rest = tokens_from(src, pos + piece.length);
        match piece.kind {
            PieceKind::Token(kind) => seq![token_at(src, pos, kind, piece.length)] + rest,
            _ => rest,
        }
    }
}

/// What a lexical error records, as mathematical integers.
pub struct LexErrorView {
    pub kind: LexErrorKind,
    pub offset: nat,
    pub length: nat,
    pub line: nat,
    pub column: nat,
}

impl View for LexError {
    type V = LexErrorView;

    open spec fn view(&self) -> LexErrorView {
        LexErrorView {
            kind: self.kind,
            offset: self.offset as nat,
            length: self.length as nat,
            line: self.line as nat,
            column: self.column as nat,
        }
    }
}

/// The values of a row of lexical errors, in order.
pub open spec fn lex_errors_view(errors: Seq<LexError>) -> Seq<LexErrorView> {
    Seq::new(errors.len(), |i: int| errors[i]@)
}

/// The lexical errors of the pieces of `src` from byte `pos` on, in source
/// order.
pub open spec fn errors_from(src: Seq<u8>, pos: nat) -> Seq<LexErrorView>
    decreases remaining(src, pos),
{
    if pos >= src.len() {
        Seq::empty()
    } else {
        let piece = piece_at(src, pos as int);
        let rest = errors_from(src, pos + piece.length);
        match piece.kind {
            PieceKind::Error(kind) => seq![
                LexErrorView {
                    kind,
                    offset: pos,
                    length: piece.length,
                    line: line_of(src, pos),
                    column: column_of(src, pos),
                },
            ] + rest,
            _ => rest,
        }
    }
}

fn byte_in_class(class: ByteClass, b: u8) -> (r: bool)
    ensures
        r == in_class(class, b),
{
    match class {
        ByteClass::Digit => b >= '0' as u8 && b <= '9' as u8,
        ByteClass::Word => (b >= 'a' as u8 && b <= 'z' as u8) || (b >= 'A' as u8 && b <= 'Z' as u8)
            || b == '_' as u8 || (b >= '0' as u8 && b <= '9' as u8),
        ByteClass::SameLine => b != '\n' as u8,
        ByteClass::High => b >= 0x80,
    }
}

/// Measures the longest run of bytes of `class` that starts at `pos`.
fn scan_run(src: &[u8], pos: usize, class: ByteClass) -> (n: usize)
    requires
        pos <= src.len(),
    ensures
        n == run_length(src@, pos as int, class),
        pos + n <= src.len(),
{
    let mut i: usize = pos;
    while i < src.len() && byte_in_class(class, src[i])
        invariant
            pos <= i <= src.len(),
            run_length(src@, pos as int, class) == (i - pos) + run_length(src@, i as int, class),
        decreases src.len() - i,
    {
        i += 1;
    }
    i - pos
}

/// Looks for the `"` that closes the string literal whose inside starts at
/// `pos`.
fn scan_string(src: &[u8], pos: usize) -> (d: Option<usize>)
    requires
        pos <= src.len(),
    ensures
        d matches Some(n) ==> string_close(src@, pos as int) == Some(n as nat) && pos + n < src.len(),
        d.is_none() ==> string_close(src@, pos as int).is_none(),
{
    let mut i: usize = pos;
    loop
        invariant
            pos <= i <= src.len(),
            string_close(src@, pos as int) == match string_close(src@, i as int) {
                Some(k) => Some((k + (i - pos)) as nat),
                None => None,
            },
        decreases src.len() - i,
    {
        if i >= src.len() || src[i] == '\n' as u8 {
            return None;
        }
        if src[i] == '"' as u8 {
            return Some(i - pos);
        }
        if src[i] == '\\' as u8 && i + 1 < src.len() && src[i + 1] != '\n' as u8 {
            i += 2;
        } else {
            i += 1;
        }
    }
}

/// Looks for the end of the block comment whose inside starts at `pos`.
fn scan_comment(src: &[u8], pos: usize) -> (n: usize)
    requires
        pos <= src.len(),
    ensures
        n == comment_close(src@, pos as int),
        pos + n <= src.len(),
{
    let mut i: usize = pos;
    loop
        invariant
            pos <= i <= src.len(),
            comment_close(src@, pos as int) == (i - pos) + comment_close(src@, i as int),
        decreases src.len() - i,
    {
        if i >= src.len() {
            return i - pos;
        }
        if src[i] == '*' as u8 && i + 1 < src.len() && src[i + 1] == '/' as u8 {
            return i + 2 - pos;
        }
        i += 1;
    }
}

/// Measures the character literal whose opening quote is at `pos`.
fn scan_char_literal(src: &[u8], pos: usize) -> (n: Option<usize>)
    requires
        pos < src.len(),
    ensures
        n matches Some(k) ==> char_literal_length(src@, pos as int) == Some(k as nat) && pos + k
            <= src.len(),
        n.is_none() ==> char_literal_length(src@, pos as int).is_none(),
{
    if src.len() - pos <= 1 {
        return None;
    }
    let first = src[pos + 1];
    if first == '\\' as u8 {
        if src.len() - pos > 3 && src[pos + 2] != '\n' as u8 && src[pos + 3] == '\'' as u8 {
            Some(4)
        } else {
            None
        }
    } else if first >= 0x80 {
        let run = scan_run(src, pos + 1, ByteClass::High);
        if pos + 1 + run < src.len() && src[pos + 1 + run] == '\'' as u8 {
            Some(run + 2)
        } else {
            None
        }
    } else if first != '\'' as u8 && first != '\n' as u8 && src.len() - pos > 2 && src[pos + 2]
        == '\'' as u8 {
        Some(3)
    } else {
        None
    }
}

fn pair_symbol(a: u8, b: u8) -> (kind: Option<TokenKind>)
    ensures
        kind == symbol_pair(a, b),
{
    if a == '=' as u8 && b == '=' as u8 {
        Some(TokenKind::Operator(Operator::EqEq))
    } else if a == '!' as u8 && b == '=' as u8 {
        Some(TokenKind::Operator(Operator::NotEq))
    } else if a == '<' as u8 && b == '=' as u8 {
        Some(TokenKind::Operator(Operator::LessEq))
    } else if a == '>' as u8 && b == '=' as u8 {
        Some(TokenKind::Operator(Operator::GreaterEq))
    } else if a == '&' as u8 && b == '&' as u8 {
        Some(TokenKind::Operator(Operator::AndAnd))
    } else if a == '|' as u8 && b == '|' as u8 {
        Some(TokenKind::Operator(Operator::OrOr))
    } else if a == '+' as u8 && b == '=' as u8 {
        Some(TokenKind::Operator(Operator::PlusAssign))
    } else if a == '-' as u8 && b == '=' as u8 {
        Some(TokenKind::Operator(Operator::MinusAssign))
    } else if a == '*' as u8 && b == '=' as u8 {
        Some(TokenKind::Operator(Operator::StarAssign))
    } else if a == '/' as u8 && b == '=' as u8 {
        Some(TokenKind::Operator(Operator::SlashAssign))
    } else if a == '.' as u8 && b == '.' as u8 {
        Some(TokenKind::Operator(Operator::DotDot))
    } else if a == ':' as u8 && b == ':' as u8 {
        Some(TokenKind::Operator(Operator::PathSep))
    } else if a == '-' as u8 && b == '>' as u8 {
        Some(TokenKind::Punctuation(Punctuation::Arrow))
    } else {
        None
    }
}

fn single_symbol(a: u8) -> (kind: Option<TokenKind>)
    ensures
        kind == symbol_single(a),
{
    if a == '+' as u8 {
        Some(TokenKind::Operator(Operator::Plus))
    } else if a == '-' as u8 {
        Some(TokenKind::Operator(Operator::Minus))
    } else if a == '*' as u8 {
        Some(TokenKind::Operator(Operator::Star))
    } else if a == '/' as u8 {
        Some(TokenKind::Operator(Operator::Slash))
    } else if a == '%' as u8 {
        Some(TokenKind::Operator(Operator::Percent))
    } else if a == '<' as u8 {
        Some(TokenKind::Operator(Operator::Less))
    } else if a == '>' as u8 {
        Some(TokenKind::Operator(Operator::Greater))
    } else if a == '!' as u8 {
        Some(TokenKind::Operator(Operator::Not))
    } else if a == '=' as u8 {
        Some(TokenKind::Operator(Operator::Assign))
    } else if a == '&' as u8 {
        Some(TokenKind::Operator(Operator::Amp))
    } else if a == '|' as u8 {
        Some(TokenKind::Operator(Operator::Pipe))
    } else if a == '.' as u8 {
        Some(TokenKind::Operator(Operator::Dot))
    } else if a == '(' as u8 {
        Some(TokenKind::Punctuation(Punctuation::LParen))
    } else if a == ')' as u8 {
        Some(TokenKind::Punctuation(Punctuation::RParen))
    } else if a == '{' as u8 {
        Some(TokenKind::Punctuation(Punctuation::LBrace))
    } else if a == '}' as u8 {
        Some(TokenKind::Punctuation(Punctuation::RBrace))
    } else if a == '[' as u8 {
        Some(TokenKind::Punctuation(Punctuation::LBracket))
    } else if a == ']' as u8 {
        Some(TokenKind::Punctuation(Punctuation::RBracket))
    } else if a == ',' as u8 {
        Some(TokenKind::Punctuation(Punctuation::Comma))
    } else if a == ';' as u8 {
        Some(TokenKind::Punctuation(Punctuation::Semicolon))
    } else if a == ':' as u8 {
        Some(TokenKind::Punctuation(Punctuation::Colon))
    } else {
        None
    }
}

/// Whether `word` is the spelling of the keyword `k`.
pub fn spells_keyword(word: &[u8], k: Keyword) -> (r: bool)
    ensures
        r == (word@ == keyword_text(k)),
{
    match k {
        Keyword::Let => {
            let t = ['l' as u8, 'e' as u8, 't' as u8];
            assert(t@ =~= keyword_text(k));
            same_bytes(word, &t)
        },
        Keyword::Mut => {
            let t = ['m' as u8, 'u' as u8, 't' as u8];
            assert(t@ =~= keyword_text(k));
            same_bytes(word, &t)
        },
        Keyword::Const => {
            let t = ['c' as u8, 'o' as u8, 'n' as u8, 's' as u8, 't' as u8];
            assert(t@ =~= keyword_text(k));
            same_bytes(word, &t)
        },
        Keyword::Static => {
            let t = ['s' as u8, 't' as u8, 'a' as u8, 't' as u8, 'i' as u8, 'c' as u8];
            assert(t@ =~= keyword_text(k));
            same_bytes(word, &t)
        },
        Keyword::Fn => {
            let t = ['f' as u8, 'n' as u8];
            assert(t@ =~= keyword_text(k));
            same_bytes(word, &t)
        },
        Keyword::Return => {
            let t = ['r' as u8, 'e' as u8, 't' as u8, 'u' as u8, 'r' as u8, 'n' as u8];
            assert(t@ =~= keyword_text(k));
            same_bytes(word, &t)
        },
        Keyword::If => {
            let t = ['i' as u8, 'f' as u8];
            assert(t@ =~= keyword_text(k));
            same_bytes(word, &t)
        },
        Keyword::Else => {
            let t = ['e' as u8, 'l' as u8, 's' as u8, 'e' as u8];
            assert(t@ =~= keyword_text(k));
            same_bytes(word, &t)
        },
        Keyword::While => {
            let t = ['w' as u8, 'h' as u8, 'i' as u8, 'l' as u8, 'e' as u8];
            assert(t@ =~= keyword_text(k));
            same_bytes(word, &t)
        },
        Keyword::For => {
            let t = ['f' as u8, 'o' as u8, 'r' as u8];
            assert(t@ =~= keyword_text(k));
            same_bytes(word, &t)
        },
        Keyword::In => {
            let t = ['i' as u8, 'n' as u8];
            assert(t@ =~= keyword_text(k));
            same_bytes(word, &t)
        },
        Keyword::Loop => {
            let t = ['l' as u8, 'o' as u8, 'o' as u8, 'p' as u8];
            assert(t@ =~= keyword_text(k));
            same_bytes(word, &t)
        },
        Keyword::Break => {
            let t = ['b' as u8, 'r' as u8, 'e' as u8, 'a' as u8, 'k' as u8];
            assert(t@ =~= keyword_text(k));
            same_bytes(word, &t)
        },
        Keyword::Continue => {
            let t = [
                'c' as u8, 'o' as u8, 'n' as u8, 't' as u8, 'i' as u8, 'n' as u8, 'u' as u8, 'e' as u8,
            ];
            assert(t@ =~= keyword_text(k));
            same_bytes(word, &t)
        },
        Keyword::Struct => {
            let t = ['s' as u8, 't' as u8, 'r' as u8, 'u' as u8, 'c' as u8, 't' as u8];
            assert(t@ =~= keyword_text(k));
            same_bytes(word, &t)
        },
        Keyword::Enum => {
            let t = ['e' as u8, 'n' as u8, 'u' as u8, 'm' as u8];
            assert(t@ =~= keyword_text(k));
            same_bytes(word, &t)
        },
        Keyword::Impl => {
            let t = ['i' as u8, 'm' as u8, 'p' as u8, 'l' as u8];
            assert(t@ =~= keyword_text(k));
            same_bytes(word, &t)
        },
        Keyword::Trait => {
            let t = ['t' as u8, 'r' as u8, 'a' as u8, 'i' as u8, 't' as u8];
            assert(t@ =~= keyword_text(k));
            same_bytes(word, &t)
        },
        Keyword::SelfValue => {
            let t = ['s' as u8, 'e' as u8, 'l' as u8, 'f' as u8];
            assert(t@ =~= keyword_text(k));
            same_bytes(word, &t)
        },
        Keyword::SelfType => {
            let t = ['S' as u8, 'e' as u8, 'l' as u8, 'f' as u8];
            assert(t@ =~= keyword_text(k));
            same_bytes(word, &t)
        },
    }
}

/// Whether `word` is the name of the print macro `m`, without its `!`.
pub fn spells_macro(word: &[u8], m: Macro) -> (r: bool)
    ensures
        r == (word@ == macro_text(m)),
{
    match m {
        Macro::Println => {
            let t = ['p' as u8, 'r' as u8, 'i' as u8, 'n' as u8, 't' as u8, 'l' as u8, 'n' as u8];
            assert(t@ =~= macro_text(m));
            same_bytes(word, &t)
        },
        Macro::Print => {
            let t = ['p' as u8, 'r' as u8, 'i' as u8, 'n' as u8, 't' as u8];
            assert(t@ =~= macro_text(m));
            same_bytes(word, &t)
        },
        Macro::Eprintln => {
            let t = [
                'e' as u8, 'p' as u8, 'r' as u8, 'i' as u8, 'n' as u8, 't' as u8, 'l' as u8, 'n' as u8,
            ];
            assert(t@ =~= macro_text(m));
            same_bytes(word, &t)
        },
        Macro::Eprint => {
            let t = ['e' as u8, 'p' as u8, 'r' as u8, 'i' as u8, 'n' as u8, 't' as u8];
            assert(t@ =~= macro_text(m));
            same_bytes(word, &t)
        },
    }
}

fn lookup_keyword(word: &[u8]) -> (found: Option<Keyword>)
    ensures
        found == find_keyword(word@, 0),
{
    let list = [
        Keyword::Let,
        Keyword::Mut,
        Keyword::Const,
        Keyword::Static,
        Keyword::Fn,
        Keyword::Return,
        Keyword::If,
        Keyword::Else,
        Keyword::While,
        Keyword::For,
        Keyword::In,
        Keyword::Loop,
        Keyword::Break,
        Keyword::Continue,
        Keyword::Struct,
        Keyword::Enum,
        Keyword::Impl,
        Keyword::Trait,
        Keyword::SelfValue,
        Keyword::SelfType,
    ];
    assert(list@ =~= keywords());
    let mut i: usize = 0;
    while i < 20
        invariant
            i <= 20,
            list@ == keywords(),
            find_keyword(word@, 0) == find_keyword(word@, i as nat),
        decreases 20 - i,
    {
        if spells_keyword(word, list[i]) {
            return Some(list[i]);
        }
        i += 1;
    }
    None
}

fn lookup_macro(word: &[u8]) -> (found: Option<Macro>)
    ensures
        found == find_macro(word@, 0),
{
    let list = [Macro::Println, Macro::Print, Macro::Eprintln, Macro::Eprint];
    assert(list@ =~= macros());
    let mut i: usize = 0;
    while i < 4
        invariant
            i <= 4,
            list@ == macros(),
            find_macro(word@, 0) == find_macro(word@, i as nat),
        decreases 4 - i,
    {
        if spells_macro(word, list[i]) {
            return Some(list[i]);
        }
        i += 1;
    }
    None
}

fn classify_word(word: &[u8]) -> (kind: TokenKind)
    ensures
        kind == word_kind(word@),
{
    if let Some(k) = lookup_keyword(word) {
        return TokenKind::Keyword(k);
    }
    let t = ['t' as u8, 'r' as u8, 'u' as u8, 'e' as u8];
    let f = ['f' as u8, 'a' as u8, 'l' as u8, 's' as u8, 'e' as u8];
    assert(t@ =~= text_true());
    assert(f@ =~= text_false());
    if same_bytes(word, &t) {
        TokenKind::BoolLiteral(true)
    } else if same_bytes(word, &f) {
        TokenKind::BoolLiteral(false)
    } else {
        TokenKind::Identifier
    }
}

/// Reads the piece that starts at byte `pos`: its kind and its length.
fn scan_piece(src: &[u8], pos: usize) -> (r: (PieceKind, usize))
    requires
        pos < src.len(),
    ensures
        piece_at(src@, pos as int) == (Piece { kind: r.0, length: r.1 as nat }),
        1 <= r.1,
        pos + r.1 <= src.len(),
{
    let b = src[pos];
    let has_next = pos + 1 < src.len();
    if b == ' ' as u8 || b == '\t' as u8 || b == '\n' as u8 || b == '\r' as u8 {
        (PieceKind::Trivia, 1)
    } else if b == '/' as u8 && has_next && src[pos + 1] == '/' as u8 {
        let n = scan_run(src, pos + 2, ByteClass::SameLine);
        (PieceKind::Trivia, 2 + n)
    } else if b == '/' as u8 && has_next && src[pos + 1] == '*' as u8 {
        let n = scan_comment(src, pos + 2);
        (PieceKind::Trivia, 2 + n)
    } else if (b >= 'a' as u8 && b <= 'z' as u8) || (b >= 'A' as u8 && b <= 'Z' as u8) || b
        == '_' as u8 {
        let n = 1 + scan_run(src, pos + 1, ByteClass::Word);
        let word = slice_subrange(src, pos, pos + n);
        let name = lookup_macro(word);
        if name.is_some() && pos + n < src.len() && src[pos + n] == '!' as u8 {
            (PieceKind::Token(TokenKind::MacroName(name.unwrap())), n + 1)
        } else {
            (PieceKind::Token(classify_word(word)), n)
        }
    } else if b >= '0' as u8 && b <= '9' as u8 {
        let n = 1 + scan_run(src, pos + 1, ByteClass::Digit);
        if src.len() - pos - n > 1 && src[pos + n] == '.' as u8 && byte_in_class(
            ByteClass::Digit,
            src[pos + n + 1],
        ) {
            let m = scan_run(src, pos + n + 1, ByteClass::Digit);
            (PieceKind::Token(TokenKind::FloatLiteral), n + 1 + m)
        } else {
            (PieceKind::Token(TokenKind::IntLiteral), n)
        }
    } else if b == '"' as u8 {
        match scan_string(src, pos + 1) {
            Some(d) => (PieceKind::Token(TokenKind::StringLiteral), d + 2),
            None => {
                let n = scan_run(src, pos + 1, ByteClass::SameLine);
                (PieceKind::Error(LexErrorKind::UnterminatedLiteral), 1 + n)
            },
        }
    } else if b == '\'' as u8 {
        match scan_char_literal(src, pos) {
            Some(n) => (PieceKind::Token(TokenKind::CharLiteral), n),
            None => {
                let n = scan_run(src, pos + 1, ByteClass::SameLine);
                (PieceKind::Error(LexErrorKind::UnterminatedLiteral), 1 + n)
            },
        }
    } else {
        let pair = if has_next {
            pair_symbol(b, src[pos + 1])
        } else {
            None
        };
        if let Some(kind) = pair {
            (PieceKind::Token(kind), 2)
        } else if let Some(kind) = single_symbol(b) {
            (PieceKind::Token(kind), 1)
        } else {
            (PieceKind::Error(LexErrorKind::InvalidCharacter), 1)
        }
    }
}

/// No byte lies on a line or in a column beyond its own place in the source.
proof fn lemma_position_bounds(src: Seq<u8>, pos: nat)
    ensures
        1 <= line_of(src, pos) <= pos + 1,
        1 <= column_of(src, pos) <= pos + 1,
    decreases pos,
{
    if pos > 0 {
        lemma_position_bounds(src, (pos - 1) as nat);
    }
}

/// Carries a line and a column forward from byte `from` to byte `to`.
fn locate(src: &[u8], from: usize, line: usize, column: usize, to: usize) -> (r: (usize, usize))
    requires
        from <= to < src.len(),
        line == line_of(src@, from as nat),
        column == column_of(src@, from as nat),
    ensures
        r.0 == line_of(src@, to as nat),
        r.1 == column_of(src@, to as nat),
{
    let mut i: usize = from;
    let mut line: usize = line;
    let mut column: usize = column;
    while i < to
        invariant
            from <= i <= to < src.len(),
            line == line_of(src@, i as nat),
            column == column_of(src@, i as nat),
        decreases to - i,
    {
        proof {
            lemma_position_bounds(src@, (i + 1) as nat);
        }
        if src[i] == '\n' as u8 {
            line += 1;
            column = 1;
        } else {
            column += 1;
        }
        i += 1;
    }
    (line, column)
}

/// Splits `source` into tokens, and records what is no token.
///
/// The tokens are those of the pieces that make up the source, in source
/// order, each with its text, its byte offset, its line and its column; the
/// errors are those of the pieces that are no token. White space and comments
/// give neither. Any source is accepted. Tokens and errors stand in source
/// order, none overlaps another, and each token holds the very bytes of the
/// source at its offset.
pub fn tokenize(source: &[u8]) -> (r: (Vec<Token>, Vec<LexError>))
    ensures
        tokens_view(r.0@) == tokens_from(source@, 0),
        lex_errors_view(r.1@) == errors_from(source@, 0),
        tokens_in_order(source@, 0, tokens_view(r.0@)),
        errors_in_order(source@, 0, lex_errors_view(r.1@)),
{
    let mut tokens: Vec<Token> = Vec::new();
    let mut errors: Vec<LexError> = Vec::new();
    let mut pos: usize = 0;
    let mut mark: usize = 0;
    let mut line: usize = 1;
    let mut column: usize = 1;
    assert(tokens_view(tokens@) + tokens_from(source@, 0) =~= tokens_from(source@, 0));
    assert(lex_errors_view(errors@) + errors_from(source@, 0) =~= errors_from(source@, 0));
    while pos < source.len()
        invariant
            mark <= pos <= source.len(),
            mark < source.len() || mark == 0,
            line == line_of(source@, mark as nat),
            column == column_of(source@, mark as nat),
            tokens_from(source@, 0) == tokens_view(tokens@) + tokens_from(source@, pos as nat),
            errors_from(source@, 0) == lex_errors_view(errors@) + errors_from(
                source@,
                pos as nat,
            ),
        decreases source.len() - pos,
    {
        let (kind, length) = scan_piece(source, pos);
        let ghost old_tokens = tokens@;
        let ghost old_errors = errors@;
        match kind {
            PieceKind::Trivia => {},
            PieceKind::Token(k) => {
                let (l, c) = locate(source, mark, line, column, pos);
                mark = pos;
                line = l;
                column = c;
                let lexeme = copy_range(source, pos, pos + length);
                tokens.push(Token { kind: k, lexeme, offset: pos, line, column });
                assert(tokens_view(tokens@) =~= tokens_view(old_tokens).push(
                    token_at(source@, pos as nat, k, length as nat),
                ));
            },
            PieceKind::Error(k) => {
                let (l, c) = locate(source, mark, line, column, pos);
                mark = pos;
                line = l;
                column = c;
                errors.push(LexError { kind: k, offset: pos, length, line, column });
                assert(lex_errors_view(errors@) =~= lex_errors_view(old_errors).push(
                    LexErrorView {
                        kind: k,
                        offset: pos as nat,
                        length: length as nat,
                        line: line as nat,
                        column: column as nat,
                    },
                ));
            },
        }
        assert(tokens_from(source@, 0) =~= tokens_view(tokens@) + tokens_from(
            source@,
            (pos + length) as nat,
        ));
        assert(errors_from(source@, 0) =~= lex_errors_view(errors@) + errors_from(
            source@,
            (pos + length) as nat,
        ));
        pos = pos + length;
    }
    assert(tokens_view(tokens@) + tokens_from(source@, pos as nat) =~= tokens_view(tokens@));
    assert(lex_errors_view(errors@) + errors_from(source@, pos as nat) =~= lex_errors_view(
        errors@,
    ));
    proof {
        law_tokens_are_source_text(source@);
        law_errors_are_in_the_source(source@);
    }
    (tokens, errors)
}

} // verus!
