//! Tokens: the vocabulary that the lexer emits and the parser consumes.

use vstd::prelude::*;

verus! {

/// The reserved words of the language, `true` and `false` excepted:
/// those two are boolean literals.
#[derive(Clone, Copy, Debug, PartialEq, Eq, Structural)]
pub enum Keyword {
    Let,
    Mut,
    Const,
    Static,
    Fn,
    Return,
    If,
    Else,
    While,
    For,
    In,
    Loop,
    Break,
    Continue,
    Struct,
    Enum,
    Impl,
    Trait,
    SelfValue,
    SelfType,
}

/// Operators. The longest spelling wins: `+=` is one token, never `+` and `=`.
#[derive(Clone, Copy, Debug, PartialEq, Eq, Structural)]
pub enum Operator {
    Plus,
    Minus,
    Star,
    Slash,
    Percent,
    EqEq,
    NotEq,
    Less,
    LessEq,
    Greater,
    GreaterEq,
    AndAnd,
    OrOr,
    Not,
    Assign,
    PlusAssign,
    MinusAssign,
    StarAssign,
    SlashAssign,
    Amp,
    Pipe,
    Dot,
    DotDot,
    PathSep,
}

/// Brackets and separators.
#[derive(Clone, Copy, Debug, PartialEq, Eq, Structural)]
pub enum Punctuation {
    LParen,
    RParen,
    LBrace,
    RBrace,
    LBracket,
    RBracket,
    Comma,
    Semicolon,
    Colon,
    Arrow,
}

/// The print family: an identifier and the `!` that follows it form one token.
#[derive(Clone, Copy, Debug, PartialEq, Eq, Structural)]
pub enum Macro {
    Println,
    Print,
    Eprintln,
    Eprint,
}

/// What a token is.
#[derive(Clone, Copy, Debug, PartialEq, Eq, Structural)]
pub enum TokenKind {
    Keyword(Keyword),
    Identifier,
    IntLiteral,
    FloatLiteral,
    StringLiteral,
    CharLiteral,
    BoolLiteral(bool),
    Operator(Operator),
    Punctuation(Punctuation),
    MacroName(Macro),
    /// Reserved for documentation comments. The lexer recognises them and,
    /// as with every comment, emits nothing for them.
    DocComment,
}

/// One token: what it is, its raw text, and where that text starts.
/// `offset` counts bytes from the start of the source; `line` and `column`
/// count from 1.
#[derive(Clone, Debug, PartialEq, Eq)]
pub struct Token {
    pub kind: TokenKind,
    pub lexeme: Vec<u8>,
    pub offset: usize,
    pub line: usize,
    pub column: usize,
}

/// The mathematical value of a [`Token`].
pub struct TokenView {
    pub kind: TokenKind,
    pub lexeme: Seq<u8>,
    pub offset: nat,
    pub line: nat,
    pub column: nat,
}

impl View for Token {
    type V = TokenView;

    open spec fn view(&self) -> TokenView {
        TokenView {
            kind: self.kind,
            lexeme: self.lexeme@,
            offset: self.offset as nat,
            line: self.line as nat,
            column: self.column as nat,
        }
    }
}

/// The values of a run of tokens, in order.
pub open spec fn tokens_view(tokens: Seq<Token>) -> Seq<TokenView> {
    Seq::new(tokens.len(), |i: int| tokens[i]@)
}

/// A line and a column, both counted from 1.
#[derive(Clone, Copy, Debug, PartialEq, Eq, Structural)]
pub struct Position {
    pub line: usize,
    pub column: usize,
}

impl Token {
    /// Where the token starts.
    pub fn position(&self) -> (p: Position)
        ensures
            p.line == self.line,
            p.column == self.column,
    {
        Position { line: self.line, column: self.column }
    }
}

/// The spelling of a keyword.
pub open spec fn keyword_text(k: Keyword) -> Seq<u8> {
    match k {
        Keyword::Let => seq!['l' as u8, 'e' as u8, 't' as u8],
        Keyword::Mut => seq!['m' as u8, 'u' as u8, 't' as u8],
        Keyword::Const => seq!['c' as u8, 'o' as u8, 'n' as u8, 's' as u8, 't' as u8],
        Keyword::Static => seq!['s' as u8, 't' as u8, 'a' as u8, 't' as u8, 'i' as u8, 'c' as u8],
        Keyword::Fn => seq!['f' as u8, 'n' as u8],
        Keyword::Return => seq!['r' as u8, 'e' as u8, 't' as u8, 'u' as u8, 'r' as u8, 'n' as u8],
        Keyword::If => seq!['i' as u8, 'f' as u8],
        Keyword::Else => seq!['e' as u8, 'l' as u8, 's' as u8, 'e' as u8],
        Keyword::While => seq!['w' as u8, 'h' as u8, 'i' as u8, 'l' as u8, 'e' as u8],
        Keyword::For => seq!['f' as u8, 'o' as u8, 'r' as u8],
        Keyword::In => seq!['i' as u8, 'n' as u8],
        Keyword::Loop => seq!['l' as u8, 'o' as u8, 'o' as u8, 'p' as u8],
        Keyword::Break => seq!['b' as u8, 'r' as u8, 'e' as u8, 'a' as u8, 'k' as u8],
        Keyword::Continue => seq![
            'c' as u8, 'o' as u8, 'n' as u8, 't' as u8, 'i' as u8, 'n' as u8, 'u' as u8, 'e' as u8,
        ],
        Keyword::Struct => seq!['s' as u8, 't' as u8, 'r' as u8, 'u' as u8, 'c' as u8, 't' as u8],
        Keyword::Enum => seq!['e' as u8, 'n' as u8, 'u' as u8, 'm' as u8],
        Keyword::Impl => seq!['i' as u8, 'm' as u8, 'p' as u8, 'l' as u8],
        Keyword::Trait => seq!['t' as u8, 'r' as u8, 'a' as u8, 'i' as u8, 't' as u8],
        Keyword::SelfValue => seq!['s' as u8, 'e' as u8, 'l' as u8, 'f' as u8],
        Keyword::SelfType => seq!['S' as u8, 'e' as u8, 'l' as u8, 'f' as u8],
    }
}

/// The spelling of a print macro's name, without its `!`.
pub open spec fn macro_text(m: Macro) -> Seq<u8> {
    match m {
        Macro::Println => seq![
            'p' as u8, 'r' as u8, 'i' as u8, 'n' as u8, 't' as u8, 'l' as u8, 'n' as u8,
        ],
        Macro::Print => seq!['p' as u8, 'r' as u8, 'i' as u8, 'n' as u8, 't' as u8],
        Macro::Eprintln => seq![
            'e' as u8, 'p' as u8, 'r' as u8, 'i' as u8, 'n' as u8, 't' as u8, 'l' as u8, 'n' as u8,
        ],
        Macro::Eprint => seq!['e' as u8, 'p' as u8, 'r' as u8, 'i' as u8, 'n' as u8, 't' as u8],
    }
}

/// The spelling of `true`.
pub open spec fn text_true() -> Seq<u8> {
    seq!['t' as u8, 'r' as u8, 'u' as u8, 'e' as u8]
}

/// The spelling of `false`.
pub open spec fn text_false() -> Seq<u8> {
    seq!['f' as u8, 'a' as u8, 'l' as u8, 's' as u8, 'e' as u8]
}

} // verus!
