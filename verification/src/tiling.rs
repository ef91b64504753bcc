//! The pieces of a source tile it: what holds of the tokens and the errors
//! of every source.

use vstd::prelude::*;
use crate::lexer::{
    column_of, comment_close, errors_from, is_space, line_of, piece_at, remaining, run_length,
    string_close, tokens_from, ByteClass, LexErrorView, PieceKind,
};
use crate::lexer::{find_keyword, in_class, keywords, word_kind};
use crate::token::{keyword_text, Keyword, TokenKind, TokenView};

verus! {

/// A run of bytes ends within the source.
proof fn lemma_run_fits(src: Seq<u8>, pos: int, class: ByteClass)
    requires
        0 <= pos <= src.len(),
    ensures
        pos + run_length(src, pos, class) <= src.len(),
    decreases src.len() - pos,
{
    if pos < src.len() && crate::lexer::in_class(class, src[pos]) {
        lemma_run_fits(src, pos + 1, class);
    }
}

/// Maximal munch. A run takes every byte of its class from its start on,
/// and stops only at the end of the source or before a byte that is not of
/// the class: no longer run starts at the same byte.
pub proof fn law_runs_are_maximal(src: Seq<u8>, pos: int, class: ByteClass)
    requires
        0 <= pos <= src.len(),
    ensures
        ({
            let n = run_length(src, pos, class);
            &&& forall|i: int| pos <= i < pos + n ==> in_class(class, #[trigger] src[i])
            &&& (pos + n == src.len() || !in_class(class, src[pos + n]))
        }),
    decreases src.len() - pos,
{
    if pos < src.len() && in_class(class, src[pos]) {
        law_runs_are_maximal(src, pos + 1, class);
    }
}

/// The spellings of two keywords differ.
proof fn lemma_keyword_spellings_differ(a: Keyword, b: Keyword)
    requires
        a != b,
    ensures
        keyword_text(a) != keyword_text(b),
{
    let s = keyword_text(a);
    let t = keyword_text(b);
    if s.len() == t.len() {
        assert(s[0] != t[0] || s[1] != t[1] || (s.len() > 2 && s[2] != t[2]));
    }
}

proof fn lemma_find_keyword(word: Seq<u8>, from: nat)
    requires
        from <= keywords().len(),
    ensures
        match find_keyword(word, from) {
            Some(k) => keyword_text(k) == word,
            None => forall|i: int|
                from <= i < keywords().len() ==> keyword_text(#[trigger] keywords()[i]) != word,
        },
    decreases keywords().len() - from,
{
    if from < keywords().len() && keyword_text(keywords()[from as int]) != word {
        lemma_find_keyword(word, from + 1);
    }
}

/// Every keyword stands in the list that words are held against.
proof fn lemma_keywords_are_listed(k: Keyword)
    ensures
        exists|i: int| 0 <= i < keywords().len() && keywords()[i] == k,
{
    let i: int = match k {
        Keyword::Let => 0,
        Keyword::Mut => 1,
        Keyword::Const => 2,
        Keyword::Static => 3,
        Keyword::Fn => 4,
        Keyword::Return => 5,
        Keyword::If => 6,
        Keyword::Else => 7,
        Keyword::While => 8,
        Keyword::For => 9,
        Keyword::In => 10,
        Keyword::Loop => 11,
        Keyword::Break => 12,
        Keyword::Continue => 13,
        Keyword::Struct => 14,
        Keyword::Enum => 15,
        Keyword::Impl => 16,
        Keyword::Trait => 17,
        Keyword::SelfValue => 18,
        Keyword::SelfType => 19,
    };
    assert(keywords()[i] == k);
}

/// Keywords are found by exact match: a word is the keyword `k` if and only
/// if it is spelt exactly like `k`. A longer or shorter word is no keyword.
pub proof fn law_keywords_match_exactly(word: Seq<u8>, k: Keyword)
    ensures
        word_kind(word) == TokenKind::Keyword(k) <==> word == keyword_text(k),
{
    lemma_find_keyword(word, 0);
    if word == keyword_text(k) {
        lemma_keywords_are_listed(k);
        match find_keyword(word, 0) {
            Some(found) => {
                if found != k {
                    lemma_keyword_spellings_differ(found, k);
                }
            },
            None => {},
        }
    }
}

/// The quote that closes a string literal lies within the source.
proof fn lemma_string_fits(src: Seq<u8>, pos: int)
    requires
        0 <= pos,
    ensures
        string_close(src, pos) matches Some(d) ==> pos + d < src.len(),
    decreases src.len() - pos,
{
    if pos < src.len() && src[pos] != '\n' as u8 && src[pos] != '"' as u8 {
        if src[pos] == '\\' as u8 && pos + 1 < src.len() && src[pos + 1] != '\n' as u8 {
            lemma_string_fits(src, pos + 2);
        } else {
            lemma_string_fits(src, pos + 1);
        }
    }
}

/// A block comment ends within the source.
proof fn lemma_comment_fits(src: Seq<u8>, pos: int)
    requires
        0 <= pos <= src.len(),
    ensures
        pos + comment_close(src, pos) <= src.len(),
    decreases src.len() - pos,
{
    if pos < src.len() && !(src[pos] == '*' as u8 && pos + 1 < src.len() && src[pos + 1]
        == '/' as u8) {
        lemma_comment_fits(src, pos + 1);
    }
}

/// Every piece covers at least one byte and ends within the source.
proof fn lemma_piece_fits(src: Seq<u8>, pos: nat)
    requires
        pos < src.len(),
    ensures
        1 <= piece_at(src, pos as int).length,
        pos + piece_at(src, pos as int).length <= src.len(),
{
    let p = pos as int;
    lemma_run_fits(src, p + 1, ByteClass::Word);
    lemma_run_fits(src, p + 1, ByteClass::Digit);
    lemma_run_fits(src, p + 1, ByteClass::SameLine);
    lemma_run_fits(src, p + 1, ByteClass::High);
    lemma_string_fits(src, p + 1);
    if p + 2 <= src.len() {
        lemma_run_fits(src, p + 2, ByteClass::SameLine);
        lemma_comment_fits(src, p + 2);
    }
    let n = 1 + run_length(src, p + 1, ByteClass::Digit);
    if p + n + 1 < src.len() {
        lemma_run_fits(src, p + n + 1, ByteClass::Digit);
    }
}

/// No piece is a token of the kind reserved for documentation comments.
proof fn lemma_no_doc_comment(src: Seq<u8>, pos: nat)
    requires
        pos < src.len(),
    ensures
        piece_at(src, pos as int).kind != PieceKind::Token(TokenKind::DocComment),
{
}

/// What holds of one token of `src`: it lies within the source from byte
/// `from` on, its text is the source text at its offset, its line and column
/// are those of its offset, and it is no documentation comment.
pub open spec fn token_in_place(src: Seq<u8>, from: nat, t: TokenView) -> bool {
    &&& from <= t.offset
    &&& 1 <= t.lexeme.len()
    &&& t.offset + t.lexeme.len() <= src.len()
    &&& t.lexeme == src.subrange(t.offset as int, (t.offset + t.lexeme.len()) as int)
    &&& t.line == line_of(src, t.offset)
    &&& t.column == column_of(src, t.offset)
    &&& t.kind != TokenKind::DocComment
}

/// What holds of a row of tokens of `src`: each is in its place, and each
/// starts where the one before it has ended, or later.
pub open spec fn tokens_in_order(src: Seq<u8>, from: nat, ts: Seq<TokenView>) -> bool {
    &&& forall|i: int| 0 <= i < ts.len() ==> token_in_place(src, from, #[trigger] ts[i])
    &&& forall|i: int, j: int|
        0 <= i < j < ts.len() ==> (#[trigger] ts[i]).offset + ts[i].lexeme.len() <= (
        #[trigger] ts[j]).offset
}

proof fn lemma_tokens_in_order(src: Seq<u8>, pos: nat)
    ensures
        tokens_in_order(src, pos, tokens_from(src, pos)),
    decreases remaining(src, pos),
{
    if pos < src.len() {
        let piece = piece_at(src, pos as int);
        lemma_piece_fits(src, pos);
        lemma_no_doc_comment(src, pos);
        let next = pos + piece.length;
        lemma_tokens_in_order(src, next);
        let rest = tokens_from(src, next);
        let all = tokens_from(src, pos);
        match piece.kind {
            PieceKind::Token(kind) => {
                let first = crate::lexer::token_at(src, pos, kind, piece.length);
                assert(all =~= seq![first] + rest);
                assert(token_in_place(src, pos, first));
                assert forall|i: int| 0 <= i < all.len() implies token_in_place(
                    src,
                    pos,
                    #[trigger] all[i],
                ) by {
                    if i > 0 {
                        assert(all[i] == rest[i - 1]);
                        assert(token_in_place(src, next, rest[i - 1]));
                    }
                }
                assert forall|i: int, j: int| 0 <= i < j < all.len() implies (#[trigger] all[i]).offset
                    + all[i].lexeme.len() <= (#[trigger] all[j]).offset by {
                    assert(all[j] == rest[j - 1]);
                    assert(token_in_place(src, next, rest[j - 1]));
                    if i > 0 {
                        assert(all[i] == rest[i - 1]);
                    }
                }
            },
            _ => {
                assert(all == rest);
                assert forall|i: int| 0 <= i < all.len() implies token_in_place(
                    src,
                    pos,
                    #[trigger] all[i],
                ) by {
                    assert(token_in_place(src, next, rest[i]));
                }
            },
        }
    }
}

/// The tokens of a source are its own text. Each token holds the bytes of
/// the source from its offset on, at least one; its line and column are those
/// of its offset; none is a documentation comment; and the tokens stand in
/// source order without overlap. So the lexemes, written one after the other,
/// are the source without its white space, its comments and the bytes that
/// are reported as errors.
pub proof fn law_tokens_are_source_text(src: Seq<u8>)
    ensures
        tokens_in_order(src, 0, tokens_from(src, 0)),
{
    lemma_tokens_in_order(src, 0);
}

/// What holds of one lexical error of `src`: it covers bytes of the source
/// from byte `from` on, at least one, and its line and column are those of
/// its offset.
pub open spec fn error_in_place(src: Seq<u8>, from: nat, e: LexErrorView) -> bool {
    &&& from <= e.offset
    &&& 1 <= e.length
    &&& e.offset + e.length <= src.len()
    &&& e.line == line_of(src, e.offset)
    &&& e.column == column_of(src, e.offset)
}

/// What holds of a row of lexical errors of `src`: each is in its place, and
/// each starts where the one before it has ended, or later.
pub open spec fn errors_in_order(src: Seq<u8>, from: nat, es: Seq<LexErrorView>) -> bool {
    &&& forall|i: int| 0 <= i < es.len() ==> error_in_place(src, from, #[trigger] es[i])
    &&& forall|i: int, j: int|
        0 <= i < j < es.len() ==> (#[trigger] es[i]).offset + es[i].length <= (
        #[trigger] es[j]).offset
}

proof fn lemma_errors_in_order(src: Seq<u8>, pos: nat)
    ensures
        errors_in_order(src, pos, errors_from(src, pos)),
    decreases remaining(src, pos),
{
    if pos < src.len() {
        let piece = piece_at(src, pos as int);
        lemma_piece_fits(src, pos);
        let next = pos + piece.length;
        lemma_errors_in_order(src, next);
        let rest = errors_from(src, next);
        let all = errors_from(src, pos);
        match piece.kind {
            PieceKind::Error(kind) => {
                let first = LexErrorView {
                    kind,
                    offset: pos,
                    length: piece.length,
                    line: line_of(src, pos),
                    column: column_of(src, pos),
                };
                assert(all =~= seq![first] + rest);
                assert forall|i: int| 0 <= i < all.len() implies error_in_place(
                    src,
                    pos,
                    #[trigger] all[i],
                ) by {
                    if i > 0 {
                        assert(all[i] == rest[i - 1]);
                        assert(error_in_place(src, next, rest[i - 1]));
                    }
                }
                assert forall|i: int, j: int| 0 <= i < j < all.len() implies (#[trigger] all[i]).offset
                    + all[i].length <= (#[trigger] all[j]).offset by {
                    assert(all[j] == rest[j - 1]);
                    assert(error_in_place(src, next, rest[j - 1]));
                    if i > 0 {
                        assert(all[i] == rest[i - 1]);
                    }
                }
            },
            _ => {
                assert(all == rest);
                assert forall|i: int| 0 <= i < all.len() implies error_in_place(
                    src,
                    pos,
                    #[trigger] all[i],
                ) by {
                    assert(error_in_place(src, next, rest[i]));
                }
            },
        }
    }
}

/// The lexical errors of a source cover bytes of it, in source order and
/// without overlap.
pub proof fn law_errors_are_in_the_source(src: Seq<u8>)
    ensures
        errors_in_order(src, 0, errors_from(src, 0)),
{
    lemma_errors_in_order(src, 0);
}

/// The start of the piece that holds byte `k`, where a piece starts at byte
/// `from` and `from <= k`.
pub open spec fn piece_start_from(src: Seq<u8>, from: nat, k: nat) -> nat
    decreases remaining(src, from),
{
    if from >= src.len() || k < from + piece_at(src, from as int).length || piece_at(
        src,
        from as int,
    ).length == 0 {
        from
    } else {
        piece_start_from(src, from + piece_at(src, from as int).length, k)
    }
}

/// The start of the piece that holds byte `k`.
pub open spec fn piece_start(src: Seq<u8>, k: nat) -> nat {
    piece_start_from(src, 0, k)
}

/// Whether white space or a comment starts at byte `pos`.
pub open spec fn trivia_starts(src: Seq<u8>, pos: int) -> bool {
    ||| is_space(src[pos])
    ||| (src[pos] == '/' as u8 && pos + 1 < src.len() && (src[pos + 1] == '/' as u8 || src[pos + 1]
        == '*' as u8))
}

/// Whether the piece that starts at byte `s` is accounted for among the
/// tokens `ts` and the errors `es`: a token piece is one of the tokens, an
/// error piece is one of the errors, and any other piece is white space or a
/// comment.
pub open spec fn accounted(
    src: Seq<u8>,
    s: nat,
    ts: Seq<TokenView>,
    es: Seq<LexErrorView>,
) -> bool {
    let piece = piece_at(src, s as int);
    match piece.kind {
        PieceKind::Token(kind) => ts.contains(crate::lexer::token_at(src, s, kind, piece.length)),
        PieceKind::Error(kind) => es.contains(
            LexErrorView {
                kind,
                offset: s,
                length: piece.length,
                line: line_of(src, s),
                column: column_of(src, s),
            },
        ),
        PieceKind::Trivia => trivia_starts(src, s as int),
    }
}

proof fn lemma_accounted_from(src: Seq<u8>, from: nat, k: nat)
    requires
        from <= k < src.len(),
    ensures
        ({
            let s = piece_start_from(src, from, k);
            &&& from <= s <= k < s + piece_at(src, s as int).length
            &&& s + piece_at(src, s as int).length <= src.len()
            &&& accounted(src, s, tokens_from(src, from), errors_from(src, from))
        }),
    decreases remaining(src, from),
{
    let piece = piece_at(src, from as int);
    lemma_piece_fits(src, from);
    let next = from + piece.length;
    let ts = tokens_from(src, from);
    let es = errors_from(src, from);
    if k < next {
        match piece.kind {
            PieceKind::Token(kind) => {
                assert(ts[0] == crate::lexer::token_at(src, from, kind, piece.length));
            },
            PieceKind::Error(kind) => {
                assert(es[0].offset == from);
            },
            PieceKind::Trivia => {},
        }
    } else {
        lemma_accounted_from(src, next, k);
        let s = piece_start_from(src, next, k);
        let found = piece_at(src, s as int);
        let rest_ts = tokens_from(src, next);
        let rest_es = errors_from(src, next);
        match found.kind {
            PieceKind::Token(kind) => {
                let t = crate::lexer::token_at(src, s, kind, found.length);
                let i = choose|i: int| 0 <= i < rest_ts.len() && rest_ts[i] == t;
                if piece.kind is Token {
                    assert(ts[i + 1] == t);
                } else {
                    assert(ts[i] == t);
                }
            },
            PieceKind::Error(kind) => {
                let e = LexErrorView {
                    kind,
                    offset: s,
                    length: found.length,
                    line: line_of(src, s),
                    column: column_of(src, s),
                };
                let i = choose|i: int| 0 <= i < rest_es.len() && rest_es[i] == e;
                if piece.kind is Error {
                    assert(es[i + 1] == e);
                } else {
                    assert(es[i] == e);
                }
            },
            PieceKind::Trivia => {},
        }
    }
}

/// No byte of the source is dropped. Every byte lies in one piece; that
/// piece lies within the source; and it is one of the tokens, or one of the
/// lexical errors, or white space or a comment.
pub proof fn law_every_byte_is_accounted_for(src: Seq<u8>, k: nat)
    requires
        k < src.len(),
    ensures
        ({
            let s = piece_start(src, k);
            &&& s <= k < s + piece_at(src, s as int).length
            &&& s + piece_at(src, s as int).length <= src.len()
            &&& accounted(src, s, tokens_from(src, 0), errors_from(src, 0))
        }),
{
    lemma_accounted_from(src, 0, k);
}

} // verus!
