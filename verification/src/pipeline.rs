//! The three stages in a row: source text in, diagnostics out.

use vstd::prelude::*;
use crate::ast::ProgramView;
use crate::checker::analyze;
use crate::diagnostics::{semantic_errors_view, SemanticError, SemanticErrorView};
use crate::grammar::{parse_program, syntax_errors, SyntaxError};
use crate::lexer::{errors_from, lex_errors_view, tokenize, tokens_from, LexError, LexErrorView};
use crate::parser::parse;
use crate::text::copy_bytes;
use crate::token::{Position, TokenView};
use crate::types::clone_type;

verus! {

/// The stage that reports a diagnostic.
#[derive(Clone, Copy, Debug, PartialEq, Eq, Structural)]
pub enum Stage {
    Lexical,
    Syntax,
    Semantic,
}

/// A diagnostic of any stage.
#[derive(Debug, PartialEq, Eq)]
pub enum Diagnostic {
    Lexical(LexError),
    Syntax(SyntaxError),
    Semantic(SemanticError),
}

/// The mathematical value of a [`Diagnostic`].
pub enum DiagnosticView {
    Lexical(LexErrorView),
    Syntax(SyntaxError),
    Semantic(SemanticErrorView),
}

impl View for Diagnostic {
    type V = DiagnosticView;

    open spec fn view(&self) -> DiagnosticView {
        match *self {
            Diagnostic::Lexical(e) => DiagnosticView::Lexical(e@),
            Diagnostic::Syntax(e) => DiagnosticView::Syntax(e),
            Diagnostic::Semantic(e) => DiagnosticView::Semantic(e@),
        }
    }
}

impl DiagnosticView {
    /// The stage that reported the diagnostic.
    pub open spec fn stage(self) -> Stage {
        match self {
            DiagnosticView::Lexical(_) => Stage::Lexical,
            DiagnosticView::Syntax(_) => Stage::Syntax,
            DiagnosticView::Semantic(_) => Stage::Semantic,
        }
    }
}

impl DiagnosticView {
    /// Where the diagnostic points: the start of the bytes at fault, of the
    /// token at fault, or of the expression at fault.
    pub open spec fn position(self) -> Position {
        match self {
            DiagnosticView::Lexical(e) => Position {
                line: e.line as usize,
                column: e.column as usize,
            },
            DiagnosticView::Syntax(e) => e.pos,
            DiagnosticView::Semantic(e) => e.position(),
        }
    }
}

impl Diagnostic {
    /// The stage that reported the diagnostic.
    pub fn stage(&self) -> (s: Stage)
        ensures
            s == self@.stage(),
    {
        match self {
            Diagnostic::Lexical(_) => Stage::Lexical,
            Diagnostic::Syntax(_) => Stage::Syntax,
            Diagnostic::Semantic(_) => Stage::Semantic,
        }
    }

    /// Where the diagnostic points.
    pub fn position(&self) -> (p: Position)
        ensures
            p == self@.position(),
    {
        match self {
            Diagnostic::Lexical(e) => Position { line: e.line, column: e.column },
            Diagnostic::Syntax(e) => e.pos,
            Diagnostic::Semantic(e) => e.position(),
        }
    }
}

/// The values of a row of diagnostics, in order.
pub open spec fn diagnostics_view(ds: Seq<Diagnostic>) -> Seq<DiagnosticView> {
    Seq::new(ds.len(), |i: int| ds[i]@)
}

/// A row of lexical errors as diagnostics.
pub open spec fn lexical_part(errors: Seq<LexErrorView>) -> Seq<DiagnosticView> {
    Seq::new(errors.len(), |i: int| DiagnosticView::Lexical(errors[i]))
}

/// A row of syntax errors as diagnostics.
pub open spec fn syntax_part(errors: Seq<SyntaxError>) -> Seq<DiagnosticView> {
    Seq::new(errors.len(), |i: int| DiagnosticView::Syntax(errors[i]))
}

/// A row of semantic errors as diagnostics.
pub open spec fn semantic_part(errors: Seq<SemanticErrorView>) -> Seq<DiagnosticView> {
    Seq::new(errors.len(), |i: int| DiagnosticView::Semantic(errors[i]))
}

/// The tokens of a source text.
pub open spec fn tokens_of(source: Seq<u8>) -> Seq<TokenView> {
    tokens_from(source, 0)
}

/// The program that a source text writes.
pub open spec fn program_of(source: Seq<u8>) -> ProgramView {
    parse_program(tokens_of(source))
}

/// The diagnostics of a source text: the lexical errors, then the syntax
/// errors of its tokens, then the semantic errors of the program read from
/// them. Every stage runs, whatever the stage before it reported.
pub open spec fn diagnostics_of(source: Seq<u8>) -> Seq<DiagnosticView> {
    lexical_part(errors_from(source, 0)) + syntax_part(syntax_errors(tokens_of(source)))
        + semantic_part(crate::rules::analysis(program_of(source)))
}

/// A copy of a semantic error.
pub fn clone_error(error: &SemanticError) -> (copy: SemanticError)
    ensures
        copy@ == error@,
{
    match error {
        SemanticError::UndefinedIdentifier { name, pos } => SemanticError::UndefinedIdentifier {
            name: copy_bytes(name),
            pos: *pos,
        },
        SemanticError::TypeMismatch { expected, found, pos } => SemanticError::TypeMismatch {
            expected: clone_type(expected),
            found: clone_type(found),
            pos: *pos,
        },
        SemanticError::ImmutableAssignment { name, pos } => SemanticError::ImmutableAssignment {
            name: copy_bytes(name),
            pos: *pos,
        },
        SemanticError::UninitializedUse { name, pos } => SemanticError::UninitializedUse {
            name: copy_bytes(name),
            pos: *pos,
        },
        SemanticError::InvalidArraySize { pos } => SemanticError::InvalidArraySize { pos: *pos },
    }
}

fn report_lexical(out: &mut Vec<Diagnostic>, errors: &Vec<LexError>)
    ensures
        diagnostics_view(final(out)@) =~= diagnostics_view(old(out)@) + lexical_part(
            lex_errors_view(errors@),
        ),
{
    let mut i: usize = 0;
    while i < errors.len()
        invariant
            i <= errors.len(),
            out@.len() == old(out)@.len() + i,
            forall|j: int| 0 <= j < old(out)@.len() ==> (#[trigger] out@[j])@ == old(out)@[j]@,
            forall|j: int|
                0 <= j < i ==> (#[trigger] out@[old(out)@.len() + j])@ == DiagnosticView::Lexical(
                    errors@[j]@,
                ),
        decreases errors.len() - i,
    {
        out.push(Diagnostic::Lexical(errors[i]));
        i += 1;
    }
    assert forall|k: int| 0 <= k < out@.len() implies diagnostics_view(out@)[k] == (
    diagnostics_view(old(out)@) + lexical_part(lex_errors_view(errors@)))[k] by {
        if k >= old(out)@.len() {
            let j = k - old(out)@.len();
            assert(out@[old(out)@.len() + j] == out@[k]);
        }
    }
}

fn report_syntax(out: &mut Vec<Diagnostic>, errors: &Vec<SyntaxError>)
    ensures
        diagnostics_view(final(out)@) =~= diagnostics_view(old(out)@) + syntax_part(errors@),
{
    let mut i: usize = 0;
    while i < errors.len()
        invariant
            i <= errors.len(),
            out@.len() == old(out)@.len() + i,
            forall|j: int| 0 <= j < old(out)@.len() ==> (#[trigger] out@[j])@ == old(out)@[j]@,
            forall|j: int|
                0 <= j < i ==> (#[trigger] out@[old(out)@.len() + j])@ == DiagnosticView::Syntax(
                    errors@[j],
                ),
        decreases errors.len() - i,
    {
        out.push(Diagnostic::Syntax(errors[i]));
        i += 1;
    }
    assert forall|k: int| 0 <= k < out@.len() implies diagnostics_view(out@)[k] == (
    diagnostics_view(old(out)@) + syntax_part(errors@))[k] by {
        if k >= old(out)@.len() {
            let j = k - old(out)@.len();
            assert(out@[old(out)@.len() + j] == out@[k]);
        }
    }
}

fn report_semantic(out: &mut Vec<Diagnostic>, errors: &Vec<SemanticError>)
    ensures
        diagnostics_view(final(out)@) =~= diagnostics_view(old(out)@) + semantic_part(
            semantic_errors_view(errors@),
        ),
{
    let mut i: usize = 0;
    while i < errors.len()
        invariant
            i <= errors.len(),
            out@.len() == old(out)@.len() + i,
            forall|j: int| 0 <= j < old(out)@.len() ==> (#[trigger] out@[j])@ == old(out)@[j]@,
            forall|j: int|
                0 <= j < i ==> (#[trigger] out@[old(out)@.len() + j])@ == DiagnosticView::Semantic(
                    errors@[j]@,
                ),
        decreases errors.len() - i,
    {
        out.push(Diagnostic::Semantic(clone_error(&errors[i])));
        i += 1;
    }
    assert forall|k: int| 0 <= k < out@.len() implies diagnostics_view(out@)[k] == (
    diagnostics_view(old(out)@) + semantic_part(semantic_errors_view(errors@)))[k] by {
        if k >= old(out)@.len() {
            let j = k - old(out)@.len();
            assert(out@[old(out)@.len() + j] == out@[k]);
        }
    }
}

/// Runs the lexer, the parser and the semantic checker on `source`, and
/// returns what they report: the lexical errors first, then the syntax errors,
/// then the semantic errors, each group in its own order.
pub fn check_source(source: &[u8]) -> (diagnostics: Vec<Diagnostic>)
    ensures
        diagnostics_view(diagnostics@) == diagnostics_of(source@),
{
    let (tokens, lexical) = tokenize(source);
    let (program, syntax) = parse(&tokens);
    let semantic = analyze(&program);
    let mut out: Vec<Diagnostic> = Vec::new();
    assert(diagnostics_view(out@) =~= Seq::empty());
    report_lexical(&mut out, &lexical);
    report_syntax(&mut out, &syntax);
    report_semantic(&mut out, &semantic);
    assert(diagnostics_view(out@) =~= diagnostics_of(source@));
    out
}

} // verus!
