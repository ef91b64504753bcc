//! What the semantic checker reports.

use vstd::prelude::*;
use crate::token::Position;
use crate::types::{type_view, Type, TypeView};

verus! {

/// The kinds of semantic error.
#[derive(Clone, Copy, Debug, PartialEq, Eq, Structural)]
pub enum SemanticErrorKind {
    UndefinedIdentifier,
    TypeMismatch,
    ImmutableAssignment,
    UninitializedUse,
    InvalidArraySize,
}

/// A semantic error, with what a message about it needs and the place of
/// the expression at fault.
#[derive(Debug, PartialEq, Eq)]
pub enum SemanticError {
    /// `name` is used and no open scope declares it.
    UndefinedIdentifier { name: Vec<u8>, pos: Position },
    /// A value of type `found` stands where `expected` is required.
    TypeMismatch { expected: Type, found: Type, pos: Position },
    /// `name` is assigned to and is not mutable.
    ImmutableAssignment { name: Vec<u8>, pos: Position },
    /// `name` is read before anything was assigned to it.
    UninitializedUse { name: Vec<u8>, pos: Position },
    /// The size of `[value; size]` is no integer constant.
    InvalidArraySize { pos: Position },
}

/// The mathematical value of a [`SemanticError`].
pub enum SemanticErrorView {
    UndefinedIdentifier { name: Seq<u8>, pos: Position },
    TypeMismatch { expected: TypeView, found: TypeView, pos: Position },
    ImmutableAssignment { name: Seq<u8>, pos: Position },
    UninitializedUse { name: Seq<u8>, pos: Position },
    InvalidArraySize { pos: Position },
}

impl View for SemanticError {
    type V = SemanticErrorView;

    open spec fn view(&self) -> SemanticErrorView {
        match *self {
            SemanticError::UndefinedIdentifier { name, pos } => SemanticErrorView::UndefinedIdentifier {
                name: name@,
                pos,
            },
            SemanticError::TypeMismatch { expected, found, pos } => SemanticErrorView::TypeMismatch {
                expected: type_view(expected),
                found: type_view(found),
                pos,
            },
            SemanticError::ImmutableAssignment { name, pos } => SemanticErrorView::ImmutableAssignment {
                name: name@,
                pos,
            },
            SemanticError::UninitializedUse { name, pos } => SemanticErrorView::UninitializedUse {
                name: name@,
                pos,
            },
            SemanticError::InvalidArraySize { pos } => SemanticErrorView::InvalidArraySize { pos },
        }
    }
}

impl SemanticErrorView {
    /// The kind of the error.
    pub open spec fn kind(self) -> SemanticErrorKind {
        match self {
            SemanticErrorView::UndefinedIdentifier { .. } => SemanticErrorKind::UndefinedIdentifier,
            SemanticErrorView::TypeMismatch { .. } => SemanticErrorKind::TypeMismatch,
            SemanticErrorView::ImmutableAssignment { .. } => SemanticErrorKind::ImmutableAssignment,
            SemanticErrorView::UninitializedUse { .. } => SemanticErrorKind::UninitializedUse,
            SemanticErrorView::InvalidArraySize { .. } => SemanticErrorKind::InvalidArraySize,
        }
    }
}

impl SemanticErrorView {
    /// The place of the expression at fault.
    pub open spec fn position(self) -> Position {
        match self {
            SemanticErrorView::UndefinedIdentifier { pos, .. } => pos,
            SemanticErrorView::TypeMismatch { pos, .. } => pos,
            SemanticErrorView::ImmutableAssignment { pos, .. } => pos,
            SemanticErrorView::UninitializedUse { pos, .. } => pos,
            SemanticErrorView::InvalidArraySize { pos } => pos,
        }
    }
}

impl SemanticError {
    /// The kind of the error.
    pub fn kind(&self) -> (k: SemanticErrorKind)
        ensures
            k == self@.kind(),
    {
        match self {
            SemanticError::UndefinedIdentifier { .. } => SemanticErrorKind::UndefinedIdentifier,
            SemanticError::TypeMismatch { .. } => SemanticErrorKind::TypeMismatch,
            SemanticError::ImmutableAssignment { .. } => SemanticErrorKind::ImmutableAssignment,
            SemanticError::UninitializedUse { .. } => SemanticErrorKind::UninitializedUse,
            SemanticError::InvalidArraySize { .. } => SemanticErrorKind::InvalidArraySize,
        }
    }

    /// The place of the expression at fault.
    pub fn position(&self) -> (p: Position)
        ensures
            p == self@.position(),
    {
        match self {
            SemanticError::UndefinedIdentifier { pos, .. } => *pos,
            SemanticError::TypeMismatch { pos, .. } => *pos,
            SemanticError::ImmutableAssignment { pos, .. } => *pos,
            SemanticError::UninitializedUse { pos, .. } => *pos,
            SemanticError::InvalidArraySize { pos } => *pos,
        }
    }
}

/// The values of a row of semantic errors, in order.
pub open spec fn semantic_errors_view(errors: Seq<SemanticError>) -> Seq<SemanticErrorView> {
    Seq::new(errors.len(), |i: int| errors[i]@)
}

/// Adds an error to the end of a row.
pub fn record(errors: &mut Vec<SemanticError>, error: SemanticError)
    ensures
        semantic_errors_view(final(errors)@) == semantic_errors_view(old(errors)@).push(error@),
{
    let ghost before = semantic_errors_view(errors@);
    let ghost ev = error@;
    errors.push(error);
    assert(semantic_errors_view(errors@) =~= before.push(ev));
}

} // verus!
