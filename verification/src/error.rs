//! The failures that parsing reports.

use vstd::prelude::*;

verus! {

/// Why a text is not a version.
#[derive(Clone, Debug, PartialEq, Eq)]
pub enum VersionError {
    /// The text is empty.
    EmptyInput,
    /// The numeric components cannot go on at this position: a number is
    /// missing there, or a character stands after the components that the
    /// grammar does not admit.
    InvalidComponent(usize),
    /// A release suffix was expected and the text from there on, given here, is none.
    InvalidSuffix(String),
    /// The text from the hyphen on, given here, is no revision at the end of the version.
    InvalidRevision(String),
}

/// What a [`VersionError`] stands for in contracts.
pub enum VersionErrorView {
    EmptyInput,
    InvalidComponent(int),
    InvalidSuffix(Seq<char>),
    InvalidRevision(Seq<char>),
}

impl View for VersionError {
    type V = VersionErrorView;

    open spec fn view(&self) -> VersionErrorView {
        match self {
            VersionError::EmptyInput => VersionErrorView::EmptyInput,
            VersionError::InvalidComponent(position) => VersionErrorView::InvalidComponent(
                *position as int,
            ),
            VersionError::InvalidSuffix(text) => VersionErrorView::InvalidSuffix(text@),
            VersionError::InvalidRevision(text) => VersionErrorView::InvalidRevision(text@),
        }
    }
}

/// What is wrong with a clause of an atom.
#[derive(Clone, Debug, PartialEq, Eq)]
pub enum Fault {
    /// A token that must not be empty is empty.
    EmptyInput,
    /// A character that the clause does not admit.
    InvalidCharacter,
    /// The parts of the clause do not fit together: a version without an operator
    /// or an operator without a version, a misplaced wildcard, an empty list of
    /// USE dependencies, a clause that is not closed.
    StructuralMismatch,
    /// The grammar revision in force does not admit the clause.
    Unsupported,
    /// The version token is not a version.
    InvalidVersion(VersionError),
}

/// What a [`Fault`] stands for in contracts.
pub enum FaultView {
    EmptyInput,
    InvalidCharacter,
    StructuralMismatch,
    Unsupported,
    InvalidVersion(VersionErrorView),
}

impl View for Fault {
    type V = FaultView;

    open spec fn view(&self) -> FaultView {
        match self {
            Fault::EmptyInput => FaultView::EmptyInput,
            Fault::InvalidCharacter => FaultView::InvalidCharacter,
            Fault::StructuralMismatch => FaultView::StructuralMismatch,
            Fault::Unsupported => FaultView::Unsupported,
            Fault::InvalidVersion(e) => FaultView::InvalidVersion(e@),
        }
    }
}

/// Why a text is not an atom, or a name not that of a grammar revision. The
/// clause errors carry the fault and the offset in the text at which it lies.
#[derive(Clone, Debug, PartialEq, Eq)]
pub enum ParseError {
    /// The text is empty.
    EmptyInput,
    CategoryError(Fault, usize),
    PackageError(Fault, usize),
    VersionError(Fault, usize),
    SlotError(Fault, usize),
    UseDepError(Fault, usize),
    RepoError(Fault, usize),
    /// The atom ends at this offset and the text goes on.
    UnexpectedTrailingInput(usize),
    /// No grammar revision has this name.
    UnknownRevision(String),
}

/// What a [`ParseError`] stands for in contracts.
pub enum ParseErrorView {
    EmptyInput,
    CategoryError(FaultView, int),
    PackageError(FaultView, int),
    VersionError(FaultView, int),
    SlotError(FaultView, int),
    UseDepError(FaultView, int),
    RepoError(FaultView, int),
    UnexpectedTrailingInput(int),
    UnknownRevision(Seq<char>),
}

impl View for ParseError {
    type V = ParseErrorView;

    open spec fn view(&self) -> ParseErrorView {
        match self {
            ParseError::EmptyInput => ParseErrorView::EmptyInput,
            ParseError::CategoryError(f, o) => ParseErrorView::CategoryError(f@, *o as int),
            ParseError::PackageError(f, o) => ParseErrorView::PackageError(f@, *o as int),
            ParseError::VersionError(f, o) => ParseErrorView::VersionError(f@, *o as int),
            ParseError::SlotError(f, o) => ParseErrorView::SlotError(f@, *o as int),
            ParseError::UseDepError(f, o) => ParseErrorView::UseDepError(f@, *o as int),
            ParseError::RepoError(f, o) => ParseErrorView::RepoError(f@, *o as int),
            ParseError::UnexpectedTrailingInput(o) => ParseErrorView::UnexpectedTrailingInput(
                *o as int,
            ),
            ParseError::UnknownRevision(name) => ParseErrorView::UnknownRevision(name@),
        }
    }
}

} // verus!
