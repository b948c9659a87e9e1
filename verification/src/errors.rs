//! The ways in which opening a package or installing a component fails.

use vstd::prelude::*;

verus! {

/// Why a package could not be opened, or a component not installed.
#[derive(Clone, Debug, PartialEq, Eq)]
pub enum Error {
    /// The index of the package's components could not be read.
    MalformedArtifact,
    /// The archive could not be opened, decompressed or extracted.
    ExtractingPackage,
    /// The manifest of the named component could not be read, or holds a line
    /// that is no manifest entry. The name is the one the caller asked for.
    CorruptComponent(String),
    /// The install builder reported a failure while staging or committing;
    /// its own report stays with whoever drives the builder.
    Staging,
}

/// An `Error` with its text as a sequence of characters.
pub enum ErrorView {
    MalformedArtifact,
    ExtractingPackage,
    CorruptComponent(Seq<char>),
    Staging,
}

impl View for Error {
    type V = ErrorView;

    open spec fn view(&self) -> ErrorView {
        match self {
            Error::MalformedArtifact => ErrorView::MalformedArtifact,
            Error::ExtractingPackage => ErrorView::ExtractingPackage,
            Error::CorruptComponent(name) => ErrorView::CorruptComponent(name@),
            Error::Staging => ErrorView::Staging,
        }
    }
}

} // verus!
