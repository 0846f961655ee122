//! What can go wrong while a version is resolved.

use vstd::prelude::*;

verus! {

/// Why no version could be resolved. Every error ends the resolution: no
/// version is guessed.
#[derive(Debug)]
pub enum VernerError {
    /// A pattern of the configuration is no regular expression. Holds the
    /// pattern.
    InvalidPattern(String),
    /// A template expanded to a text that is no version. Holds the text.
    InvalidVersion(String),
    /// A branch type names, as tracked or as source, a type that the
    /// configuration does not have. Holds the name of the missing type.
    UnknownBranchType(String),
    /// No branch type of the configuration matches the branch. Holds the
    /// name of the branch.
    NoMatchingBranch(String),
    /// The head is detached, and the branches that point at its commit are
    /// not exactly one. Holds the names of those branches.
    AmbiguousHead(Vec<String>),
    /// An increment would carry a number of the version past 32 bits.
    VersionOverflow,
    /// The head of the repository points at no commit.
    HeadWithoutCommit,
    /// The reference that was asked for has a name that is no text.
    ReferenceWithoutName,
    /// The reference that was asked for points at no commit.
    ReferenceWithoutTarget,
}

/// The mathematical value of a [`VernerError`].
pub enum VernerErrorView {
    InvalidPattern(Seq<char>),
    InvalidVersion(Seq<char>),
    UnknownBranchType(Seq<char>),
    NoMatchingBranch(Seq<char>),
    AmbiguousHead(Seq<Seq<char>>),
    VersionOverflow,
    HeadWithoutCommit,
    ReferenceWithoutName,
    ReferenceWithoutTarget,
}

impl DeepView for VernerError {
    type V = VernerErrorView;

    open spec fn deep_view(&self) -> VernerErrorView {
        match self {
            VernerError::InvalidPattern(pattern) => VernerErrorView::InvalidPattern(pattern@),
            VernerError::InvalidVersion(text) => VernerErrorView::InvalidVersion(text@),
            VernerError::UnknownBranchType(name) => VernerErrorView::UnknownBranchType(name@),
            VernerError::NoMatchingBranch(name) => VernerErrorView::NoMatchingBranch(name@),
            VernerError::AmbiguousHead(names) => VernerErrorView::AmbiguousHead(
                names.deep_view(),
            ),
            VernerError::VersionOverflow => VernerErrorView::VersionOverflow,
            VernerError::HeadWithoutCommit => VernerErrorView::HeadWithoutCommit,
            VernerError::ReferenceWithoutName => VernerErrorView::ReferenceWithoutName,
            VernerError::ReferenceWithoutTarget => VernerErrorView::ReferenceWithoutTarget,
        }
    }
}

/// The mathematical value of what a step that may fail gave.
pub open spec fn outcome_view<T: DeepView>(outcome: Result<T, VernerError>) -> Result<
    T::V,
    VernerErrorView,
> {
    match outcome {
        Ok(value) => Ok(value.deep_view()),
        Err(error) => Err(error.deep_view()),
    }
}

} // verus!
