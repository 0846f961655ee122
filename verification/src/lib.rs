//! Finds the version of a branch of a repository from the names of its
//! branches and tags.
//!
//! The rules are a [`config::Config`]: branch types and tag types, each with
//! a pattern for the names that belong to it and templates for the label
//! and the version that such a name gives. The [`solver`] reads the
//! references of the repository, walks the history from the tip of the
//! branch and names for each commit what it says about the version; the
//! reducer in [`resolve`] folds that into one [`semver::SemVersion`].
//!
//! What the indices of a solver hold is stated in [`indexing`], and how the
//! commits above a basis count in [`counting`].
//!
//! The library reads no repository. Its caller tells it what is known of
//! one, as a [`repo::Repo`], and is told which fact is missing.

pub mod cli;
pub mod commit;
pub mod config;
pub mod counting;
pub mod decimal;
pub mod error;
pub mod head;
pub mod index;
pub mod indexing;
pub mod notation;
pub mod ordering;
pub mod output;
pub mod pattern;
pub mod preset;
pub mod repo;
pub mod resolve;
pub mod semver;
pub mod solver;
pub mod template;
pub mod text;
