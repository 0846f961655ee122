//! What the command line can choose.

use vstd::prelude::*;

verus! {

/// A configuration that the library brings along.
#[derive(Debug, Clone, Copy, PartialEq, Eq, Structural)]
pub enum ConfigPreset {
    /// Feature and fix branches off a main branch, with release branches
    /// that stabilise one minor version each.
    Releaseflow,
}

} // verus!
