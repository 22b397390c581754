//! What git says of its worktrees.

use vstd::prelude::*;

verus! {

/// One worktree of a repository.
#[derive(Debug)]
pub struct WorktreeInfo {
    /// Where it is checked out.
    pub path: String,
    /// The branch that it is on, unless its head is detached.
    pub branch: Option<String>,
    /// Whether it is the repository's main worktree.
    pub is_main: bool,
}

} // verus!
