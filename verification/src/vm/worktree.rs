//! Finding or creating the worktree that a machine works in.

use vstd::pervasive::unreached;
use vstd::prelude::*;
use vstd::string::StringExecFns;

use crate::config::Config;
use crate::effect::{Call, Kind, Machine, Next, Reply};
use crate::path::{join, join_of, parent, parent_of};
use crate::worktree::WorktreeInfo;

verus! {

/// Whether a worktree can serve for a branch. The main worktree never can: switching branches on
/// the host would change what the machine sees.
pub open spec fn serves(worktree: WorktreeInfo, branch: Seq<char>) -> bool {
    &&& worktree.branch matches Some(b)
    &&& worktree.branch->0@ == branch
    &&& !worktree.is_main
}

/// Whether worktree `i` is the first one that serves for a branch.
pub open spec fn first_serving(worktrees: Seq<WorktreeInfo>, branch: Seq<char>, i: int) -> bool {
    &&& 0 <= i < worktrees.len()
    &&& serves(worktrees[i], branch)
    &&& forall|j: int| 0 <= j < i ==> !serves(#[trigger] worktrees[j], branch)
}

/// Whether some worktree serves for a branch.
pub open spec fn any_serves(worktrees: Seq<WorktreeInfo>, branch: Seq<char>) -> bool {
    exists|i: int| first_serving(worktrees, branch, i)
}

/// The directory that new worktrees go to: the configured one, or the one that holds the
/// repository.
pub open spec fn base_dir_of(config: Config, repo_root: Seq<char>) -> Seq<char> {
    match config.worktree_dir {
        Some(dir) => dir@,
        None => match parent_of(repo_root) {
            Some(parent) => parent,
            None => repo_root,
        },
    }
}

/// Where a new worktree goes.
pub open spec fn target_of(
    config: Config,
    repo_root: Seq<char>,
    repo_name: Seq<char>,
    branch: Seq<char>,
) -> Seq<char> {
    join_of(base_dir_of(config, repo_root), repo_name + "-"@ + branch)
}

/// The path of the first worktree that serves for a branch, if one does.
pub fn find_serving(worktrees: &Vec<WorktreeInfo>, branch: &String) -> (path: Option<String>)
    ensures
        match path {
            Some(p) => exists|i: int| #[trigger]
                first_serving(worktrees@, branch@, i) && p == worktrees@[i].path,
            None => !any_serves(worktrees@, branch@),
        },
{
    let mut i: usize = 0;
    while i < worktrees.len()
        invariant
            i <= worktrees.len(),
            forall|j: int| 0 <= j < i ==> !serves(#[trigger] worktrees@[j], branch@),
        decreases worktrees.len() - i,
    {
        let worktree = &worktrees[i];
        if let Some(b) = &worktree.branch {
            if *b == *branch && !worktree.is_main {
                assert(first_serving(worktrees@, branch@, i as int));
                return Some(worktree.path.clone());
            }
        }
        i += 1;
    }
    None
}

/// Where a new worktree goes.
pub fn worktree_target(config: &Config, repo_root: &str, repo_name: &str, branch: &str) -> (target:
    String)
    ensures
        target@ == target_of(*config, repo_root@, repo_name@, branch@),
{
    let mut name = repo_name.to_string();
    name.append("-");
    name.append(branch);
    let base = match &config.worktree_dir {
        Some(dir) => dir.clone(),
        None => match parent(repo_root) {
            Some(parent) => parent,
            None => repo_root.to_string(),
        },
    };
    join(base.as_str(), name.as_str())
}

/// The search for a worktree. Without one that serves, git is asked to create it.
pub enum EnsureWorktree<'a> {
    /// Waits for the worktrees that there are.
    Listing { config: &'a Config, repo_root: String, branch: String, repo_name: String },
    /// Waits for the new worktree.
    Creating,
}

impl<'a> Machine for EnsureWorktree<'a> {
    type Output = String;

    open spec fn awaits(&self) -> Kind {
        match self {
            EnsureWorktree::Listing { .. } => Kind::Worktrees,
            EnsureWorktree::Creating => Kind::Text,
        }
    }

    open spec fn transition(self, reply: Reply, next: Next<Self, String>) -> bool {
        match self {
            EnsureWorktree::Listing { config, repo_root, branch, repo_name } => match reply {
                Reply::Worktrees(Ok(worktrees)) => if any_serves(worktrees@, branch@) {
                    exists|i: int| #[trigger]
                        first_serving(worktrees@, branch@, i) && next == Next::<Self, String>::Done(
                            Ok(worktrees@[i].path),
                        )
                } else {
                    &&& next matches Next::Ask {
                        status: None,
                        call: Call::GitCreateWorktree { repo_root: root, branch: name, target },
                        machine,
                    }
                    &&& root == repo_root
                    &&& name == branch
                    &&& target@ == target_of(*config, repo_root@, repo_name@, branch@)
                    &&& machine == EnsureWorktree::<'a>::Creating
                },
                Reply::Worktrees(Err(e)) => next == Next::<Self, String>::Done(Err(e)),
                _ => false,
            },
            EnsureWorktree::Creating => next == Next::<Self, String>::Done(reply->Text_0),
        }
    }

    fn resume(self, reply: Reply) -> (next: Next<Self, String>) {
        match (self, reply) {
            (
                EnsureWorktree::Listing { config, repo_root, branch, repo_name },
                Reply::Worktrees(worktrees),
            ) => match worktrees {
                Ok(worktrees) => match find_serving(&worktrees, &branch) {
                    Some(path) => {
                        proof {
                            let i = choose|i: int| #[trigger]
                                first_serving(worktrees@, branch@, i) && path
                                    == worktrees@[i].path;
                            assert(first_serving(worktrees@, branch@, i));
                        }
                        Next::Done(Ok(path))
                    },
                    None => {
                        let target = worktree_target(
                            config,
                            repo_root.as_str(),
                            repo_name.as_str(),
                            branch.as_str(),
                        );
                        Next::Ask {
                            status: None,
                            call: Call::GitCreateWorktree { repo_root, branch, target },
                            machine: EnsureWorktree::Creating,
                        }
                    },
                },
                Err(e) => Next::Done(Err(e)),
            },
            (EnsureWorktree::Creating, Reply::Text(path)) => Next::Done(path),
            _ => unreached(),
        }
    }
}

/// The main worktree is never given to a machine: a worktree that is reused is a linked one, on
/// the branch that was asked for.
pub proof fn law_reused_worktrees_are_linked<'a>(
    config: &'a Config,
    repo_root: String,
    branch: String,
    repo_name: String,
    worktrees: Vec<WorktreeInfo>,
    path: String,
)
    requires
        (EnsureWorktree::Listing { config, repo_root, branch, repo_name }).transition(
            Reply::Worktrees(Ok(worktrees)),
            Next::<EnsureWorktree<'a>, String>::Done(Ok(path)),
        ),
    ensures
        exists|i: int|
            0 <= i < worktrees@.len() && (#[trigger] worktrees@[i]).path == path
                && !worktrees@[i].is_main && (worktrees@[i].branch matches Some(b) && b@ == branch@),
{
    let i = choose|i: int| #[trigger]
        first_serving(worktrees@, branch@, i) && Next::<EnsureWorktree<'a>, String>::Done(Ok(path))
            == Next::<EnsureWorktree<'a>, String>::Done(Ok(worktrees@[i].path));
    assert(worktrees@[i].path == path);
}

/// A worktree is created exactly when none that is linked is on the branch.
pub proof fn law_worktrees_are_created_only_when_missing<'a>(
    config: &'a Config,
    repo_root: String,
    branch: String,
    repo_name: String,
    worktrees: Vec<WorktreeInfo>,
    next: Next<EnsureWorktree<'a>, String>,
)
    requires
        (EnsureWorktree::Listing { config, repo_root, branch, repo_name }).transition(
            Reply::Worktrees(Ok(worktrees)),
            next,
        ),
    ensures
        next is Ask <==> forall|i: int|
            0 <= i < worktrees@.len() ==> !serves(#[trigger] worktrees@[i], branch@),
        next is Ask ==> next->call is GitCreateWorktree,
{
    if exists|i: int| 0 <= i < worktrees@.len() && serves(#[trigger] worktrees@[i], branch@) {
        let i = choose|i: int| 0 <= i < worktrees@.len() && serves(#[trigger] worktrees@[i], branch@);
        lemma_some_is_first(worktrees@, branch@, i);
    }
}

proof fn lemma_some_is_first(worktrees: Seq<WorktreeInfo>, branch: Seq<char>, i: int)
    requires
        0 <= i < worktrees.len(),
        serves(worktrees[i], branch),
    ensures
        any_serves(worktrees, branch),
    decreases i,
{
    if exists|j: int| 0 <= j < i && serves(#[trigger] worktrees[j], branch) {
        let j = choose|j: int| 0 <= j < i && serves(#[trigger] worktrees[j], branch);
        lemma_some_is_first(worktrees, branch, j);
    } else {
        assert(first_serving(worktrees, branch, i));
    }
}

} // verus!
