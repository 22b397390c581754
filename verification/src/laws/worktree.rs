//! The search for a worktree, call by call.

use vstd::prelude::*;

use crate::config::Config;
use crate::effect::{goes_on_at, is_run, Call, Next, Reply};
use crate::path::{join_of, parent_of};
use crate::vm::worktree::{first_serving, serves, EnsureWorktree};
use crate::worktree::WorktreeInfo;

verus! {

/// The beginning of the search for a worktree.
pub open spec fn search_begins<'a>(
    config: &'a Config,
    repo_root: String,
    branch: String,
    repo_name: String,
) -> Next<EnsureWorktree<'a>, String> {
    Next::Ask {
        status: None,
        call: Call::GitListWorktrees { repo_root },
        machine: EnsureWorktree::Listing { config, repo_root, branch, repo_name },
    }
}

/// Whether a worktree is a linked one on the branch.
pub open spec fn is_linked(worktree: WorktreeInfo, branch: Seq<char>) -> bool {
    !worktree.is_main && (worktree.branch matches Some(on) && on@ == branch)
}

/// Whether the first linked worktree on the branch is at place `p`.
pub open spec fn linked_at(worktrees: Seq<WorktreeInfo>, branch: Seq<char>, p: int) -> bool {
    &&& 0 <= p < worktrees.len()
    &&& is_linked(worktrees[p], branch)
    &&& forall|q: int| 0 <= q < p ==> !is_linked(#[trigger] worktrees[q], branch)
}

/// Where a new worktree goes: into the directory of the settings, or else beside the repository,
/// under the name of the repository and the branch.
pub open spec fn new_place(
    config: Config,
    repo_root: Seq<char>,
    repo_name: Seq<char>,
    branch: Seq<char>,
) -> Seq<char> {
    let name = repo_name + "-"@ + branch;
    match config.worktree_dir {
        Some(dir) => join_of(dir@, name),
        None => match parent_of(repo_root) {
            Some(parent) => join_of(parent, name),
            None => join_of(repo_root, name),
        },
    }
}

/// If a linked worktree on the branch is in the list, there is a first one.
pub proof fn lemma_linked(worktrees: Seq<WorktreeInfo>, branch: Seq<char>)
    ensures
        (exists|p: int| 0 <= p < worktrees.len() && is_linked(#[trigger] worktrees[p], branch))
            <==> exists|p: int| linked_at(worktrees, branch, p),
    decreases worktrees.len(),
{
    if worktrees.len() > 0 {
        let rest = worktrees.drop_last();
        lemma_linked(rest, branch);
        assert forall|p: int| #[trigger] linked_at(rest, branch, p) implies linked_at(
            worktrees,
            branch,
            p,
        ) by {
            assert(worktrees[p] == rest[p]);
            assert forall|q: int| 0 <= q < p implies !is_linked(#[trigger] worktrees[q], branch) by {
                assert(rest[q] == worktrees[q]);
            }
        }
        let last = worktrees.len() - 1;
        if is_linked(worktrees[last], branch) && !(exists|p: int| linked_at(rest, branch, p)) {
            assert forall|q: int| 0 <= q < last implies !is_linked(
                #[trigger] worktrees[q],
                branch,
            ) by {
                assert(rest[q] == worktrees[q]);
            }
            assert(linked_at(worktrees, branch, last));
        }
        assert forall|p: int|
            0 <= p < worktrees.len() && is_linked(#[trigger] worktrees[p], branch) && p
                != last implies exists|q: int| linked_at(rest, branch, q) by {
            assert(rest[p] == worktrees[p]);
        }
    }
}

/// A search lists the worktrees of the repository, and gives the first linked one on the branch.
/// If there is none, git is asked for one: of that repository, on that branch, character for
/// character, at the place where new ones go; and what git gives is given. Failures are handed on.
pub proof fn law_worktrees_are_of_the_branch<'a>(
    config: &'a Config,
    repo_root: String,
    branch: String,
    repo_name: String,
    replies: Seq<Reply>,
    trail: Seq<Next<EnsureWorktree<'a>, String>>,
)
    requires
        is_run(search_begins(config, repo_root, branch, repo_name), replies, trail),
        replies.len() > 0,
    ensures
        replies.len() <= 2,
        trail[0] is Ask && trail[0]->call == (Call::GitListWorktrees { repo_root }),
        match replies[0] {
            Reply::Worktrees(Err(e)) => replies.len() == 1 && trail[1] == Next::<
                EnsureWorktree<'a>,
                String,
            >::Done(Err(e)),
            Reply::Worktrees(Ok(worktrees)) => {
                &&& forall|p: int| #[trigger]
                    linked_at(worktrees@, branch@, p) ==> replies.len() == 1 && trail[1] == Next::<
                        EnsureWorktree<'a>,
                        String,
                    >::Done(Ok(worktrees@[p].path))
                &&& (forall|p: int|
                    0 <= p < worktrees@.len() ==> !is_linked(#[trigger] worktrees@[p], branch@))
                    ==> {
                    &&& trail[1] is Ask
                    &&& trail[1]->status is None
                    &&& trail[1]->call matches Call::GitCreateWorktree {
                        repo_root: root,
                        branch: on,
                        target,
                    }
                    &&& root == repo_root
                    &&& on == branch
                    &&& target@ == new_place(*config, repo_root@, repo_name@, branch@)
                    &&& replies.len() == 2 ==> replies[1] is Text && trail[2] == Next::<
                        EnsureWorktree<'a>,
                        String,
                    >::Done(replies[1]->Text_0)
                }
            },
            _ => false,
        },
{
    assert(goes_on_at(replies, trail, 0));
    if replies.len() > 1 {
        assert(goes_on_at(replies, trail, 1));
    }
    if replies.len() > 2 {
        assert(goes_on_at(replies, trail, 2));
    }
    if let Reply::Worktrees(Ok(worktrees)) = replies[0] {
        assert(forall|w: WorktreeInfo| #[trigger] serves(w, branch@) <==> is_linked(w, branch@));
        assert forall|p: int| #[trigger] linked_at(worktrees@, branch@, p) implies replies.len() == 1
            && trail[1] == Next::<EnsureWorktree<'a>, String>::Done(Ok(worktrees@[p].path)) by {
            assert(first_serving(worktrees@, branch@, p));
            let i = choose|i: int| #[trigger]
                first_serving(worktrees@, branch@, i) && trail[1] == Next::<
                    EnsureWorktree<'a>,
                    String,
                >::Done(Ok(worktrees@[i].path));
            if i < p {
                assert(!is_linked(worktrees@[i], branch@));
            } else if p < i {
                assert(serves(worktrees@[p], branch@));
            }
        }
    }
}

} // verus!
