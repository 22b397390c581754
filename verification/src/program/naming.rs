//! Which machine a command is about.

use vstd::pervasive::unreached;
use vstd::prelude::*;

use crate::effect::{Call, Kind, Machine, Next, Reply};
use crate::names::{vm_name, vm_name_of};
use crate::vm::{repo_name_of, RepoQuery};

verus! {

/// The search for the machine of the current branch.
pub enum VmNaming {
    /// Waits for the branch.
    Branch { cwd: String },
    /// Waits for the repository.
    Repo { branch: String, query: RepoQuery },
}

/// Starts to find the name and the root of the repository that a directory is in.
pub fn resolve_repo(cwd: String) -> (next: Next<RepoQuery, (String, String)>)
    ensures
        next == (Next::<RepoQuery, (String, String)>::Ask {
            status: None,
            call: Call::GitFindRepoRoot { cwd },
            machine: RepoQuery,
        }),
{
    Next::Ask { status: None, call: Call::GitFindRepoRoot { cwd }, machine: RepoQuery }
}

impl Machine for VmNaming {
    type Output = String;

    open spec fn awaits(&self) -> Kind {
        match self {
            VmNaming::Branch { .. } => Kind::Text,
            VmNaming::Repo { query, .. } => query.awaits(),
        }
    }

    open spec fn transition(self, reply: Reply, next: Next<Self, String>) -> bool {
        match self {
            VmNaming::Branch { cwd } => match reply->Text_0 {
                Ok(branch) => next == (Next::<Self, String>::Ask {
                    status: None,
                    call: Call::GitFindRepoRoot { cwd },
                    machine: VmNaming::Repo { branch, query: RepoQuery },
                }),
                Err(e) => next == Next::<Self, String>::Done(Err(e)),
            },
            VmNaming::Repo { branch, .. } => match reply->Text_0 {
                Ok(root) => next matches Next::Done(Ok(name)) && name@ == vm_name_of(
                    repo_name_of(root@),
                    branch@,
                ),
                Err(e) => next == Next::<Self, String>::Done(Err(e)),
            },
        }
    }

    fn resume(self, reply: Reply) -> (next: Next<Self, String>) {
        match (self, reply) {
            (VmNaming::Branch { cwd }, Reply::Text(branch)) => match branch {
                Ok(branch) => match resolve_repo(cwd) {
                    Next::Ask { status, call, machine } => Next::Ask {
                        status,
                        call,
                        machine: VmNaming::Repo { branch, query: machine },
                    },
                    Next::Done(_) => unreached(),
                },
                Err(e) => Next::Done(Err(e)),
            },
            (VmNaming::Repo { branch, query }, reply) => match query.resume(reply) {
                Next::Done(Ok((repo_name, _))) => Next::Done(
                    Ok(vm_name(repo_name.as_str(), branch.as_str())),
                ),
                Next::Done(Err(e)) => Next::Done(Err(e)),
                Next::Ask { .. } => unreached(),
            },
            _ => unreached(),
        }
    }
}

/// The beginning of the search for a machine: one that is named needs no search.
pub open spec fn naming_begins(explicit: Option<String>, cwd: String) -> Next<VmNaming, String> {
    match explicit {
        Some(name) => Next::Done(Ok(name)),
        None => Next::Ask {
            status: None,
            call: Call::GitCurrentBranch { cwd },
            machine: VmNaming::Branch { cwd },
        },
    }
}

/// Starts to find out which machine is meant: the named one, or that of the current branch.
pub fn resolve_vm_name(explicit: Option<String>, cwd: String) -> (next: Next<VmNaming, String>)
    ensures
        next == naming_begins(explicit, cwd),
{
    match explicit {
        Some(name) => Next::Done(Ok(name)),
        None => Next::Ask {
            status: None,
            call: Call::GitCurrentBranch { cwd: cwd.clone() },
            machine: VmNaming::Branch { cwd },
        },
    }
}

} // verus!
