//! Bringing up the machine for a branch.

pub mod boot;
pub mod mounts;
pub mod spawning;
pub mod worktree;

use vstd::pervasive::unreached;
use vstd::prelude::*;

use crate::config::Config;
use crate::effect::{Call, IpAddr, Kind, Machine, Next, Reply};
use crate::names::{vm_name, vm_name_of};
use crate::os_path::{shown, shown_of};
use crate::path::{file_name, file_name_of};
use crate::tart::TartCommand;
use spawning::{Job, Spawn, SpawnStep};
use worktree::EnsureWorktree;

verus! {

/// How a machine was got at.
#[derive(Debug)]
pub enum SpawnResult {
    /// Connected to an existing running VM.
    Reconnected { name: String, ip: IpAddr },
    /// Resumed a suspended VM.
    Resumed { name: String, ip: IpAddr },
    /// Started a stopped VM.
    Started { name: String, ip: IpAddr },
    /// Created and booted a new VM.
    Created { name: String, ip: IpAddr },
}

impl SpawnResult {
    /// The machine's name.
    pub open spec fn spec_name(&self) -> String {
        match self {
            SpawnResult::Reconnected { name, .. } => *name,
            SpawnResult::Resumed { name, .. } => *name,
            SpawnResult::Started { name, .. } => *name,
            SpawnResult::Created { name, .. } => *name,
        }
    }

    /// The machine's address.
    pub open spec fn spec_ip(&self) -> IpAddr {
        match self {
            SpawnResult::Reconnected { ip, .. } => *ip,
            SpawnResult::Resumed { ip, .. } => *ip,
            SpawnResult::Started { ip, .. } => *ip,
            SpawnResult::Created { ip, .. } => *ip,
        }
    }

    /// The machine's name.
    pub fn name(&self) -> (name: &str)
        ensures
            name@ == self.spec_name()@,
    {
        match self {
            SpawnResult::Reconnected { name, .. } => name.as_str(),
            SpawnResult::Resumed { name, .. } => name.as_str(),
            SpawnResult::Started { name, .. } => name.as_str(),
            SpawnResult::Created { name, .. } => name.as_str(),
        }
    }

    /// The machine's address.
    pub fn ip(&self) -> (ip: IpAddr)
        ensures
            ip == self.spec_ip(),
    {
        match self {
            SpawnResult::Reconnected { ip, .. } => ip.duplicate(),
            SpawnResult::Resumed { ip, .. } => ip.duplicate(),
            SpawnResult::Started { ip, .. } => ip.duplicate(),
            SpawnResult::Created { ip, .. } => ip.duplicate(),
        }
    }
}

/// The question for the branch that a directory is on.
pub struct BranchQuery;

impl Machine for BranchQuery {
    type Output = String;

    open spec fn awaits(&self) -> Kind {
        Kind::Text
    }

    open spec fn transition(self, reply: Reply, next: Next<Self, String>) -> bool {
        next == Next::<Self, String>::Done(reply->Text_0)
    }

    fn resume(self, reply: Reply) -> (next: Next<Self, String>) {
        match reply {
            Reply::Text(branch) => Next::Done(branch),
            _ => unreached(),
        }
    }
}

/// The name of a repository: that of its root, or `unknown` if the root has none.
pub open spec fn repo_name_of(root: Seq<char>) -> Seq<char> {
    match file_name_of(root) {
        Some(name) => shown_of(name),
        None => "unknown"@,
    }
}

/// The name of a repository, by its root.
pub fn repo_name(root: &str) -> (name: String)
    ensures
        name@ == repo_name_of(root@),
{
    match file_name(root) {
        Some(name) => shown(name.as_str()),
        None => "unknown".to_string(),
    }
}

/// The question for the repository that a directory is in.
pub struct RepoQuery;

impl Machine for RepoQuery {
    type Output = (String, String);

    open spec fn awaits(&self) -> Kind {
        Kind::Text
    }

    open spec fn transition(self, reply: Reply, next: Next<Self, (String, String)>) -> bool {
        match reply->Text_0 {
            Ok(root) => next matches Next::Done(Ok((name, found))) && name@ == repo_name_of(root@)
                && found == root,
            Err(e) => next == Next::<Self, (String, String)>::Done(Err(e)),
        }
    }

    fn resume(self, reply: Reply) -> (next: Next<Self, (String, String)>) {
        match reply {
            Reply::Text(Ok(root)) => Next::Done(Ok((repo_name(root.as_str()), root))),
            Reply::Text(Err(e)) => Next::Done(Err(e)),
            _ => unreached(),
        }
    }
}

/// Brings up machines as the settings say.
#[derive(Clone, Copy)]
pub struct VmOrchestrator<'a> {
    pub config: &'a Config,
    /// Whether a user sits at the terminal.
    pub interactive: bool,
}

impl<'a> VmOrchestrator<'a> {
    pub fn new(config: &'a Config, interactive: bool) -> (orch: VmOrchestrator<'a>)
        ensures
            orch == (VmOrchestrator { config, interactive }),
    {
        VmOrchestrator { config, interactive }
    }

    /// Resolves the branch: the explicit one, or the one that the directory is on.
    pub fn resolve_branch(&self, explicit: Option<String>, cwd: String) -> (next: Next<
        BranchQuery,
        String,
    >)
        ensures
            next == match explicit {
                Some(branch) => Next::<BranchQuery, String>::Done(Ok(branch)),
                None => Next::<BranchQuery, String>::Ask {
                    status: None,
                    call: Call::GitCurrentBranch { cwd },
                    machine: BranchQuery,
                },
            },
    {
        match explicit {
            Some(branch) => Next::Done(Ok(branch)),
            None => Next::Ask {
                status: None,
                call: Call::GitCurrentBranch { cwd },
                machine: BranchQuery,
            },
        }
    }

    /// Resolves the name and the root of the repository that the directory is in.
    pub fn resolve_repo(&self, cwd: String) -> (next: Next<RepoQuery, (String, String)>)
        ensures
            next == (Next::<RepoQuery, (String, String)>::Ask {
                status: None,
                call: Call::GitFindRepoRoot { cwd },
                machine: RepoQuery,
            }),
    {
        Next::Ask { status: None, call: Call::GitFindRepoRoot { cwd }, machine: RepoQuery }
    }

    /// Finds or creates a linked worktree for the branch.
    pub fn ensure_worktree(&self, repo_root: String, branch: String, repo_name: String) -> (next:
        Next<EnsureWorktree<'a>, String>)
        ensures
            next == (Next::<EnsureWorktree<'a>, String>::Ask {
                status: None,
                call: Call::GitListWorktrees { repo_root },
                machine: EnsureWorktree::Listing {
                    config: self.config,
                    repo_root,
                    branch,
                    repo_name,
                },
            }),
    {
        Next::Ask {
            status: None,
            call: Call::GitListWorktrees { repo_root: repo_root.clone() },
            machine: EnsureWorktree::Listing { config: self.config, repo_root, branch, repo_name },
        }
    }

    /// Spawns the machine for the branch, or connects to it.
    pub fn spawn(
        &self,
        branch: String,
        repo_name: String,
        worktree_path: String,
        repo_root: String,
    ) -> (next: Next<Spawn<'a>, SpawnResult>)
        ensures
            spawn_begins(next, *self, branch, repo_name, worktree_path, repo_root),
    {
        let name = vm_name(repo_name.as_str(), branch.as_str());
        Next::Ask {
            status: None,
            call: Call::Tart(TartCommand::List),
            machine: Spawn {
                orch: *self,
                job: Job { vm_name: name, repo_name, branch, worktree_path, repo_root },
                step: SpawnStep::Listing,
            },
        }
    }
}

/// Whether `next` is the beginning of a spawn: the machines are listed, to look for the one of the
/// repository and the branch.
pub open spec fn spawn_begins<'a>(
    next: Next<Spawn<'a>, SpawnResult>,
    orch: VmOrchestrator<'a>,
    branch: String,
    repo_name: String,
    worktree_path: String,
    repo_root: String,
) -> bool {
    next matches Next::Ask { status, call, machine } && {
        &&& status is None
        &&& call == Call::Tart(TartCommand::List)
        &&& machine.orch == orch
        &&& machine.step == SpawnStep::Listing
        &&& machine.job.vm_name@ == vm_name_of(repo_name@, branch@)
        &&& machine.job.repo_name == repo_name
        &&& machine.job.branch == branch
        &&& machine.job.worktree_path == worktree_path
        &&& machine.job.repo_root == repo_root
    }
}

} // verus!
