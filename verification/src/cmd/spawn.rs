//! Bringing up the machine for a branch, from the directory that the user is in.

use vstd::pervasive::unreached;
use vstd::prelude::*;

use super::proxy::{ensure_proxy_running, looks, EnsureProxy, ProxyStep};
use crate::config::{same_settings, Config};
use crate::effect::{goes_on_at, is_run, shows, Call, Kind, Machine, Next, Reply};
use crate::vm::spawning::{is_spawn_call, law_a_spawn_keeps_to_its_calls, Spawn};
use crate::vm::worktree::EnsureWorktree;
use crate::vm::{repo_name_of, spawn_begins, BranchQuery, RepoQuery, SpawnResult, VmOrchestrator};

verus! {

/// The branch that a machine is for, and the repository it belongs to.
pub struct Place {
    pub branch: String,
    pub repo_name: String,
    pub repo_root: String,
}

/// What the procedure waits for at the moment.
#[allow(inconsistent_fields)]
pub enum RunStep<'a> {
    /// The branch that the directory is on.
    Branch { cwd: String, query: BranchQuery },
    /// The repository that the directory is in.
    Repo { branch: String, query: RepoQuery },
    /// The credential proxy.
    Proxy { place: Place, proxy: EnsureProxy<'a> },
    /// The worktree.
    Worktree { place: Place, search: EnsureWorktree<'a> },
    /// The machine.
    Spawning { branch: String, repo_root: String, spawn: Spawn<'a> },
    /// The new machine's setup.
    Provisioning { result: SpawnResult },
    /// The end of the user's session.
    Connecting { result: SpawnResult },
}

/// The procedure behind the command line without a subcommand.
pub struct Run<'a> {
    pub orch: VmOrchestrator<'a>,
    pub step: RunStep<'a>,
}

/// Whether the procedure goes on to find the repository.
pub open spec fn seeks_repo<'a>(
    orch: VmOrchestrator<'a>,
    branch: String,
    cwd: String,
    next: Next<Run<'a>, SpawnResult>,
) -> bool {
    next is Ask && next->call == Call::GitFindRepoRoot { cwd } && next->machine == (Run {
        orch,
        step: RunStep::Repo { branch, query: RepoQuery },
    })
}

/// Whether the procedure goes on to the proxy.
pub open spec fn seeks_proxy<'a>(
    orch: VmOrchestrator<'a>,
    place: Place,
    next: Next<Run<'a>, SpawnResult>,
) -> bool {
    next matches Next::Ask { status, call, machine } && {
        &&& shows(status, "Ensuring credential proxy is running..."@)
        &&& call == looks(orch.config, ProxyStep::Looking)->call
        &&& machine == (Run {
            orch,
            step: RunStep::Proxy {
                place,
                proxy: EnsureProxy { config: orch.config, step: ProxyStep::Looking },
            },
        })
    }
}

/// Whether the procedure goes on to the worktree.
pub open spec fn seeks_worktree<'a>(
    orch: VmOrchestrator<'a>,
    place: Place,
    next: Next<Run<'a>, SpawnResult>,
) -> bool {
    next matches Next::Ask { status, call, machine } && {
        &&& shows(status, "Preparing worktree..."@)
        &&& call == Call::GitListWorktrees { repo_root: place.repo_root }
        &&& machine == (Run {
            orch,
            step: RunStep::Worktree {
                place,
                search: EnsureWorktree::Listing {
                    config: orch.config,
                    repo_root: place.repo_root,
                    branch: place.branch,
                    repo_name: place.repo_name,
                },
            },
        })
    }
}

/// Whether the procedure goes on to the machine.
pub open spec fn seeks_machine<'a>(
    orch: VmOrchestrator<'a>,
    place: Place,
    worktree_path: String,
    next: Next<Run<'a>, SpawnResult>,
) -> bool {
    next matches Next::Ask { status, call, machine } && {
        &&& shows(status, "Spawning VM..."@)
        &&& machine.orch == orch
        &&& machine.step matches RunStep::Spawning { branch, repo_root, spawn }
        &&& branch == place.branch
        &&& repo_root == place.repo_root
        &&& spawn_begins(
            Next::Ask { status: None, call, machine: spawn },
            orch,
            place.branch,
            place.repo_name,
            worktree_path,
            place.repo_root,
        )
    }
}

/// Whether the procedure goes on to set up a new machine.
pub open spec fn provisions<'a>(
    orch: VmOrchestrator<'a>,
    branch: String,
    repo_root: String,
    result: SpawnResult,
    next: Next<Run<'a>, SpawnResult>,
) -> bool {
    next matches Next::Ask { status, call, machine } && {
        &&& shows(status, "Provisioning VM..."@)
        &&& call matches Call::Provision { ip, vm_name, branch: on, repo_root: root, config }
        &&& ip == result.spec_ip()
        &&& vm_name == result.spec_name()
        &&& on == branch
        &&& root == repo_root
        &&& same_settings(config, *orch.config)
        &&& machine == (Run { orch, step: RunStep::Provisioning { result } })
    }
}

/// How the procedure goes on once the machine is ready: it hands the terminal over if there is a
/// user, and is done otherwise.
pub open spec fn hands_over<'a>(orch: VmOrchestrator<'a>, result: SpawnResult) -> Next<
    Run<'a>,
    SpawnResult,
> {
    if orch.interactive {
        Next::Ask {
            status: None,
            call: Call::SshConnect { ip: result.spec_ip(), user: orch.config.ssh_user },
            machine: Run { orch, step: RunStep::Connecting { result } },
        }
    } else {
        Next::Done(Ok(result))
    }
}

/// How the procedure goes on as the search for the proxy does.
pub open spec fn follows_proxy<'a>(
    orch: VmOrchestrator<'a>,
    place: Place,
    inner: Next<EnsureProxy<'a>, ()>,
    next: Next<Run<'a>, SpawnResult>,
) -> bool {
    match inner {
        Next::Ask { status, call, machine } => next == (Next::<Run<'a>, SpawnResult>::Ask {
            status,
            call,
            machine: Run { orch, step: RunStep::Proxy { place, proxy: machine } },
        }),
        Next::Done(Ok(_)) => seeks_worktree(orch, place, next),
        Next::Done(Err(e)) => next == Next::<Run<'a>, SpawnResult>::Done(Err(e)),
    }
}

/// How the procedure goes on as the search for the worktree does.
pub open spec fn follows_worktree<'a>(
    orch: VmOrchestrator<'a>,
    place: Place,
    inner: Next<EnsureWorktree<'a>, String>,
    next: Next<Run<'a>, SpawnResult>,
) -> bool {
    match inner {
        Next::Ask { status, call, machine } => next == (Next::<Run<'a>, SpawnResult>::Ask {
            status,
            call,
            machine: Run { orch, step: RunStep::Worktree { place, search: machine } },
        }),
        Next::Done(Ok(path)) => seeks_machine(orch, place, path, next),
        Next::Done(Err(e)) => next == Next::<Run<'a>, SpawnResult>::Done(Err(e)),
    }
}

/// How the procedure goes on as the spawn does.
pub open spec fn follows_spawn<'a>(
    orch: VmOrchestrator<'a>,
    branch: String,
    repo_root: String,
    inner: Next<Spawn<'a>, SpawnResult>,
    next: Next<Run<'a>, SpawnResult>,
) -> bool {
    match inner {
        Next::Ask { status, call, machine } => next == (Next::<Run<'a>, SpawnResult>::Ask {
            status,
            call,
            machine: Run { orch, step: RunStep::Spawning { branch, repo_root, spawn: machine } },
        }),
        Next::Done(Ok(result)) => if result is Created {
            provisions(orch, branch, repo_root, result, next)
        } else {
            next == hands_over(orch, result)
        },
        Next::Done(Err(e)) => next == Next::<Run<'a>, SpawnResult>::Done(Err(e)),
    }
}

fn seek_repo<'a>(
    orch: VmOrchestrator<'a>,
    status: Option<String>,
    branch: String,
    cwd: String,
) -> (next: Next<Run<'a>, SpawnResult>)
    ensures
        seeks_repo(orch, branch, cwd, next),
        next->status == status,
{
    match orch.resolve_repo(cwd) {
        Next::Ask { status: _, call, machine } => Next::Ask {
            status,
            call,
            machine: Run { orch, step: RunStep::Repo { branch, query: machine } },
        },
        Next::Done(_) => unreached(),
    }
}

fn seek_proxy<'a>(orch: VmOrchestrator<'a>, place: Place) -> (next: Next<Run<'a>, SpawnResult>)
    ensures
        seeks_proxy(orch, place, next),
{
    match ensure_proxy_running(orch.config) {
        Next::Ask { status: _, call, machine } => Next::Ask {
            status: Some("Ensuring credential proxy is running...".to_string()),
            call,
            machine: Run { orch, step: RunStep::Proxy { place, proxy: machine } },
        },
        Next::Done(_) => unreached(),
    }
}

fn seek_worktree<'a>(orch: VmOrchestrator<'a>, place: Place) -> (next: Next<Run<'a>, SpawnResult>)
    ensures
        seeks_worktree(orch, place, next),
{
    match orch.ensure_worktree(
        place.repo_root.clone(),
        place.branch.clone(),
        place.repo_name.clone(),
    ) {
        Next::Ask { status: _, call, machine } => Next::Ask {
            status: Some("Preparing worktree...".to_string()),
            call,
            machine: Run { orch, step: RunStep::Worktree { place, search: machine } },
        },
        Next::Done(_) => unreached(),
    }
}

fn seek_machine<'a>(orch: VmOrchestrator<'a>, place: Place, worktree_path: String) -> (next: Next<
    Run<'a>,
    SpawnResult,
>)
    ensures
        seeks_machine(orch, place, worktree_path, next),
        next->machine.awaits() == next->call.kind(),
{
    let Place { branch, repo_name, repo_root } = place;
    match orch.spawn(branch.clone(), repo_name, worktree_path, repo_root.clone()) {
        Next::Ask { status: _, call, machine } => Next::Ask {
            status: Some("Spawning VM...".to_string()),
            call,
            machine: Run { orch, step: RunStep::Spawning { branch, repo_root, spawn: machine } },
        },
        Next::Done(_) => unreached(),
    }
}

fn hand_over<'a>(orch: VmOrchestrator<'a>, result: SpawnResult) -> (next: Next<
    Run<'a>,
    SpawnResult,
>)
    ensures
        next == hands_over(orch, result),
{
    if orch.interactive {
        Next::Ask {
            status: None,
            call: Call::SshConnect { ip: result.ip(), user: orch.config.ssh_user.clone() },
            machine: Run { orch, step: RunStep::Connecting { result } },
        }
    } else {
        Next::Done(Ok(result))
    }
}

impl<'a> Machine for Run<'a> {
    type Output = SpawnResult;

    open spec fn awaits(&self) -> Kind {
        match self.step {
            RunStep::Branch { query, .. } => query.awaits(),
            RunStep::Repo { query, .. } => query.awaits(),
            RunStep::Proxy { proxy, .. } => proxy.awaits(),
            RunStep::Worktree { search, .. } => search.awaits(),
            RunStep::Spawning { spawn, .. } => spawn.awaits(),
            RunStep::Provisioning { .. } => Kind::Unit,
            RunStep::Connecting { .. } => Kind::Unit,
        }
    }

    open spec fn transition(self, reply: Reply, next: Next<Self, SpawnResult>) -> bool {
        let orch = self.orch;
        match self.step {
            RunStep::Branch { cwd, .. } => match reply->Text_0 {
                Ok(branch) => seeks_repo(orch, branch, cwd, next) && next->status is None,
                Err(e) => next == Next::<Self, SpawnResult>::Done(Err(e)),
            },
            RunStep::Repo { branch, .. } => match reply->Text_0 {
                Ok(repo_root) => exists|repo_name: String|
                    {
                        let place = Place { branch, repo_name, repo_root };
                        &&& #[trigger] repo_name@ == repo_name_of(repo_root@)
                        &&& if orch.config.credential_proxy {
                            seeks_proxy(orch, place, next)
                        } else {
                            seeks_worktree(orch, place, next)
                        }
                    },
                Err(e) => next == Next::<Self, SpawnResult>::Done(Err(e)),
            },
            RunStep::Proxy { place, proxy } => exists|inner: Next<EnsureProxy<'a>, ()>|
                {
                    &&& #[trigger] proxy.transition(reply, inner)
                    &&& follows_proxy(orch, place, inner, next)
                },
            RunStep::Worktree { place, search } => exists|inner: Next<EnsureWorktree<'a>, String>|
                {
                    &&& #[trigger] search.transition(reply, inner)
                    &&& follows_worktree(orch, place, inner, next)
                },
            RunStep::Spawning { branch, repo_root, spawn } => exists|
                inner: Next<Spawn<'a>, SpawnResult>,
            |
                {
                    &&& #[trigger] spawn.transition(reply, inner)
                    &&& follows_spawn(orch, branch, repo_root, inner, next)
                },
            RunStep::Provisioning { result } => match reply->Unit_0 {
                Ok(_) => next == hands_over(orch, result),
                Err(e) => next == Next::<Self, SpawnResult>::Done(Err(e)),
            },
            RunStep::Connecting { result } => match reply->Unit_0 {
                Ok(_) => next == Next::<Self, SpawnResult>::Done(Ok(result)),
                Err(e) => next == Next::<Self, SpawnResult>::Done(Err(e)),
            },
        }
    }

    fn resume(self, reply: Reply) -> (next: Next<Self, SpawnResult>) {
        let Run { orch, step } = self;
        match (step, reply) {
            (RunStep::Branch { cwd, query }, reply) => match query.resume(reply) {
                Next::Done(Ok(branch)) => seek_repo(orch, None, branch, cwd),
                Next::Done(Err(e)) => Next::Done(Err(e)),
                Next::Ask { .. } => unreached(),
            },
            (RunStep::Repo { branch, query }, reply) => match query.resume(reply) {
                Next::Done(Ok((repo_name, repo_root))) => {
                    let ghost name = repo_name;
                    assert(name@ == repo_name_of(repo_root@));
                    let place = Place { branch, repo_name, repo_root };
                    if orch.config.credential_proxy {
                        seek_proxy(orch, place)
                    } else {
                        seek_worktree(orch, place)
                    }
                },
                Next::Done(Err(e)) => Next::Done(Err(e)),
                Next::Ask { .. } => unreached(),
            },
            (RunStep::Proxy { place, proxy }, reply) => {
                let ghost waiting = proxy;
                let ghost got = reply;
                let ghost spot = place;
                let inner = proxy.resume(reply);
                let ghost inside = inner;
                let next = match inner {
                    Next::Ask { status, call, machine } => Next::Ask {
                        status,
                        call,
                        machine: Run { orch, step: RunStep::Proxy { place, proxy: machine } },
                    },
                    Next::Done(Ok(_)) => seek_worktree(orch, place),
                    Next::Done(Err(e)) => Next::Done(Err(e)),
                };
                assert(waiting.transition(got, inside));
                assert(follows_proxy(orch, spot, inside, next));
                next
            },
            (RunStep::Worktree { place, search }, reply) => {
                let ghost waiting = search;
                let ghost got = reply;
                let ghost spot = place;
                let inner = search.resume(reply);
                let ghost inside = inner;
                let next = match inner {
                    Next::Ask { status, call, machine } => Next::Ask {
                        status,
                        call,
                        machine: Run { orch, step: RunStep::Worktree { place, search: machine } },
                    },
                    Next::Done(Ok(path)) => seek_machine(orch, place, path),
                    Next::Done(Err(e)) => Next::Done(Err(e)),
                };
                assert(waiting.transition(got, inside));
                assert(follows_worktree(orch, spot, inside, next));
                next
            },
            (RunStep::Spawning { branch, repo_root, spawn }, reply) => {
                let ghost waiting = spawn;
                let ghost got = reply;
                let ghost wanted = branch;
                let ghost root = repo_root;
                let inner = spawn.resume(reply);
                let ghost inside = inner;
                let next = match inner {
                    Next::Ask { status, call, machine } => Next::Ask {
                        status,
                        call,
                        machine: Run {
                            orch,
                            step: RunStep::Spawning { branch, repo_root, spawn: machine },
                        },
                    },
                    Next::Done(Ok(SpawnResult::Created { name, ip })) => Next::Ask {
                        status: Some("Provisioning VM...".to_string()),
                        call: Call::Provision {
                            ip: ip.duplicate(),
                            vm_name: name.clone(),
                            branch,
                            repo_root,
                            config: orch.config.duplicate(),
                        },
                        machine: Run {
                            orch,
                            step: RunStep::Provisioning {
                                result: SpawnResult::Created { name, ip },
                            },
                        },
                    },
                    Next::Done(Ok(result)) => hand_over(orch, result),
                    Next::Done(Err(e)) => Next::Done(Err(e)),
                };
                assert(waiting.transition(got, inside));
                assert(follows_spawn(orch, wanted, root, inside, next));
                next
            },
            (RunStep::Provisioning { result }, Reply::Unit(provisioned)) => match provisioned {
                Ok(_) => hand_over(orch, result),
                Err(e) => Next::Done(Err(e)),
            },
            (RunStep::Connecting { result }, Reply::Unit(closed)) => match closed {
                Ok(_) => Next::Done(Ok(result)),
                Err(e) => Next::Done(Err(e)),
            },
            _ => unreached(),
        }
    }
}

/// Whether `next` is the beginning of the procedure: the branch is resolved, unless it is given,
/// and then the repository.
pub open spec fn run_begins<'a>(
    next: Next<Run<'a>, SpawnResult>,
    branch: Option<String>,
    cwd: String,
    config: &'a Config,
    interactive: bool,
) -> bool {
    let orch = VmOrchestrator { config, interactive };
    next is Ask && shows(next->status, "Resolving branch..."@) && match branch {
        Some(branch) => seeks_repo(orch, branch, cwd, next),
        None => next->call == Call::GitCurrentBranch { cwd } && next->machine == (Run {
            orch,
            step: RunStep::Branch { cwd, query: BranchQuery },
        }),
    }
}

/// Starts the procedure.
pub fn run<'a>(branch: Option<String>, cwd: String, config: &'a Config, interactive: bool) -> (next:
    Next<Run<'a>, SpawnResult>)
    ensures
        run_begins(next, branch, cwd, config, interactive),
{
    let orch = VmOrchestrator::new(config, interactive);
    let status = Some("Resolving branch...".to_string());
    match orch.resolve_branch(branch, cwd.clone()) {
        Next::Ask { status: _, call, machine } => Next::Ask {
            status,
            call,
            machine: Run { orch, step: RunStep::Branch { cwd, query: machine } },
        },
        Next::Done(Ok(branch)) => seek_repo(orch, status, branch, cwd),
        Next::Done(Err(e)) => Next::Done(Err(e)),
    }
}

/// The stages of the procedure, in order.
pub open spec fn stage<'a>(step: RunStep<'a>) -> int {
    match step {
        RunStep::Branch { .. } => 0,
        RunStep::Repo { .. } => 1,
        RunStep::Proxy { .. } => 2,
        RunStep::Worktree { .. } => 3,
        RunStep::Spawning { .. } => 4,
        RunStep::Provisioning { .. } => 5,
        RunStep::Connecting { .. } => 6,
    }
}

/// Whether a machine was set up by the call of the given number.
pub open spec fn provisioned_at<'a>(
    settings: Config,
    replies: Seq<Reply>,
    trail: Seq<Next<Run<'a>, SpawnResult>>,
    result: SpawnResult,
    j: int,
) -> bool {
    &&& trail[j] is Ask
    &&& trail[j]->call matches Call::Provision { ip, vm_name, config, .. }
    &&& ip == result.spec_ip()
    &&& vm_name == result.spec_name()
    &&& same_settings(config, settings)
    &&& replies[j] matches Reply::Unit(Ok(_))
}

/// Whether the proxy was looked for by the call of the given number.
pub open spec fn looked_at<'a>(
    config: Config,
    trail: Seq<Next<Run<'a>, SpawnResult>>,
    j: int,
) -> bool {
    &&& trail[j] is Ask
    &&& trail[j]->call == Call::ProxyReachable {
        bind: config.credential_proxy_bind,
        port: config.credential_proxy_port,
    }
}

/// Whether the proxy was looked for before call `i`, if it is wanted.
spec fn looked_before<'a>(
    config: Config,
    trail: Seq<Next<Run<'a>, SpawnResult>>,
    i: int,
) -> bool {
    config.credential_proxy ==> exists|j: int| 0 <= j < i && #[trigger] looked_at(config, trail, j)
}

/// What holds of every procedure that waits in a run.
spec fn on_course<'a>(
    orch: VmOrchestrator<'a>,
    replies: Seq<Reply>,
    trail: Seq<Next<Run<'a>, SpawnResult>>,
    i: int,
) -> bool {
    trail[i] matches Next::Ask { call, machine, .. } ==> {
        &&& machine.orch == orch
        &&& match machine.step {
            RunStep::Branch { .. } => call is GitCurrentBranch,
            RunStep::Repo { .. } => call is GitFindRepoRoot,
            RunStep::Proxy { .. } => {
                &&& orch.config.credential_proxy
                &&& looked_before(*orch.config, trail, i + 1)
                &&& {
                    ||| call is ProxyReachable
                    ||| call is CurrentExe
                    ||| call is SpawnDetached
                    ||| call is Clock
                    ||| call is Sleep
                }
            },
            RunStep::Worktree { .. } => {
                &&& looked_before(*orch.config, trail, i)
                &&& call is GitListWorktrees || call is GitCreateWorktree
            },
            RunStep::Spawning { .. } => {
                &&& looked_before(*orch.config, trail, i)
                &&& is_spawn_call(call)
            },
            RunStep::Provisioning { result } => {
                &&& looked_before(*orch.config, trail, i)
                &&& result is Created
                &&& call matches Call::Provision { ip, vm_name, config, .. }
                &&& ip == result.spec_ip()
                &&& vm_name == result.spec_name()
                &&& same_settings(config, *orch.config)
            },
            RunStep::Connecting { result } => {
                &&& looked_before(*orch.config, trail, i)
                &&& orch.interactive
                &&& call == Call::SshConnect { ip: result.spec_ip(), user: orch.config.ssh_user }
                &&& result is Created ==> i > 0 && provisioned_at(
                    *orch.config,
                    replies,
                    trail,
                    result,
                    i - 1,
                )
            },
        }
    }
}

proof fn lemma_looked_later<'a>(config: Config, trail: Seq<Next<Run<'a>, SpawnResult>>, i: int)
    requires
        looked_before(config, trail, i),
    ensures
        looked_before(config, trail, i + 1),
{
    if config.credential_proxy {
        let j = choose|j: int| 0 <= j < i && #[trigger] looked_at(config, trail, j);
        assert(looked_at(config, trail, j));
    }
}

/// Whether `first` is the beginning of the procedure.
pub open spec fn begins<'a>(first: Next<Run<'a>, SpawnResult>) -> bool {
    exists|branch: Option<String>, cwd: String|
        #[trigger] run_begins(
            first,
            branch,
            cwd,
            first->machine.orch.config,
            first->machine.orch.interactive,
        )
}

proof fn lemma_on_course<'a>(
    first: Next<Run<'a>, SpawnResult>,
    replies: Seq<Reply>,
    trail: Seq<Next<Run<'a>, SpawnResult>>,
    i: int,
)
    requires
        begins(first),
        is_run(first, replies, trail),
        0 <= i <= replies.len(),
    ensures
        on_course(first->machine.orch, replies, trail, i),
        i > 0 && trail[i] is Ask ==> stage(trail[i]->machine.step) >= stage(
            trail[i - 1]->machine.step,
        ),
    decreases i,
{
    let orch = first->machine.orch;
    if i > 0 {
        lemma_on_course(first, replies, trail, i - 1);
        assert(goes_on_at(replies, trail, i - 1));
        let before = trail[i - 1]->machine;
        let reply = replies[i - 1];
        let next = trail[i];
        match before.step {
            RunStep::Repo { .. } => {
                if next is Ask && next->machine.step is Proxy {
                    assert(looked_at(*orch.config, trail, i));
                }
            },
            RunStep::Proxy { place, proxy } => {
                let inner = choose|inner: Next<EnsureProxy<'a>, ()>|
                    {
                        &&& #[trigger] proxy.transition(reply, inner)
                        &&& follows_proxy(orch, place, inner, next)
                    };
                assert(proxy.transition(reply, inner));
                lemma_looked_later(*orch.config, trail, i);
            },
            RunStep::Worktree { place, search } => {
                let inner = choose|inner: Next<EnsureWorktree<'a>, String>|
                    {
                        &&& #[trigger] search.transition(reply, inner)
                        &&& follows_worktree(orch, place, inner, next)
                    };
                assert(search.transition(reply, inner));
                lemma_looked_later(*orch.config, trail, i - 1);
            },
            RunStep::Spawning { branch, repo_root, spawn } => {
                let inner = choose|inner: Next<Spawn<'a>, SpawnResult>|
                    {
                        &&& #[trigger] spawn.transition(reply, inner)
                        &&& follows_spawn(orch, branch, repo_root, inner, next)
                    };
                if inner is Ask {
                    law_a_spawn_keeps_to_its_calls(spawn, reply, inner);
                }
                lemma_looked_later(*orch.config, trail, i - 1);
            },
            RunStep::Provisioning { .. } => {
                lemma_looked_later(*orch.config, trail, i - 1);
            },
            _ => {},
        }
    }
}

/// The stages come in order: branch, repository, proxy, worktree, machine, setup, session. What
/// fails ends the procedure, so that no later stage is begun.
pub proof fn law_stages_come_in_order<'a>(
    first: Next<Run<'a>, SpawnResult>,
    replies: Seq<Reply>,
    trail: Seq<Next<Run<'a>, SpawnResult>>,
    i: int,
)
    requires
        begins(first),
        is_run(first, replies, trail),
        0 <= i < replies.len(),
        trail[i + 1] is Ask,
    ensures
        stage(trail[i]->machine.step) <= stage(trail[i + 1]->machine.step),
{
    lemma_on_course(first, replies, trail, i + 1);
}

/// No git worktree is touched and `tart` is not run before the credential proxy was looked for, if
/// it is wanted. If it is not wanted, it is neither looked for nor started.
pub proof fn law_the_proxy_comes_first<'a>(
    first: Next<Run<'a>, SpawnResult>,
    replies: Seq<Reply>,
    trail: Seq<Next<Run<'a>, SpawnResult>>,
    i: int,
)
    requires
        begins(first),
        is_run(first, replies, trail),
        0 <= i <= replies.len(),
        trail[i] is Ask,
    ensures
        first->machine.orch.config.credential_proxy && (trail[i]->call is Tart
            || trail[i]->call is GitListWorktrees || trail[i]->call is GitCreateWorktree)
            ==> exists|j: int|
            0 <= j < i && #[trigger] looked_at(*first->machine.orch.config, trail, j),
        !first->machine.orch.config.credential_proxy ==> !(trail[i]->call is ProxyReachable)
            && !(trail[i]->call is SpawnDetached),
{
    lemma_on_course(first, replies, trail, i);
}

/// In a procedure that ends well a machine was set up if and only if it is new. It was set up
/// under its name, at its address, and with the settings of the procedure.
pub proof fn law_new_machines_are_set_up<'a>(
    first: Next<Run<'a>, SpawnResult>,
    replies: Seq<Reply>,
    trail: Seq<Next<Run<'a>, SpawnResult>>,
    result: SpawnResult,
)
    requires
        begins(first),
        is_run(first, replies, trail),
        trail.last() == Next::<Run<'a>, SpawnResult>::Done(Ok(result)),
    ensures
        result is Created ==> exists|j: int|
            0 <= j < replies.len() && #[trigger] provisioned_at(
                *first->machine.orch.config,
                replies,
                trail,
                result,
                j,
            ),
        !(result is Created) ==> forall|j: int|
            0 <= j < replies.len() ==> (#[trigger] trail[j]) is Ask && !(trail[j]->call is Provision),
{
    let n = replies.len() as int;
    assert(trail[n] == trail.last());
    lemma_last_step(first, replies, trail, result);
    lemma_on_course(first, replies, trail, n - 1);
    assert(goes_on_at(replies, trail, n - 1));
    let last = trail[n - 1]->machine;
    let settings = *first->machine.orch.config;
    if result is Created {
        if last.step is Provisioning {
            assert(provisioned_at(settings, replies, trail, result, n - 1));
        } else {
            assert(provisioned_at(settings, replies, trail, result, n - 2));
        }
    } else {
        assert forall|j: int| 0 <= j < replies.len() implies (#[trigger] trail[j]) is Ask && !(
        trail[j]->call is Provision) by {
            lemma_on_course(first, replies, trail, j);
            assert(goes_on_at(replies, trail, j));
            if trail[j]->machine.step is Provisioning {
                lemma_on_course(first, replies, trail, j + 1);
                if j + 1 < n {
                    assert(goes_on_at(replies, trail, j + 1));
                    if j + 2 < n {
                        assert(goes_on_at(replies, trail, j + 2));
                    }
                }
            }
        }
    }
}

/// A procedure that ends well ends with a session, a setup or a spawn.
proof fn lemma_last_step<'a>(
    first: Next<Run<'a>, SpawnResult>,
    replies: Seq<Reply>,
    trail: Seq<Next<Run<'a>, SpawnResult>>,
    result: SpawnResult,
)
    requires
        begins(first),
        is_run(first, replies, trail),
        trail.last() == Next::<Run<'a>, SpawnResult>::Done(Ok(result)),
    ensures
        replies.len() > 0,
        ({
            let last = trail[replies.len() - 1]->machine;
            let orch = first->machine.orch;
            match last.step {
                RunStep::Spawning { .. } => !orch.interactive && !(result is Created),
                RunStep::Provisioning { result: held } => !orch.interactive && held == result
                    && replies.last() matches Reply::Unit(Ok(_)),
                RunStep::Connecting { result: held } => orch.interactive && held == result
                    && replies.last() matches Reply::Unit(Ok(_)),
                _ => false,
            }
        }),
{
    let n = replies.len() as int;
    assert(trail[n] == trail.last());
    if n > 0 {
        lemma_on_course(first, replies, trail, n - 1);
        assert(goes_on_at(replies, trail, n - 1));
        assert(replies[n - 1] == replies.last());
        let before = trail[n - 1]->machine;
        let reply = replies[n - 1];
        let orch = first->machine.orch;
        match before.step {
            RunStep::Proxy { place, proxy } => {
                let inner = choose|inner: Next<EnsureProxy<'a>, ()>|
                    {
                        &&& #[trigger] proxy.transition(reply, inner)
                        &&& follows_proxy(orch, place, inner, trail[n])
                    };
                assert(proxy.transition(reply, inner));
            },
            RunStep::Worktree { place, search } => {
                let inner = choose|inner: Next<EnsureWorktree<'a>, String>|
                    {
                        &&& #[trigger] search.transition(reply, inner)
                        &&& follows_worktree(orch, place, inner, trail[n])
                    };
                assert(search.transition(reply, inner));
            },
            RunStep::Spawning { branch, repo_root, spawn } => {
                let inner = choose|inner: Next<Spawn<'a>, SpawnResult>|
                    {
                        &&& #[trigger] spawn.transition(reply, inner)
                        &&& follows_spawn(orch, branch, repo_root, inner, trail[n])
                    };
                assert(spawn.transition(reply, inner));
            },
            _ => {},
        }
    }
}

/// The terminal is handed over if and only if there is a user, at the end, to the machine that the
/// procedure gives, as the user of the settings.
pub proof fn law_users_are_connected<'a>(
    first: Next<Run<'a>, SpawnResult>,
    replies: Seq<Reply>,
    trail: Seq<Next<Run<'a>, SpawnResult>>,
    result: SpawnResult,
)
    requires
        begins(first),
        is_run(first, replies, trail),
        trail.last() == Next::<Run<'a>, SpawnResult>::Done(Ok(result)),
    ensures
        first->machine.orch.interactive ==> {
            &&& trail[trail.len() - 2]->call == Call::SshConnect {
                ip: result.spec_ip(),
                user: first->machine.orch.config.ssh_user,
            }
            &&& replies.last() matches Reply::Unit(Ok(_))
        },
        !first->machine.orch.interactive ==> forall|j: int|
            0 <= j < replies.len() ==> (#[trigger] trail[j]) is Ask && !(
            trail[j]->call is SshConnect),
{
    let n = replies.len() as int;
    lemma_last_step(first, replies, trail, result);
    lemma_on_course(first, replies, trail, n - 1);
    assert(goes_on_at(replies, trail, n - 1));
    if !first->machine.orch.interactive {
        assert forall|j: int| 0 <= j < replies.len() implies (#[trigger] trail[j]) is Ask && !(
        trail[j]->call is SshConnect) by {
            lemma_on_course(first, replies, trail, j);
            assert(goes_on_at(replies, trail, j));
        }
    }
}

/// The procedure is made of its stages alone: it asks for no subcommand to be carried out.
pub proof fn law_a_run_is_no_subcommand<'a>(
    run: Run<'a>,
    reply: Reply,
    next: Next<Run<'a>, SpawnResult>,
)
    requires
        run.transition(reply, next),
        next is Ask,
    ensures
        !(next->call is Subcommand),
{
    let orch = run.orch;
    match run.step {
        RunStep::Proxy { place, proxy } => {
            let inner = choose|inner: Next<EnsureProxy<'a>, ()>|
                {
                    &&& #[trigger] proxy.transition(reply, inner)
                    &&& follows_proxy(orch, place, inner, next)
                };
            assert(proxy.transition(reply, inner));
        },
        RunStep::Worktree { place, search } => {
            let inner = choose|inner: Next<EnsureWorktree<'a>, String>|
                {
                    &&& #[trigger] search.transition(reply, inner)
                    &&& follows_worktree(orch, place, inner, next)
                };
            assert(search.transition(reply, inner));
        },
        RunStep::Spawning { branch, repo_root, spawn } => {
            let inner = choose|inner: Next<Spawn<'a>, SpawnResult>|
                {
                    &&& #[trigger] spawn.transition(reply, inner)
                    &&& follows_spawn(orch, branch, repo_root, inner, next)
                };
            if inner is Ask {
                law_a_spawn_keeps_to_its_calls(spawn, reply, inner);
            }
        },
        _ => {},
    }
}

} // verus!
