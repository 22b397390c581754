//! Spawning a machine, or connecting to the one that is there.

use vstd::pervasive::unreached;
use vstd::prelude::*;
use vstd::string::StringExecFns;

use super::boot::{wait_for_boot, Boot, BootConfig, BootStep};
use super::mounts::{are_candidates, are_run_opts, build_run_opts, candidate_mounts};
use super::{SpawnResult, VmOrchestrator};
use crate::config::Config;
use crate::effect::{goes_on_at, is_run, Call, IpAddr, Kind, Machine, Next, Reply};
use crate::error::TachikomaError;
use crate::os_path::path_text;
use crate::state::{
    first_named, is_clock_time, known, law_a_sighting_is_found_again, law_a_sighting_keeps_names_apart,
    law_a_sighting_leaves_other_machines, names_differ, recorded, Sighting, State, Timestamp,
    VmStatus,
};
use crate::system::{home_dir, utc_now};
use crate::tart::types::{find_state, listed_state, DirMount, TartVmState};
use crate::tart::TartCommand;
use crate::text::optional_text;

verus! {

/// The machine that is wanted, and what it is for.
pub struct Job {
    pub vm_name: String,
    pub repo_name: String,
    pub branch: String,
    pub worktree_path: String,
    pub repo_root: String,
}

/// What is done to get at a machine.
#[derive(Debug, Clone, Copy, PartialEq, Eq, Structural)]
pub enum Fate {
    Reconnect,
    Resume,
    Start,
    Create,
}

/// What the spawn waits for at the moment.
pub enum SpawnStep {
    /// The machines that there are.
    Listing,
    /// The address of the running machine.
    Ip,
    /// Whether the running machine can be logged in to.
    Connection { ip: IpAddr },
    /// The new machine.
    Cloning,
    /// Which of the directories to mount exist.
    Probing { fate: Fate, candidates: Vec<DirMount> },
    /// The start of the machine.
    Starting { fate: Fate },
    /// The boot of the machine.
    Booting { fate: Fate, boot: Boot },
    /// The end of a new machine that did not boot.
    Stopping { error: TachikomaError },
    /// The remembered machines.
    Loading { fate: Fate, ip: IpAddr },
    /// The remembered machines, written back.
    Saving { fate: Fate, ip: IpAddr },
}

/// A spawn.
pub struct Spawn<'a> {
    pub orch: VmOrchestrator<'a>,
    pub job: Job,
    pub step: SpawnStep,
}

/// How a boot is waited for. Without a user at the terminal an address is enough.
pub open spec fn boot_config_of(config: Config, interactive: bool) -> BootConfig {
    BootConfig {
        initial_delay: 500_000_000,
        max_interval: 5_000_000_000,
        timeout: (config.boot_timeout_secs * 1_000_000_000) as u128,
        ssh_user: config.ssh_user,
        skip_ssh_check: !interactive,
    }
}

/// The result of a spawn that ended well.
pub open spec fn result_of(fate: Fate, name: String, ip: IpAddr) -> SpawnResult {
    match fate {
        Fate::Reconnect => SpawnResult::Reconnected { name, ip },
        Fate::Resume => SpawnResult::Resumed { name, ip },
        Fate::Start => SpawnResult::Started { name, ip },
        Fate::Create => SpawnResult::Created { name, ip },
    }
}

/// Whether `paths` are the paths of the candidates.
pub open spec fn paths_of(paths: Seq<String>, candidates: Seq<DirMount>) -> bool {
    &&& paths.len() == candidates.len()
    &&& forall|i: int| 0 <= i < paths.len() ==> #[trigger] paths[i] == candidates[i].host_path
}

/// Whether this is what a spawn has seen of its machine once it runs at the given address.
pub open spec fn is_sighting(seen: Sighting, job: Job, ip: IpAddr) -> bool {
    &&& seen.name == job.vm_name
    &&& seen.repo == job.repo_name
    &&& seen.branch == job.branch
    &&& seen.worktree_path == job.worktree_path
    &&& seen.status == VmStatus::Running
    &&& seen.ip == Some(ip.text)
}

/// Whether a running machine is remembered in `saved`, at the given address and with the given
/// times. Everything else is remembered as in `loaded`.
pub open spec fn remembers_at(
    job: Job,
    ip: IpAddr,
    created_at: Timestamp,
    last_used: Timestamp,
    loaded: State,
    saved: State,
) -> bool {
    exists|seen: Sighting|
        #![trigger recorded(loaded.vms@, seen, created_at, last_used, saved.vms@)]
        recorded(loaded.vms@, seen, created_at, last_used, saved.vms@) && is_sighting(seen, job, ip)
}

/// Whether a running machine is remembered in `saved`, at the given address, with times that a
/// clock showed. Everything else is remembered as in `loaded`.
pub open spec fn remembers(job: Job, ip: IpAddr, loaded: State, saved: State) -> bool {
    exists|created_at: Timestamp, last_used: Timestamp|
        {
            &&& #[trigger] remembers_at(job, ip, created_at, last_used, loaded, saved)
            &&& is_clock_time(created_at)
            &&& is_clock_time(last_used)
        }
}

impl<'a> Spawn<'a> {
    /// Whether the spawn goes on with the given status and call, and then waits for `step`.
    pub open spec fn asks(
        self,
        next: Next<Self, SpawnResult>,
        status: Option<Seq<char>>,
        call: Call,
        step: SpawnStep,
    ) -> bool {
        next matches Next::Ask { status: shown, call: made, machine } && {
            &&& optional_text(shown) == status
            &&& made == call
            &&& machine == (Spawn { orch: self.orch, job: self.job, step })
        }
    }

    /// Whether the spawn goes on to look which directories exist that the machine may see, of a
    /// user with the given home directory.
    pub open spec fn asks_for_paths_in(
        self,
        next: Next<Self, SpawnResult>,
        status: Option<Seq<char>>,
        fate: Fate,
        home: Option<String>,
    ) -> bool {
        next matches Next::Ask { status: shown, call: Call::PathsExist(paths), machine } && {
            &&& optional_text(shown) == status
            &&& machine.orch == self.orch
            &&& machine.job == self.job
            &&& machine.step matches SpawnStep::Probing { fate: held, candidates }
            &&& held == fate
            &&& paths_of(paths@, candidates@)
            &&& are_candidates(candidates@, *self.orch.config, self.job.repo_root@, home)
        }
    }

    /// Whether the spawn goes on to look which directories exist that the machine may see.
    pub open spec fn asks_for_paths(
        self,
        next: Next<Self, SpawnResult>,
        status: Option<Seq<char>>,
        fate: Fate,
    ) -> bool {
        exists|home: Option<String>| #[trigger] self.asks_for_paths_in(next, status, fate, home)
    }

    /// Whether the spawn goes on to wait for the boot.
    pub open spec fn asks_for_boot(
        self,
        next: Next<Self, SpawnResult>,
        status: Option<Seq<char>>,
        fate: Fate,
    ) -> bool {
        self.asks(
            next,
            status,
            Call::Clock,
            SpawnStep::Booting {
                fate,
                boot: Boot {
                    vm_name: self.job.vm_name,
                    config: boot_config_of(*self.orch.config, self.orch.interactive),
                    step: BootStep::Starting,
                },
            },
        )
    }

    /// How the spawn goes on as the wait for the boot does.
    pub open spec fn follows_boot(
        self,
        next: Next<Self, SpawnResult>,
        fate: Fate,
        boot: Next<Boot, IpAddr>,
    ) -> bool {
        match boot {
            Next::Ask { status, call, machine } => next == (Next::<Self, SpawnResult>::Ask {
                status,
                call,
                machine: Spawn {
                    orch: self.orch,
                    job: self.job,
                    step: SpawnStep::Booting { fate, boot: machine },
                },
            }),
            Next::Done(Ok(ip)) => self.asks(
                next,
                None,
                Call::LoadState,
                SpawnStep::Loading { fate, ip },
            ),
            Next::Done(Err(error)) => if fate == Fate::Create {
                self.asks(
                    next,
                    None,
                    Call::Tart(TartCommand::Stop { name: self.job.vm_name }),
                    SpawnStep::Stopping { error },
                )
            } else {
                next == Next::<Self, SpawnResult>::Done(Err(error))
            },
        }
    }
}

/// The address that stands for a machine whose own one is not waited for.
pub open spec fn is_localhost(ip: IpAddr) -> bool {
    ip.text@ == "127.0.0.1"@
}

fn ask<'a>(
    orch: VmOrchestrator<'a>,
    job: Job,
    status: Option<String>,
    call: Call,
    step: SpawnStep,
) -> (next: Next<Spawn<'a>, SpawnResult>)
    ensures
        next == (Next::<Spawn<'a>, SpawnResult>::Ask {
            status,
            call,
            machine: Spawn { orch, job, step },
        }),
{
    Next::Ask { status, call, machine: Spawn { orch, job, step } }
}

/// Goes on to look which directories exist that the machine may see, of a user with the given home
/// directory.
pub fn ask_for_paths_in<'a>(
    orch: VmOrchestrator<'a>,
    job: Job,
    status: Option<String>,
    fate: Fate,
    home: Option<String>,
) -> (next: Next<Spawn<'a>, SpawnResult>)
    ensures
        forall|step: SpawnStep|
            #[trigger] (Spawn { orch, job, step }).asks_for_paths_in(
                next,
                optional_text(status),
                fate,
                home,
            ),
        next->machine.awaits() == next->call.kind(),
{
    let candidates = candidate_mounts(orch.config, job.repo_root.as_str(), &home);
    let mut paths: Vec<String> = Vec::new();
    let mut i: usize = 0;
    while i < candidates.len()
        invariant
            i <= candidates.len(),
            paths.len() == i,
            forall|j: int| 0 <= j < i ==> #[trigger] paths@[j] == candidates@[j].host_path,
        decreases candidates.len() - i,
    {
        paths.push(candidates[i].host_path.clone());
        i += 1;
    }
    ask(orch, job, status, Call::PathsExist(paths), SpawnStep::Probing { fate, candidates })
}

fn ask_for_paths<'a>(
    orch: VmOrchestrator<'a>,
    job: Job,
    status: Option<String>,
    fate: Fate,
) -> (next: Next<Spawn<'a>, SpawnResult>)
    ensures
        forall|step: SpawnStep|
            #[trigger] (Spawn { orch, job, step }).asks_for_paths(next, optional_text(status), fate),
        next->machine.awaits() == next->call.kind(),
{
    let home = match home_dir() {
        Some(bytes) => Some(path_text(&bytes)),
        None => None,
    };
    let ghost dir = home;
    let ghost text = optional_text(status);
    let next = ask_for_paths_in(orch, job, status, fate, home);
    assert forall|step: SpawnStep|
        #[trigger] (Spawn { orch, job, step }).asks_for_paths(next, text, fate) by {
        assert((Spawn { orch, job, step }).asks_for_paths_in(next, text, fate, dir));
    }
    next
}

fn ask_for_boot<'a>(
    orch: VmOrchestrator<'a>,
    job: Job,
    status: Option<String>,
    fate: Fate,
) -> (next: Next<Spawn<'a>, SpawnResult>)
    ensures
        forall|step: SpawnStep|
            #[trigger] (Spawn { orch, job, step }).asks_for_boot(next, optional_text(status), fate),
        next->machine.awaits() == next->call.kind(),
{
    let config = BootConfig {
        initial_delay: 500_000_000,
        max_interval: 5_000_000_000,
        timeout: (orch.config.boot_timeout_secs as u128) * 1_000_000_000,
        ssh_user: orch.config.ssh_user.clone(),
        skip_ssh_check: !orch.interactive,
    };
    match wait_for_boot(job.vm_name.clone(), config) {
        Next::Ask { status: _, call, machine } => ask(
            orch,
            job,
            status,
            call,
            SpawnStep::Booting { fate, boot: machine },
        ),
        Next::Done(_) => unreached(),
    }
}

fn make_result(fate: Fate, name: String, ip: IpAddr) -> (result: SpawnResult)
    ensures
        result == result_of(fate, name, ip),
{
    match fate {
        Fate::Reconnect => SpawnResult::Reconnected { name, ip },
        Fate::Resume => SpawnResult::Resumed { name, ip },
        Fate::Start => SpawnResult::Started { name, ip },
        Fate::Create => SpawnResult::Created { name, ip },
    }
}

/// Records that a machine runs at an address, and when it was seen: for the first time if it is
/// new, and for the last time.
pub fn remember_at(
    job: &Job,
    ip: &IpAddr,
    created_at: Timestamp,
    last_used: Timestamp,
    state: State,
) -> (saved: State)
    ensures
        remembers_at(*job, *ip, created_at, last_used, state, saved),
{
    let ghost loaded = state;
    let mut state = state;
    let seen = Sighting {
        name: job.vm_name.clone(),
        repo: job.repo_name.clone(),
        branch: job.branch.clone(),
        worktree_path: job.worktree_path.clone(),
        status: VmStatus::Running,
        ip: Some(ip.text.clone()),
    };
    let ghost noted = seen;
    state.record(seen, created_at, last_used);
    assert(recorded(loaded.vms@, noted, created_at, last_used, state.vms@));
    state
}

fn remember(job: &Job, ip: &IpAddr, state: State) -> (saved: State)
    ensures
        remembers(*job, *ip, state, saved),
{
    let created_at = utc_now();
    let last_used = utc_now();
    remember_at(job, ip, created_at, last_used, state)
}

impl<'a> Machine for Spawn<'a> {
    type Output = SpawnResult;

    open spec fn awaits(&self) -> Kind {
        match self.step {
            SpawnStep::Listing => Kind::Vms,
            SpawnStep::Ip => Kind::Ip,
            SpawnStep::Connection { .. } => Kind::Flag,
            SpawnStep::Cloning => Kind::Unit,
            SpawnStep::Probing { candidates, .. } => Kind::Presence(candidates.len()),
            SpawnStep::Starting { .. } => Kind::Unit,
            SpawnStep::Booting { boot, .. } => boot.awaits(),
            SpawnStep::Stopping { .. } => Kind::Unit,
            SpawnStep::Loading { .. } => Kind::Loaded,
            SpawnStep::Saving { .. } => Kind::Unit,
        }
    }

    open spec fn transition(self, reply: Reply, next: Next<Self, SpawnResult>) -> bool {
        let config = *self.orch.config;
        let name = self.job.vm_name;
        match self.step {
            SpawnStep::Listing => match reply->Vms_0 {
                Err(e) => next == Next::<Self, SpawnResult>::Done(Err(e)),
                Ok(vms) => match listed_state(vms@, name@) {
                    Some(TartVmState::Running) => self.asks(
                        next,
                        Some("Connecting to running VM..."@),
                        Call::Tart(TartCommand::Ip { name }),
                        SpawnStep::Ip,
                    ),
                    Some(TartVmState::Suspended) => self.asks_for_paths(
                        next,
                        Some("Resuming suspended VM..."@),
                        Fate::Resume,
                    ),
                    Some(TartVmState::Stopped) => self.asks_for_paths(
                        next,
                        Some("Starting stopped VM..."@),
                        Fate::Start,
                    ),
                    Some(TartVmState::Unknown) | None => self.asks(
                        next,
                        Some("Cloning base image '"@ + config.base_image@ + "'..."@),
                        Call::Tart(TartCommand::Clone { source: config.base_image, name }),
                        SpawnStep::Cloning,
                    ),
                },
            },
            SpawnStep::Ip => match reply {
                Reply::Ip(Ok(Some(ip))) => self.asks(
                    next,
                    None,
                    Call::SshCheckConnection { ip, user: config.ssh_user },
                    SpawnStep::Connection { ip },
                ),
                _ => self.asks_for_boot(next, None, Fate::Reconnect),
            },
            SpawnStep::Connection { ip } => match reply {
                Reply::Flag(Ok(true)) => self.asks(
                    next,
                    None,
                    Call::LoadState,
                    SpawnStep::Loading { fate: Fate::Reconnect, ip },
                ),
                _ => self.asks_for_boot(next, None, Fate::Reconnect),
            },
            SpawnStep::Cloning => match reply->Unit_0 {
                Err(e) => next == Next::<Self, SpawnResult>::Done(Err(e)),
                Ok(_) => self.asks_for_paths(next, None, Fate::Create),
            },
            SpawnStep::Probing { fate, candidates } => {
                &&& next matches Next::Ask {
                    status,
                    call: Call::Tart(TartCommand::Run { name: started, opts }),
                    machine,
                }
                &&& optional_text(status) == if fate == Fate::Create {
                    Some("Starting VM..."@)
                } else {
                    None
                }
                &&& started == name
                &&& are_run_opts(
                    opts,
                    config,
                    self.job.worktree_path@,
                    candidates@,
                    reply->Presence_0@,
                )
                &&& machine == (Spawn {
                    orch: self.orch,
                    job: self.job,
                    step: SpawnStep::Starting { fate },
                })
            },
            SpawnStep::Starting { fate } => match reply->Unit_0 {
                Err(e) => next == Next::<Self, SpawnResult>::Done(Err(e)),
                Ok(_) => if fate == Fate::Create && !self.orch.interactive {
                    next matches Next::Done(Ok(SpawnResult::Created { name: made, ip })) && made
                        == name && is_localhost(ip)
                } else {
                    self.asks_for_boot(next, Some("Waiting for boot..."@), fate)
                },
            },
            SpawnStep::Booting { fate, boot } => exists|inner: Next<Boot, IpAddr>|
                {
                    &&& #[trigger] boot.transition(reply, inner)
                    &&& self.follows_boot(next, fate, inner)
                },
            SpawnStep::Stopping { error } => next == Next::<Self, SpawnResult>::Done(Err(error)),
            SpawnStep::Loading { fate, ip } => match reply->Loaded_0 {
                Err(e) => next == Next::<Self, SpawnResult>::Done(Err(e)),
                Ok(loaded) => {
                    &&& next matches Next::Ask { status, call: Call::SaveState(saved), machine }
                    &&& status is None
                    &&& remembers(self.job, ip, loaded, saved)
                    &&& machine == (Spawn {
                        orch: self.orch,
                        job: self.job,
                        step: SpawnStep::Saving { fate, ip },
                    })
                },
            },
            SpawnStep::Saving { fate, ip } => match reply->Unit_0 {
                Err(e) => next == Next::<Self, SpawnResult>::Done(Err(e)),
                Ok(_) => next == Next::<Self, SpawnResult>::Done(Ok(result_of(fate, name, ip))),
            },
        }
    }

    fn resume(self, reply: Reply) -> (next: Next<Self, SpawnResult>) {
        let ghost before = self;
        let Spawn { orch, job, step } = self;
        match (step, reply) {
            (SpawnStep::Listing, Reply::Vms(vms)) => match vms {
                Err(e) => Next::Done(Err(e)),
                Ok(vms) => match find_state(&vms, &job.vm_name) {
                    Some(TartVmState::Running) => {
                        let name = job.vm_name.clone();
                        ask(
                            orch,
                            job,
                            Some("Connecting to running VM...".to_string()),
                            Call::Tart(TartCommand::Ip { name }),
                            SpawnStep::Ip,
                        )
                    },
                    Some(TartVmState::Suspended) => ask_for_paths(
                        orch,
                        job,
                        Some("Resuming suspended VM...".to_string()),
                        Fate::Resume,
                    ),
                    Some(TartVmState::Stopped) => ask_for_paths(
                        orch,
                        job,
                        Some("Starting stopped VM...".to_string()),
                        Fate::Start,
                    ),
                    Some(TartVmState::Unknown) | None => {
                        let source = orch.config.base_image.clone();
                        let name = job.vm_name.clone();
                        let mut status = "Cloning base image '".to_string();
                        status.append(source.as_str());
                        status.append("'...");
                        ask(
                            orch,
                            job,
                            Some(status),
                            Call::Tart(TartCommand::Clone { source, name }),
                            SpawnStep::Cloning,
                        )
                    },
                },
            },
            (SpawnStep::Ip, reply) => match reply {
                Reply::Ip(Ok(Some(ip))) => {
                    let user = orch.config.ssh_user.clone();
                    ask(
                        orch,
                        job,
                        None,
                        Call::SshCheckConnection { ip: ip.duplicate(), user },
                        SpawnStep::Connection { ip },
                    )
                },
                _ => ask_for_boot(orch, job, None, Fate::Reconnect),
            },
            (SpawnStep::Connection { ip }, reply) => match reply {
                Reply::Flag(Ok(true)) => ask(
                    orch,
                    job,
                    None,
                    Call::LoadState,
                    SpawnStep::Loading { fate: Fate::Reconnect, ip },
                ),
                _ => ask_for_boot(orch, job, None, Fate::Reconnect),
            },
            (SpawnStep::Cloning, Reply::Unit(cloned)) => match cloned {
                Err(e) => Next::Done(Err(e)),
                Ok(_) => ask_for_paths(orch, job, None, Fate::Create),
            },
            (SpawnStep::Probing { fate, candidates }, Reply::Presence(present)) => {
                let opts = build_run_opts(
                    orch.config,
                    job.worktree_path.as_str(),
                    &candidates,
                    &present,
                );
                let status = if fate == Fate::Create {
                    Some("Starting VM...".to_string())
                } else {
                    None
                };
                let name = job.vm_name.clone();
                ask(
                    orch,
                    job,
                    status,
                    Call::Tart(TartCommand::Run { name, opts }),
                    SpawnStep::Starting { fate },
                )
            },
            (SpawnStep::Starting { fate }, Reply::Unit(started)) => match started {
                Err(e) => Next::Done(Err(e)),
                Ok(_) => {
                    if fate == Fate::Create && !orch.interactive {
                        Next::Done(
                            Ok(
                                SpawnResult::Created {
                                    name: job.vm_name,
                                    ip: IpAddr { text: "127.0.0.1".to_string() },
                                },
                            ),
                        )
                    } else {
                        ask_for_boot(orch, job, Some("Waiting for boot...".to_string()), fate)
                    }
                },
            },
            (SpawnStep::Booting { fate, boot }, reply) => {
                let ghost waiting = boot;
                let ghost got = reply;
                let inner = boot.resume(reply);
                let ghost inside = inner;
                let next = match inner {
                    Next::Ask { status, call, machine } => ask(
                        orch,
                        job,
                        status,
                        call,
                        SpawnStep::Booting { fate, boot: machine },
                    ),
                    Next::Done(Ok(ip)) => ask(
                        orch,
                        job,
                        None,
                        Call::LoadState,
                        SpawnStep::Loading { fate, ip },
                    ),
                    Next::Done(Err(error)) => {
                        if fate == Fate::Create {
                            // A new machine that did not boot is not left running.
                            let name = job.vm_name.clone();
                            ask(
                                orch,
                                job,
                                None,
                                Call::Tart(TartCommand::Stop { name }),
                                SpawnStep::Stopping { error },
                            )
                        } else {
                            Next::Done(Err(error))
                        }
                    },
                };
                assert(waiting.transition(got, inside));
                assert(before.follows_boot(next, fate, inside));
                next
            },
            (SpawnStep::Stopping { error }, _) => Next::Done(Err(error)),
            (SpawnStep::Loading { fate, ip }, Reply::Loaded(loaded)) => match loaded {
                Err(e) => Next::Done(Err(e)),
                Ok(state) => {
                    let saved = remember(&job, &ip, state);
                    ask(orch, job, None, Call::SaveState(saved), SpawnStep::Saving { fate, ip })
                },
            },
            (SpawnStep::Saving { fate, ip }, Reply::Unit(saved)) => match saved {
                Err(e) => Next::Done(Err(e)),
                Ok(_) => Next::Done(Ok(make_result(fate, job.vm_name, ip))),
            },
            _ => unreached(),
        }
    }
}

/// What is done to get at a machine that `tart` lists with the given state.
pub open spec fn fate_of(state: Option<TartVmState>) -> Fate {
    match state {
        Some(TartVmState::Running) => Fate::Reconnect,
        Some(TartVmState::Suspended) => Fate::Resume,
        Some(TartVmState::Stopped) => Fate::Start,
        Some(TartVmState::Unknown) | None => Fate::Create,
    }
}

/// Whether a spawn of the given fate waits until the machine can be used.
pub open spec fn waits(fate: Fate, interactive: bool) -> bool {
    interactive || fate != Fate::Create
}

/// Whether the machine was found to answer at the address, by the reply of the given number.
pub open spec fn answers_at<'a>(
    orch: VmOrchestrator<'a>,
    replies: Seq<Reply>,
    trail: Seq<Next<Spawn<'a>, SpawnResult>>,
    ip: IpAddr,
    j: int,
) -> bool {
    &&& replies[j] == Reply::Flag(Ok(true))
    &&& trail[j] is Ask
    &&& {
        ||| trail[j]->call == Call::SshCheckPort { ip }
        ||| trail[j]->call == Call::SshCheckConnection { ip, user: orch.config.ssh_user }
    }
}

/// The fate that the first reply of a run settles.
spec fn settled(job: Job, replies: Seq<Reply>) -> Fate {
    fate_of(listed_state(replies[0]->Vms_0->Ok_0@, job.vm_name@))
}

/// What holds of an address that a spawn goes on with.
spec fn usable<'a>(
    orch: VmOrchestrator<'a>,
    replies: Seq<Reply>,
    trail: Seq<Next<Spawn<'a>, SpawnResult>>,
    ip: IpAddr,
    i: int,
) -> bool {
    orch.interactive ==> exists|j: int|
        0 <= j < i && #[trigger] answers_at(orch, replies, trail, ip, j)
}

/// What holds of every spawn that waits in a run.
spec fn on_course<'a>(
    orch: VmOrchestrator<'a>,
    job: Job,
    replies: Seq<Reply>,
    trail: Seq<Next<Spawn<'a>, SpawnResult>>,
    i: int,
) -> bool {
    let fate = settled(job, replies);
    let name = job.vm_name;
    trail[i] matches Next::Ask { call, machine, .. } ==> {
        &&& machine.orch == orch
        &&& machine.job == job
        &&& i > 0 ==> (replies[0] matches Reply::Vms(Ok(_)))
        &&& match machine.step {
            SpawnStep::Listing => i == 0 && call == Call::Tart(TartCommand::List),
            SpawnStep::Ip => {
                &&& i > 0
                &&& fate == Fate::Reconnect
                &&& call == Call::Tart(TartCommand::Ip { name })
            },
            SpawnStep::Connection { ip } => {
                &&& i > 0
                &&& fate == Fate::Reconnect
                &&& call == Call::SshCheckConnection { ip, user: orch.config.ssh_user }
            },
            SpawnStep::Cloning => {
                &&& i > 0
                &&& fate == Fate::Create
                &&& call == Call::Tart(
                    TartCommand::Clone { source: orch.config.base_image, name },
                )
            },
            SpawnStep::Probing { fate: held, .. } => {
                &&& i > 0
                &&& held == fate
                &&& fate != Fate::Reconnect
                &&& call is PathsExist
            },
            SpawnStep::Starting { fate: held } => {
                &&& i > 0
                &&& held == fate
                &&& fate != Fate::Reconnect
                &&& call matches Call::Tart(TartCommand::Run { name: started, .. })
                &&& started == name
            },
            SpawnStep::Booting { fate: held, boot } => {
                &&& i > 0
                &&& held == fate
                &&& waits(fate, orch.interactive)
                &&& boot.vm_name == name
                &&& boot.config == boot_config_of(*orch.config, orch.interactive)
                &&& match boot.step {
                    BootStep::Starting
                    | BootStep::IpClock { .. }
                    | BootStep::PortClock { .. } => call == Call::Clock,
                    BootStep::Arp { wait_secs, .. } => call == Call::Tart(
                        TartCommand::IpWaitArp { name, wait_secs },
                    ),
                    BootStep::Dhcp { .. } => call matches Call::Tart(
                        TartCommand::IpWait { name: asked, .. },
                    ) && asked == name,
                    BootStep::Sleeping { .. } => call is Sleep,
                    BootStep::Port { ip, .. } => call == Call::SshCheckPort { ip },
                    BootStep::Scaling { .. } => call is ScaleDelay,
                }
            },
            SpawnStep::Stopping { .. } => {
                &&& i > 0
                &&& fate == Fate::Create
                &&& orch.interactive
                &&& call == Call::Tart(TartCommand::Stop { name })
            },
            SpawnStep::Loading { fate: held, ip } => {
                &&& i > 0
                &&& held == fate
                &&& waits(fate, orch.interactive)
                &&& usable(orch, replies, trail, ip, i)
                &&& call == Call::LoadState
            },
            SpawnStep::Saving { fate: held, ip } => {
                &&& i > 0
                &&& held == fate
                &&& waits(fate, orch.interactive)
                &&& usable(orch, replies, trail, ip, i)
                &&& call matches Call::SaveState(saved)
                &&& replies[i - 1] matches Reply::Loaded(Ok(loaded))
                &&& remembers(job, ip, replies[i - 1]->Loaded_0->Ok_0, call->SaveState_0)
            },
        }
    }
}

proof fn lemma_on_course<'a>(
    first: Next<Spawn<'a>, SpawnResult>,
    replies: Seq<Reply>,
    trail: Seq<Next<Spawn<'a>, SpawnResult>>,
    i: int,
)
    requires
        begins(first),
        is_run(first, replies, trail),
        0 <= i <= replies.len(),
    ensures
        on_course(first->machine.orch, first->machine.job, replies, trail, i),
    decreases i,
{
    let orch = first->machine.orch;
    if i > 0 {
        lemma_on_course(first, replies, trail, i - 1);
        assert(goes_on_at(replies, trail, i - 1));
        let before = trail[i - 1]->machine;
        match before.step {
            SpawnStep::Booting { fate, boot } => {
                let inner = choose|inner: Next<Boot, IpAddr>|
                    {
                        &&& #[trigger] boot.transition(replies[i - 1], inner)
                        &&& before.follows_boot(trail[i], fate, inner)
                    };
                if let Next::Done(Ok(ip)) = inner {
                    if orch.interactive {
                        assert(answers_at(orch, replies, trail, ip, i - 1));
                    }
                }
            },
            SpawnStep::Connection { ip } => {
                if replies[i - 1] == Reply::Flag(Ok(true)) {
                    assert(answers_at(orch, replies, trail, ip, i - 1));
                }
            },
            SpawnStep::Loading { ip, .. } => {
                if orch.interactive {
                    let j = choose|j: int|
                        0 <= j < i - 1 && #[trigger] answers_at(orch, replies, trail, ip, j);
                    assert(answers_at(orch, replies, trail, ip, j));
                }
            },
            _ => {},
        }
    }
}

/// Whether `first` is the beginning of a spawn.
pub open spec fn begins<'a>(first: Next<Spawn<'a>, SpawnResult>) -> bool {
    &&& first is Ask
    &&& first->call == Call::Tart(TartCommand::List)
    &&& first->machine.step == SpawnStep::Listing
}

/// A spawn that ends well tells what was found: a machine that ran was connected to, a suspended
/// one resumed, a stopped one started, and any other one created.
pub proof fn law_results_tell_what_was_found<'a>(
    first: Next<Spawn<'a>, SpawnResult>,
    replies: Seq<Reply>,
    trail: Seq<Next<Spawn<'a>, SpawnResult>>,
    result: SpawnResult,
)
    requires
        begins(first),
        is_run(first, replies, trail),
        trail.last() == Next::<Spawn<'a>, SpawnResult>::Done(Ok(result)),
    ensures
        replies[0] matches Reply::Vms(Ok(vms)) && {
            let state = listed_state(vms@, first->machine.job.vm_name@);
            &&& result is Reconnected <==> state == Some(TartVmState::Running)
            &&& result is Resumed <==> state == Some(TartVmState::Suspended)
            &&& result is Started <==> state == Some(TartVmState::Stopped)
            &&& result is Created <==> (state == Some(TartVmState::Unknown) || state is None)
            &&& result.spec_name() == first->machine.job.vm_name
        },
{
    let last = replies.len() - 1;
    lemma_on_course(first, replies, trail, last);
    assert(goes_on_at(replies, trail, last));
    assert(trail[last + 1] == trail.last());
}

/// Only a machine that does not exist is cloned, and only one that does not run is started.
/// Nothing but the machine of the spawn is touched, nothing is deleted or suspended, and only a
/// new machine is ever stopped.
pub proof fn law_commands_fit_what_was_found<'a>(
    first: Next<Spawn<'a>, SpawnResult>,
    replies: Seq<Reply>,
    trail: Seq<Next<Spawn<'a>, SpawnResult>>,
    i: int,
    command: TartCommand,
)
    requires
        begins(first),
        is_run(first, replies, trail),
        0 < i <= replies.len(),
        trail[i] is Ask,
        trail[i]->call == Call::Tart(command),
    ensures
        replies[0] matches Reply::Vms(Ok(vms)) && {
            let vm_name = first->machine.job.vm_name;
            let state = listed_state(vms@, vm_name@);
            let missing = state == Some(TartVmState::Unknown) || state is None;
            match command {
                TartCommand::Clone { source, name } => {
                    &&& missing
                    &&& source == first->machine.orch.config.base_image
                    &&& name == vm_name
                },
                TartCommand::Run { name, .. } => {
                    &&& state != Some(TartVmState::Running)
                    &&& name == vm_name
                },
                TartCommand::Stop { name } => {
                    &&& missing
                    &&& first->machine.orch.interactive
                    &&& name == vm_name
                },
                TartCommand::Ip { name } => state == Some(TartVmState::Running) && name == vm_name,
                TartCommand::IpWait { name, .. } => name == vm_name,
                TartCommand::IpWaitArp { name, .. } => name == vm_name,
                _ => false,
            }
        },
{
    lemma_on_course(first, replies, trail, i);
}

/// A new machine that does not boot is stopped before the error is handed on, and the error is
/// that of the boot, whatever becomes of the stop.
pub proof fn law_a_new_machine_that_does_not_boot_is_stopped<'a>(
    spawn: Spawn<'a>,
    boot: Boot,
    reply: Reply,
    next: Next<Spawn<'a>, SpawnResult>,
)
    requires
        spawn.step == (SpawnStep::Booting { fate: Fate::Create, boot }),
        spawn.transition(reply, next),
    ensures
        next is Ask,
        next->machine.step matches SpawnStep::Booting { .. } || next->machine.step matches
            SpawnStep::Loading { .. } || (next->machine.step matches SpawnStep::Stopping { error }
            && {
            &&& next->call == Call::Tart(TartCommand::Stop { name: spawn.job.vm_name })
            &&& boot.transition(reply, Next::<Boot, IpAddr>::Done(Err(error)))
            &&& forall|stopped: Reply, last: Next<Spawn<'a>, SpawnResult>|
                #[trigger] next->machine.transition(stopped, last) ==> last == Next::<
                    Spawn<'a>,
                    SpawnResult,
                >::Done(Err(error))
        }),
{
}

/// Before a spawn ends well it has written down, exactly once, that the machine runs, at which
/// address, and when it was used, unless it made a machine that no user waits for.
pub proof fn law_success_is_remembered<'a>(
    first: Next<Spawn<'a>, SpawnResult>,
    replies: Seq<Reply>,
    trail: Seq<Next<Spawn<'a>, SpawnResult>>,
    result: SpawnResult,
)
    requires
        begins(first),
        is_run(first, replies, trail),
        trail.last() == Next::<Spawn<'a>, SpawnResult>::Done(Ok(result)),
        first->machine.orch.interactive || !(result is Created),
    ensures
        replies.len() >= 2,
        replies.last() matches Reply::Unit(Ok(_)),
        trail[trail.len() - 2]->call matches Call::SaveState(saved) && {
            &&& replies[replies.len() - 2] matches Reply::Loaded(Ok(loaded)) && remembers(
                first->machine.job,
                result.spec_ip(),
                loaded,
                saved,
            )
            &&& exists|i: int| #[trigger]
                first_named(saved.vms@, first->machine.job.vm_name@, i)
                    && saved.vms@[i].status == VmStatus::Running && saved.vms@[i].ip == Some(
                    result.spec_ip().text,
                ) && is_clock_time(saved.vms@[i].last_used)
        },
        forall|i: int|
            0 <= i < replies.len() && (#[trigger] trail[i]) is Ask && trail[i]->call is SaveState
                ==> i == replies.len() - 1,
{
    let last = replies.len() - 1;
    let job = first->machine.job;
    lemma_on_course(first, replies, trail, last);
    assert(goes_on_at(replies, trail, last));
    assert(trail[last + 1] == trail.last());
    assert(replies[last] == replies.last());
    let ip = result.spec_ip();
    let saved = trail[last]->call->SaveState_0;
    let loaded = replies[last - 1]->Loaded_0->Ok_0;
    let (created_at, last_used) = choose|created_at: Timestamp, last_used: Timestamp|
        {
            &&& #[trigger] remembers_at(job, ip, created_at, last_used, loaded, saved)
            &&& is_clock_time(created_at)
            &&& is_clock_time(last_used)
        };
    let seen = choose|seen: Sighting|
        #![trigger recorded(loaded.vms@, seen, created_at, last_used, saved.vms@)]
        recorded(loaded.vms@, seen, created_at, last_used, saved.vms@) && is_sighting(seen, job, ip);
    law_a_sighting_is_found_again(loaded.vms@, seen, created_at, last_used, saved.vms@);
    assert forall|i: int|
        0 <= i < replies.len() && (#[trigger] trail[i]) is Ask && trail[i]->call is SaveState implies i
        == replies.len() - 1 by {
        law_nothing_is_done_twice(first, replies, trail, i, last);
    }
}

/// How far a spawn has come.
spec fn rank(step: SpawnStep) -> int {
    match step {
        SpawnStep::Listing => 0,
        SpawnStep::Ip => 1,
        SpawnStep::Connection { .. } => 2,
        SpawnStep::Cloning => 3,
        SpawnStep::Probing { .. } => 4,
        SpawnStep::Starting { .. } => 5,
        SpawnStep::Booting { .. } => 6,
        SpawnStep::Stopping { .. } => 7,
        SpawnStep::Loading { .. } => 8,
        SpawnStep::Saving { .. } => 9,
    }
}

/// A spawn never goes back, and stays where it is only while it waits for the boot.
proof fn lemma_no_way_back<'a>(
    first: Next<Spawn<'a>, SpawnResult>,
    replies: Seq<Reply>,
    trail: Seq<Next<Spawn<'a>, SpawnResult>>,
    i: int,
    j: int,
)
    requires
        begins(first),
        is_run(first, replies, trail),
        0 <= i < j <= replies.len(),
        trail[j] is Ask,
    ensures
        trail[i] is Ask,
        rank(trail[i]->machine.step) < rank(trail[j]->machine.step) || (
        trail[i]->machine.step is Booting && trail[j]->machine.step is Booting),
    decreases j - i,
{
    assert(goes_on_at(replies, trail, j - 1));
    let before = trail[j - 1]->machine;
    if let SpawnStep::Booting { fate, boot } = before.step {
        let inner = choose|inner: Next<Boot, IpAddr>|
            {
                &&& #[trigger] boot.transition(replies[j - 1], inner)
                &&& before.follows_boot(trail[j], fate, inner)
            };
        assert(boot.transition(replies[j - 1], inner));
    }
    if i < j - 1 {
        lemma_no_way_back(first, replies, trail, i, j - 1);
    }
}

/// Whether two calls are of a kind that a spawn makes once at most.
pub open spec fn both_singular(a: Call, b: Call) -> bool {
    ||| a matches Call::Tart(TartCommand::Clone { .. }) && b matches Call::Tart(
        TartCommand::Clone { .. },
    )
    ||| a matches Call::Tart(TartCommand::Run { .. }) && b matches Call::Tart(
        TartCommand::Run { .. },
    )
    ||| a matches Call::Tart(TartCommand::Stop { .. }) && b matches Call::Tart(
        TartCommand::Stop { .. },
    )
    ||| a is LoadState && b is LoadState
    ||| a is SaveState && b is SaveState
}

/// A spawn clones, starts and stops at most once, and reads and writes what is remembered at most
/// once.
pub proof fn law_nothing_is_done_twice<'a>(
    first: Next<Spawn<'a>, SpawnResult>,
    replies: Seq<Reply>,
    trail: Seq<Next<Spawn<'a>, SpawnResult>>,
    i: int,
    j: int,
)
    requires
        begins(first),
        is_run(first, replies, trail),
        0 <= i <= replies.len(),
        0 <= j <= replies.len(),
        trail[i] is Ask,
        trail[j] is Ask,
        both_singular(trail[i]->call, trail[j]->call),
    ensures
        i == j,
{
    lemma_on_course(first, replies, trail, i);
    lemma_on_course(first, replies, trail, j);
    if i < j {
        lemma_no_way_back(first, replies, trail, i, j);
    } else if j < i {
        lemma_no_way_back(first, replies, trail, j, i);
    }
}

/// When the boot fails, what is remembered is neither read nor written: neither by the time that
/// the spawn ends, nor before.
pub proof fn law_a_failed_boot_is_not_remembered<'a>(
    first: Next<Spawn<'a>, SpawnResult>,
    replies: Seq<Reply>,
    trail: Seq<Next<Spawn<'a>, SpawnResult>>,
    i: int,
)
    requires
        begins(first),
        is_run(first, replies, trail),
        trail.last() is Done,
        trail[trail.len() - 2]->machine.step is Booting
            || trail[trail.len() - 2]->machine.step is Stopping,
        0 <= i < replies.len(),
    ensures
        trail.last()->Done_0 is Err,
        trail[i] is Ask,
        !(trail[i]->call is LoadState),
        !(trail[i]->call is SaveState),
{
    let last = replies.len() - 1;
    assert(goes_on_at(replies, trail, last));
    assert(trail[last + 1] == trail.last());
    assert(goes_on_at(replies, trail, i));
    lemma_on_course(first, replies, trail, i);
    if i < last {
        lemma_no_way_back(first, replies, trail, i, last);
    }
}

/// What a spawn writes down concerns its own machine alone: every other one is remembered as
/// before, and no machine comes to be remembered twice.
pub proof fn law_other_machines_are_remembered_as_before(
    job: Job,
    ip: IpAddr,
    loaded: State,
    saved: State,
    other: Seq<char>,
)
    requires
        remembers(job, ip, loaded, saved),
        other != job.vm_name@,
    ensures
        known(saved.vms@, other) <==> known(loaded.vms@, other),
        forall|i: int|
            first_named(loaded.vms@, other, i) ==> #[trigger] first_named(saved.vms@, other, i)
                && saved.vms@[i] == loaded.vms@[i],
        names_differ(loaded.vms@) ==> names_differ(saved.vms@),
{
    let (created_at, last_used) = choose|created_at: Timestamp, last_used: Timestamp|
        {
            &&& #[trigger] remembers_at(job, ip, created_at, last_used, loaded, saved)
            &&& is_clock_time(created_at)
            &&& is_clock_time(last_used)
        };
    let seen = choose|seen: Sighting|
        #![trigger recorded(loaded.vms@, seen, created_at, last_used, saved.vms@)]
        recorded(loaded.vms@, seen, created_at, last_used, saved.vms@) && is_sighting(seen, job, ip);
    law_a_sighting_leaves_other_machines(
        loaded.vms@,
        seen,
        created_at,
        last_used,
        saved.vms@,
        other,
    );
    if names_differ(loaded.vms@) {
        law_a_sighting_keeps_names_apart(loaded.vms@, seen, created_at, last_used, saved.vms@);
    }
}

/// With a user at the terminal, a spawn that ends well gives an address at which the machine has
/// answered.
pub proof fn law_users_get_machines_that_answer<'a>(
    first: Next<Spawn<'a>, SpawnResult>,
    replies: Seq<Reply>,
    trail: Seq<Next<Spawn<'a>, SpawnResult>>,
    result: SpawnResult,
)
    requires
        begins(first),
        first->machine.orch.interactive,
        is_run(first, replies, trail),
        trail.last() == Next::<Spawn<'a>, SpawnResult>::Done(Ok(result)),
    ensures
        exists|j: int|
            0 <= j < replies.len() && #[trigger] answers_at(
                first->machine.orch,
                replies,
                trail,
                result.spec_ip(),
                j,
            ),
{
    let last = replies.len() - 1;
    lemma_on_course(first, replies, trail, last);
    assert(goes_on_at(replies, trail, last));
    assert(trail[last + 1] == trail.last());
    assert(usable(first->machine.orch, replies, trail, result.spec_ip(), last));
}

/// A new machine that no user waits for is left to boot by itself: its boot is not waited for,
/// nothing is written down, and the address given for it is that of the host.
pub proof fn law_nobody_waits_for_a_machine_without_a_user<'a>(
    first: Next<Spawn<'a>, SpawnResult>,
    replies: Seq<Reply>,
    trail: Seq<Next<Spawn<'a>, SpawnResult>>,
    result: SpawnResult,
)
    requires
        begins(first),
        !first->machine.orch.interactive,
        is_run(first, replies, trail),
        trail.last() == Next::<Spawn<'a>, SpawnResult>::Done(Ok(result)),
        result is Created,
    ensures
        is_localhost(result.spec_ip()),
        forall|i: int| 0 <= i < replies.len() ==> {
            &&& (#[trigger] trail[i]) is Ask
            &&& !(trail[i]->call is Clock)
            &&& !(trail[i]->call is LoadState)
            &&& !(trail[i]->call is SaveState)
        },
{
    let last = replies.len() - 1;
    law_results_tell_what_was_found(first, replies, trail, result);
    lemma_on_course(first, replies, trail, last);
    assert(goes_on_at(replies, trail, last));
    assert(trail[last + 1] == trail.last());
    assert forall|i: int| 0 <= i < replies.len() implies {
        &&& (#[trigger] trail[i]) is Ask
        &&& !(trail[i]->call is Clock)
        &&& !(trail[i]->call is LoadState)
        &&& !(trail[i]->call is SaveState)
    } by {
        lemma_on_course(first, replies, trail, i);
        assert(goes_on_at(replies, trail, i));
    }
}

/// Whether a call is one that a spawn may ask for.
pub open spec fn is_spawn_call(call: Call) -> bool {
    match call {
        Call::Tart(_) => true,
        Call::SshCheckConnection { .. } => true,
        Call::SshCheckPort { .. } => true,
        Call::PathsExist(_) => true,
        Call::Clock => true,
        Call::Sleep(_) => true,
        Call::ScaleDelay(_) => true,
        Call::LoadState => true,
        Call::SaveState(_) => true,
        _ => false,
    }
}

/// A spawn drives `tart`, looks whether the machine answers, and reads and writes what is
/// remembered. It neither sets a machine up nor hands over the terminal.
pub proof fn law_a_spawn_keeps_to_its_calls<'a>(
    spawn: Spawn<'a>,
    reply: Reply,
    next: Next<Spawn<'a>, SpawnResult>,
)
    requires
        spawn.transition(reply, next),
        next is Ask,
    ensures
        is_spawn_call(next->call),
{
    if let SpawnStep::Booting { fate, boot } = spawn.step {
        let inner = choose|inner: Next<Boot, IpAddr>|
            {
                &&& #[trigger] boot.transition(reply, inner)
                &&& spawn.follows_boot(next, fate, inner)
            };
        assert(boot.transition(reply, inner));
    }
}

} // verus!
