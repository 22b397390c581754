//! The spawn of a machine, call by call.

use vstd::prelude::*;

use super::boot::address;
use super::mounts::{
    are_option_paths, is_right_start, law_machines_see_what_they_should,
    lemma_candidates_are_options, mount,
};
use super::state::{is_written_down, law_sightings_are_written_down};
use super::tart::{law_states_are_told_by_words, stands};
use super::text::{dashes_for_slashes, law_machines_are_named_after_repository_and_branch};
use crate::config::Config;
use crate::effect::{goes_on_at, is_run, Call, IpAddr, Machine, Next, Reply};
use crate::error::TachikomaError;
use crate::state::{recorded, Sighting, State, Timestamp, VmStatus};
use crate::tart::types::{DirMount, RunOpts};
use crate::tart::TartCommand;
use crate::vm::boot::{boot_begins, Boot, BootConfig};
use crate::vm::mounts::are_candidates;
use crate::vm::spawning::{is_sighting, remembers_at, Fate, Job, Spawn, SpawnStep};
use crate::vm::{spawn_begins, SpawnResult, VmOrchestrator};

verus! {

/// Whether `tart` listed the machine, in the state of the given word, at the beginning of a run.
pub open spec fn was(replies: Seq<Reply>, name: Seq<char>, word: Seq<char>) -> bool {
    replies[0] matches Reply::Vms(Ok(vms)) && stands(vms@, name, word)
}

/// Whether the machine has to be made.
pub open spec fn is_new(replies: Seq<Reply>, name: Seq<char>) -> bool {
    &&& !was(replies, name, "running"@)
    &&& !was(replies, name, "suspended"@)
    &&& !was(replies, name, "stopped"@)
}

/// Whether a call belongs to the wait for a boot.
pub open spec fn is_wait(call: Call) -> bool {
    match call {
        Call::Clock => true,
        Call::Sleep(_) => true,
        Call::ScaleDelay(_) => true,
        Call::SshCheckPort { .. } => true,
        Call::Tart(TartCommand::IpWait { .. }) => true,
        Call::Tart(TartCommand::IpWaitArp { .. }) => true,
        _ => false,
    }
}

/// Whether a machine is written down as running at the given address, with times that a clock can
/// show.
pub open spec fn notes(job: Job, ip: IpAddr, loaded: State, saved: State) -> bool {
    exists|created_at: Timestamp, last_used: Timestamp|
        {
            &&& #[trigger] is_written_down(
                loaded.vms@,
                job.vm_name@,
                job.repo_name@,
                job.branch@,
                job.worktree_path@,
                VmStatus::Running,
                Some(ip.text),
                created_at,
                last_used,
                saved.vms@,
            )
            &&& created_at.secs >= 0 && created_at.nanos < 1_000_000_000
            &&& last_used.secs >= 0 && last_used.nanos < 1_000_000_000
        }
}

/// Whether a run goes on with the given call, and shows the given status.
pub open spec fn asks<'a>(
    next: Next<Spawn<'a>, SpawnResult>,
    call: Call,
    status: Option<Seq<char>>,
) -> bool {
    next is Ask && next->call == call && says(next, status)
}

/// Whether a run shows the given status.
pub open spec fn says<'a>(next: Next<Spawn<'a>, SpawnResult>, status: Option<Seq<char>>) -> bool {
    match status {
        None => next->status is None,
        Some(text) => next->status matches Some(shown) && shown@ == text,
    }
}

/// Whether a run goes on to ask which of the directories exist that the machine may see.
pub open spec fn asks_paths<'a>(
    config: Config,
    job: Job,
    next: Next<Spawn<'a>, SpawnResult>,
    status: Option<Seq<char>>,
) -> bool {
    &&& next is Ask
    &&& says(next, status)
    &&& next->call matches Call::PathsExist(paths)
    &&& exists|home: Option<Seq<char>>| are_option_paths(paths@, config, job.repo_root@, home)
}

/// Whether a run ends with the given error.
pub open spec fn fails<'a>(next: Next<Spawn<'a>, SpawnResult>, e: TachikomaError) -> bool {
    next == Next::<Spawn<'a>, SpawnResult>::Done(Err(e))
}

/// What a spawn does next when it gets a reply, but for the wait for a boot.
pub open spec fn is_due<'a>(
    config: Config,
    interactive: bool,
    job: Job,
    replies: Seq<Reply>,
    trail: Seq<Next<Spawn<'a>, SpawnResult>>,
    i: int,
) -> bool {
    let next = trail[i + 1];
    let name = job.vm_name;
    match trail[i]->call {
        Call::Tart(TartCommand::List) => {
            &&& i == 0
            &&& match replies[i] {
                Reply::Vms(Err(e)) => fails(next, e),
                _ => if was(replies, name@, "running"@) {
                    asks(
                        next,
                        Call::Tart(TartCommand::Ip { name }),
                        Some("Connecting to running VM..."@),
                    )
                } else if was(replies, name@, "suspended"@) {
                    asks_paths(config, job, next, Some("Resuming suspended VM..."@))
                } else if was(replies, name@, "stopped"@) {
                    asks_paths(config, job, next, Some("Starting stopped VM..."@))
                } else {
                    asks(
                        next,
                        Call::Tart(TartCommand::Clone { source: config.base_image, name }),
                        Some("Cloning base image '"@ + config.base_image@ + "'..."@),
                    )
                },
            }
        },
        Call::Tart(TartCommand::Ip { name: asked }) => {
            &&& asked == name
            &&& match replies[i] {
                Reply::Ip(Ok(Some(ip))) => asks(
                    next,
                    Call::SshCheckConnection { ip, user: config.ssh_user },
                    None,
                ),
                _ => asks(next, Call::Clock, None),
            }
        },
        Call::SshCheckConnection { .. } => if replies[i] == Reply::Flag(Ok(true)) {
            asks(next, Call::LoadState, None)
        } else {
            asks(next, Call::Clock, None)
        },
        Call::Tart(TartCommand::Clone { .. }) => match replies[i] {
            Reply::Unit(Err(e)) => fails(next, e),
            _ => asks_paths(config, job, next, None),
        },
        Call::PathsExist(paths) => {
            &&& next is Ask
            &&& says(
                next,
                if is_new(replies, name@) {
                    Some("Starting VM..."@)
                } else {
                    None
                },
            )
            &&& next->call matches Call::Tart(TartCommand::Run { name: started, opts })
            &&& started == name
            &&& replies[i] is Presence
            &&& exists|home: Option<Seq<char>>|
                are_option_paths(paths@, config, job.repo_root@, home) && is_right_start(
                    opts,
                    config,
                    job.worktree_path@,
                    job.repo_root@,
                    home,
                    replies[i]->Presence_0@,
                )
        },
        Call::Tart(TartCommand::Run { .. }) => match replies[i] {
            Reply::Unit(Err(e)) => fails(next, e),
            _ => if is_new(replies, name@) && !interactive {
                next matches Next::Done(Ok(SpawnResult::Created { name: made, ip })) && made == name
                    && ip.text@ == "127.0.0.1"@
            } else {
                asks(next, Call::Clock, Some("Waiting for boot..."@))
            },
        },
        Call::Tart(TartCommand::Stop { name: stopped }) => {
            &&& stopped == name
            &&& is_new(replies, name@)
            &&& next matches Next::Done(Err(_))
        },
        Call::LoadState => match replies[i] {
            Reply::Loaded(Err(e)) => fails(next, e),
            _ => {
                &&& next is Ask
                &&& says(next, None)
                &&& next->call matches Call::SaveState(saved)
                &&& replies[i] matches Reply::Loaded(Ok(loaded))
                &&& address(replies, i) matches Some(ip)
                &&& notes(job, ip, loaded, saved)
            },
        },
        Call::SaveState(_) => match replies[i] {
            Reply::Unit(Err(e)) => fails(next, e),
            _ => {
                &&& address(replies, i) matches Some(ip)
                &&& next matches Next::Done(Ok(result))
                &&& result == if was(replies, name@, "running"@) {
                    SpawnResult::Reconnected { name, ip }
                } else if was(replies, name@, "suspended"@) {
                    SpawnResult::Resumed { name, ip }
                } else if was(replies, name@, "stopped"@) {
                    SpawnResult::Started { name, ip }
                } else {
                    SpawnResult::Created { name, ip }
                }
            },
        },
        call => is_wait(call),
    }
}

/// The fate of a machine, by what was listed.
spec fn fated(replies: Seq<Reply>, name: Seq<char>, fate: Fate) -> bool {
    match fate {
        Fate::Reconnect => was(replies, name, "running"@),
        Fate::Resume => was(replies, name, "suspended"@),
        Fate::Start => was(replies, name, "stopped"@),
        Fate::Create => is_new(replies, name),
    }
}

/// What holds of every spawn that waits in a run.
spec fn on_course<'a>(
    orch: VmOrchestrator<'a>,
    job: Job,
    replies: Seq<Reply>,
    trail: Seq<Next<Spawn<'a>, SpawnResult>>,
    i: int,
) -> bool {
    trail[i] matches Next::Ask { call, machine, .. } ==> {
        &&& machine.orch == orch
        &&& machine.job == job
        &&& i > 0 ==> (replies[0] matches Reply::Vms(Ok(_)))
        &&& match machine.step {
            SpawnStep::Listing => i == 0 && call == Call::Tart(TartCommand::List),
            SpawnStep::Ip => i > 0 && fated(replies, job.vm_name@, Fate::Reconnect) && call
                == Call::Tart(TartCommand::Ip { name: job.vm_name }),
            SpawnStep::Connection { ip } => {
                &&& i > 0
                &&& fated(replies, job.vm_name@, Fate::Reconnect)
                &&& address(replies, i) == Some(ip)
                &&& call is SshCheckConnection
            },
            SpawnStep::Cloning => i > 0 && fated(replies, job.vm_name@, Fate::Create) && (
            call matches Call::Tart(TartCommand::Clone { .. })),
            SpawnStep::Probing { fate, candidates } => {
                &&& i > 0
                &&& fate != Fate::Reconnect
                &&& fated(replies, job.vm_name@, fate)
                &&& call matches Call::PathsExist(paths)
                &&& paths@.len() == candidates@.len()
                &&& forall|p: int|
                    0 <= p < paths@.len() ==> #[trigger] paths@[p] == candidates@[p].host_path
                &&& exists|home: Option<String>|
                    are_candidates(candidates@, *orch.config, job.repo_root@, home)
            },
            SpawnStep::Starting { fate } => {
                &&& i > 0
                &&& fate != Fate::Reconnect
                &&& fated(replies, job.vm_name@, fate)
                &&& call matches Call::Tart(TartCommand::Run { .. })
            },
            SpawnStep::Booting { fate, boot } => {
                &&& i > 0
                &&& fated(replies, job.vm_name@, fate)
                &&& boot.vm_name == job.vm_name
                &&& is_wait(call)
                &&& boot.step.ip() matches Some(ip) ==> address(replies, i) == Some(ip)
            },
            SpawnStep::Stopping { .. } => i > 0 && fated(replies, job.vm_name@, Fate::Create) && call
                == Call::Tart(TartCommand::Stop { name: job.vm_name }),
            SpawnStep::Loading { fate, ip } => {
                &&& i > 0
                &&& fated(replies, job.vm_name@, fate)
                &&& address(replies, i) == Some(ip)
                &&& call == Call::LoadState
            },
            SpawnStep::Saving { fate, ip } => {
                &&& i > 0
                &&& fated(replies, job.vm_name@, fate)
                &&& address(replies, i) == Some(ip)
                &&& call is SaveState
            },
        }
    }
}

proof fn lemma_on_course<'a>(
    first: Next<Spawn<'a>, SpawnResult>,
    replies: Seq<Reply>,
    trail: Seq<Next<Spawn<'a>, SpawnResult>>,
    i: int,
)
    requires
        first is Ask,
        first->call == Call::Tart(TartCommand::List),
        first->machine.step == SpawnStep::Listing,
        is_run(first, replies, trail),
        0 <= i <= replies.len(),
    ensures
        on_course(first->machine.orch, first->machine.job, replies, trail, i),
    decreases i,
{
    let job = first->machine.job;
    let orch = first->machine.orch;
    if i > 0 {
        lemma_on_course(first, replies, trail, i - 1);
        assert(goes_on_at(replies, trail, i - 1));
        let before = trail[i - 1]->machine;
        match before.step {
            SpawnStep::Listing => {
                if let Reply::Vms(Ok(vms)) = replies[0] {
                    law_states_are_told_by_words(vms@, job.vm_name@);
                }
            },
            SpawnStep::Booting { fate, boot } => {
                let inner = choose|inner: Next<Boot, IpAddr>|
                    {
                        &&& #[trigger] boot.transition(replies[i - 1], inner)
                        &&& before.follows_boot(trail[i], fate, inner)
                    };
                assert(boot.transition(replies[i - 1], inner));
            },
            _ => {},
        }
    }
}

/// The machine of a spawn is named after repository and branch. The spawn begins with a listing,
/// and from then on every reply is followed by what is due: a running machine is connected to, a
/// suspended or stopped one is started with the mounts that it should have, a missing one is cloned
/// first; failures end the spawn; and before it ends well, it is written down that the machine runs
/// at the address that came last.
pub proof fn law_a_spawn_does_what_is_due<'a>(
    orch: VmOrchestrator<'a>,
    branch: String,
    repo_name: String,
    worktree_path: String,
    repo_root: String,
    first: Next<Spawn<'a>, SpawnResult>,
    replies: Seq<Reply>,
    trail: Seq<Next<Spawn<'a>, SpawnResult>>,
    i: int,
) -> (vm_name: String)
    requires
        spawn_begins(first, orch, branch, repo_name, worktree_path, repo_root),
        is_run(first, replies, trail),
        0 <= i < replies.len(),
    ensures
        exists|r: Seq<char>, b: Seq<char>|
            {
                &&& #[trigger] dashes_for_slashes(repo_name@, r)
                &&& #[trigger] dashes_for_slashes(branch@, b)
                &&& vm_name@ == "tachikoma-"@ + r + "-"@ + b
            },
        first is Ask && first->call == Call::Tart(TartCommand::List) && first->status is None,
        trail[i] is Ask,
        is_due(
            *orch.config,
            orch.interactive,
            Job { vm_name, repo_name, branch, worktree_path, repo_root },
            replies,
            trail,
            i,
        ),
{
    let vm_name = first->machine.job.vm_name;
    let job = first->machine.job;
    law_machines_are_named_after_repository_and_branch(repo_name@, branch@);
    lemma_on_course(first, replies, trail, i);
    lemma_on_course(first, replies, trail, i + 1);
    assert(goes_on_at(replies, trail, i));
    if let Reply::Vms(Ok(vms)) = replies[0] {
        law_states_are_told_by_words(vms@, vm_name@);
    }
    lemma_one_word(replies, vm_name@);
    lemma_due(orch, job, replies, trail, i);
    vm_name
}

/// A machine is not listed in two states.
proof fn lemma_one_word(replies: Seq<Reply>, name: Seq<char>)
    ensures
        !(was(replies, name, "running"@) && was(replies, name, "suspended"@)),
        !(was(replies, name, "running"@) && was(replies, name, "stopped"@)),
        !(was(replies, name, "suspended"@) && was(replies, name, "stopped"@)),
{
    if let Reply::Vms(Ok(vms)) = replies[0] {
        law_states_are_told_by_words(vms@, name);
    }
}

proof fn lemma_paths<'a>(
    config: Config,
    job: Job,
    next: Next<Spawn<'a>, SpawnResult>,
    paths: Seq<String>,
    candidates: Seq<DirMount>,
)
    requires
        paths.len() == candidates.len(),
        forall|p: int| 0 <= p < paths.len() ==> #[trigger] paths[p] == candidates[p].host_path,
        exists|home: Option<String>| are_candidates(candidates, config, job.repo_root@, home),
    ensures
        exists|home: Option<Seq<char>>| are_option_paths(paths, config, job.repo_root@, home),
{
    let home = choose|home: Option<String>|
        are_candidates(candidates, config, job.repo_root@, home);
    let dir = match home {
        Some(h) => Some(h@),
        None => None,
    };
    lemma_candidates_are_options(candidates, config, job.repo_root@, home, dir);
    assert forall|p: int| 0 <= p < paths.len() implies (#[trigger] paths[p])@
        == super::mounts::option(config, job.repo_root@, dir, p).1 by {
        assert(mount(candidates[p]).1 == candidates[p].host_path@);
    }
    assert(are_option_paths(paths, config, job.repo_root@, dir));
}

proof fn lemma_due<'a>(
    orch: VmOrchestrator<'a>,
    job: Job,
    replies: Seq<Reply>,
    trail: Seq<Next<Spawn<'a>, SpawnResult>>,
    i: int,
)
    requires
        0 <= i < replies.len(),
        trail[i] is Ask,
        goes_on_at(replies, trail, i),
        on_course(orch, job, replies, trail, i),
        on_course(orch, job, replies, trail, i + 1),
    ensures
        is_due(*orch.config, orch.interactive, job, replies, trail, i),
{
    let before = trail[i]->machine;
    let next = trail[i + 1];
    lemma_one_word(replies, job.vm_name@);
    if next is Ask && next->machine.step is Probing {
        lemma_paths(
            *orch.config,
            job,
            next,
            next->call->PathsExist_0@,
            next->machine.step->candidates@,
        );
    }
    match before.step {
        SpawnStep::Listing => {
            if let Reply::Vms(Ok(vms)) = replies[0] {
                law_states_are_told_by_words(vms@, job.vm_name@);
            }
        },
        SpawnStep::Probing { fate, candidates } => {
            let paths = trail[i]->call->PathsExist_0@;
            let present = replies[i]->Presence_0@;
            let opts = next->call->Tart_0->opts;
            let home = choose|home: Option<String>|
                are_candidates(candidates@, *orch.config, job.repo_root@, home);
            let dir = match home {
                Some(h) => Some(h@),
                None => None,
            };
            law_machines_see_what_they_should(
                opts,
                *orch.config,
                job.worktree_path@,
                job.repo_root@,
                home,
                dir,
                candidates@,
                present,
            );
            assert(are_option_paths(paths, *orch.config, job.repo_root@, dir));
        },
        SpawnStep::Loading { fate, ip } => {
            if let Reply::Loaded(Ok(loaded)) = replies[i] {
                let saved = next->call->SaveState_0;
                let (created_at, last_used) = choose|created_at: Timestamp, last_used: Timestamp|
                    {
                        &&& #[trigger] remembers_at(job, ip, created_at, last_used, loaded, saved)
                        &&& crate::state::is_clock_time(created_at)
                        &&& crate::state::is_clock_time(last_used)
                    };
                let seen = choose|seen: Sighting|
                    #![trigger recorded(loaded.vms@, seen, created_at, last_used, saved.vms@)]
                    recorded(loaded.vms@, seen, created_at, last_used, saved.vms@) && is_sighting(
                        seen,
                        job,
                        ip,
                    );
                law_sightings_are_written_down(loaded.vms@, seen, created_at, last_used, saved.vms@);
                assert(notes(job, ip, loaded, saved));
            }
        },
        _ => {},
    }
}

/// Whether these are the settings with which a spawn waits for a boot.
pub open spec fn is_wait_config(wait: BootConfig, config: Config, interactive: bool) -> bool {
    &&& wait.timeout == config.boot_timeout_secs * 1_000_000_000
    &&& wait.initial_delay == 500_000_000
    &&& wait.max_interval == 5_000_000_000
    &&& wait.ssh_user == config.ssh_user
    &&& wait.skip_ssh_check == !interactive
}

/// How a spawn goes on when the wait for the boot does: with its calls, with what is remembered once
/// the machine is up, and with the error of the wait, but not before a new machine is stopped.
pub open spec fn follows_wait<'a>(
    vm_name: String,
    replies: Seq<Reply>,
    wait: Next<Boot, IpAddr>,
    next: Next<Spawn<'a>, SpawnResult>,
) -> bool {
    match wait {
        Next::Ask { call, .. } => asks(next, call, None),
        Next::Done(Ok(_)) => asks(next, Call::LoadState, None),
        Next::Done(Err(e)) => if is_new(replies, vm_name@) {
            asks(next, Call::Tart(TartCommand::Stop { name: vm_name }), None)
        } else {
            fails(next, e)
        },
    }
}

/// The wait in a run, from call `k` to call `i`.
spec fn wait_part<'a>(trail: Seq<Next<Spawn<'a>, SpawnResult>>, k: int, i: int) -> Seq<
    Next<Boot, IpAddr>,
> {
    Seq::new(
        (i - k + 1) as nat,
        |m: int|
            Next::Ask {
                status: None,
                call: trail[k + m]->call,
                machine: trail[k + m]->machine.step->boot,
            },
    )
}

/// Whether the wait in a run begins with call `k`.
spec fn wait_begins_at<'a>(trail: Seq<Next<Spawn<'a>, SpawnResult>>, k: int) -> bool {
    &&& 0 < k
    &&& trail[k] is Ask
    &&& trail[k]->call == Call::Clock
    &&& forall|j: int| 0 <= j < k ==> (#[trigger] trail[j]) is Ask && !is_wait(trail[j]->call)
}

proof fn lemma_wait<'a>(
    first: Next<Spawn<'a>, SpawnResult>,
    replies: Seq<Reply>,
    trail: Seq<Next<Spawn<'a>, SpawnResult>>,
    i: int,
) -> (found: (int, BootConfig))
    requires
        first is Ask,
        first->call == Call::Tart(TartCommand::List),
        first->machine.step == SpawnStep::Listing,
        is_run(first, replies, trail),
        0 <= i <= replies.len(),
        trail[i] is Ask,
        trail[i]->machine.step is Booting,
    ensures
        found.0 <= i,
        wait_begins_at(trail, found.0),
        is_wait_config(
            found.1,
            *first->machine.orch.config,
            first->machine.orch.interactive,
        ),
        forall|j: int|
            found.0 <= j <= i ==> (#[trigger] trail[j]) is Ask && trail[j]->machine.step is Booting,
        is_run(
            boot_begins(first->machine.job.vm_name, found.1),
            replies.subrange(found.0, i),
            wait_part(trail, found.0, i),
        ),
    decreases i,
{
    lemma_on_course(first, replies, trail, i);
    assert(goes_on_at(replies, trail, i - 1));
    lemma_on_course(first, replies, trail, i - 1);
    let before = trail[i - 1]->machine;
    if let SpawnStep::Booting { fate, boot } = before.step {
        let (k, c) = lemma_wait(first, replies, trail, i - 1);
        let inner = choose|inner: Next<Boot, IpAddr>|
            {
                &&& #[trigger] boot.transition(replies[i - 1], inner)
                &&& before.follows_boot(trail[i], fate, inner)
            };
        let old_part = wait_part(trail, k, i - 1);
        let part = wait_part(trail, k, i);
        let old_got = replies.subrange(k, i - 1);
        let got = replies.subrange(k, i);
        assert(inner is Ask);
        assert(part[i - k] == inner);
        assert forall|m: int| 0 <= m < got.len() implies #[trigger] goes_on_at(got, part, m) by {
            if m < old_got.len() {
                assert(goes_on_at(old_got, old_part, m));
                assert(part[m] == old_part[m] && part[m + 1] == old_part[m + 1]);
                assert(got[m] == old_got[m]);
            } else {
                assert(got[m] == replies[i - 1]);
            }
        }
        assert(part[0] == old_part[0]);
        (k, c)
    } else {
        let c = trail[i]->machine.step->boot.config;
        assert(wait_part(trail, i, i)[0] == boot_begins(first->machine.job.vm_name, c));
        assert forall|j: int| 0 <= j < i implies (#[trigger] trail[j]) is Ask && !is_wait(
            trail[j]->call,
        ) by {
            lemma_before_wait(first, replies, trail, j, i - 1);
        }
        (i, c)
    }
}

/// Before a call that is no part of the wait for a boot, and is not what comes after it, nothing was
/// waited for.
proof fn lemma_before_wait<'a>(
    first: Next<Spawn<'a>, SpawnResult>,
    replies: Seq<Reply>,
    trail: Seq<Next<Spawn<'a>, SpawnResult>>,
    j: int,
    i: int,
)
    requires
        first is Ask,
        first->call == Call::Tart(TartCommand::List),
        first->machine.step == SpawnStep::Listing,
        is_run(first, replies, trail),
        0 <= j <= i < replies.len(),
        trail[i] is Ask,
        !(trail[i]->machine.step is Booting),
        !(trail[i]->machine.step is Stopping),
        !(trail[i]->machine.step is Loading),
        !(trail[i]->machine.step is Saving),
    ensures
        trail[j] is Ask,
        !is_wait(trail[j]->call),
    decreases i,
{
    lemma_on_course(first, replies, trail, i);
    if j < i {
        assert(goes_on_at(replies, trail, i - 1));
        lemma_on_course(first, replies, trail, i - 1);
        let before = trail[i - 1]->machine;
        if let SpawnStep::Booting { fate, boot } = before.step {
            let inner = choose|inner: Next<Boot, IpAddr>|
                {
                    &&& #[trigger] boot.transition(replies[i - 1], inner)
                    &&& before.follows_boot(trail[i], fate, inner)
                };
            assert(boot.transition(replies[i - 1], inner));
        }
        lemma_before_wait(first, replies, trail, j, i - 1);
    }
}

/// While a spawn waits for a boot, it does what a wait for the boot of its machine does: with the
/// timeout of the settings, for the user of the settings, and content with an address if no user is
/// at the terminal. The error of the wait is what the spawn ends with, at once or after a new machine
/// was stopped.
pub proof fn law_a_spawn_waits_by_its_settings<'a>(
    orch: VmOrchestrator<'a>,
    branch: String,
    repo_name: String,
    worktree_path: String,
    repo_root: String,
    first: Next<Spawn<'a>, SpawnResult>,
    replies: Seq<Reply>,
    trail: Seq<Next<Spawn<'a>, SpawnResult>>,
    i: int,
) -> (found: (int, BootConfig, Seq<Next<Boot, IpAddr>>))
    requires
        spawn_begins(first, orch, branch, repo_name, worktree_path, repo_root),
        is_run(first, replies, trail),
        0 <= i < replies.len(),
        trail[i] is Ask,
        is_wait(trail[i]->call),
    ensures
        ({
            let (k, wait, part) = found;
            let vm_name = first->machine.job.vm_name;
            &&& 0 < k <= i
            &&& trail[k]->call == Call::Clock
            &&& forall|j: int| 0 <= j < k ==> (#[trigger] trail[j]) is Ask && !is_wait(trail[j]->call)
            &&& is_wait_config(wait, *orch.config, orch.interactive)
            &&& part.len() == i - k + 2
            &&& is_run(boot_begins(vm_name, wait), replies.subrange(k, i + 1), part)
            &&& forall|m: int|
                0 <= m <= i - k ==> (#[trigger] part[m]) is Ask && trail[k + m] is Ask && trail[k
                    + m]->call == part[m]->call
            &&& follows_wait(vm_name, replies, part.last(), trail[i + 1])
            &&& part.last() matches Next::Done(Err(e)) ==> i + 2 <= replies.len() ==> fails(
                trail[i + 2],
                e,
            )
        }),
{
    lemma_on_course(first, replies, trail, i);
    assert(goes_on_at(replies, trail, i));
    if i + 1 < replies.len() {
        assert(goes_on_at(replies, trail, i + 1));
    }
    let vm_name = first->machine.job.vm_name;
    let before = trail[i]->machine;
    let (k, wait) = lemma_wait(first, replies, trail, i);
    let fate = before.step->Booting_fate;
    let boot = before.step->boot;
    let inner = choose|inner: Next<Boot, IpAddr>|
        {
            &&& #[trigger] boot.transition(replies[i], inner)
            &&& before.follows_boot(trail[i + 1], fate, inner)
        };
    let asked = wait_part(trail, k, i);
    let part = asked.push(inner);
    let old_got = replies.subrange(k, i);
    let got = replies.subrange(k, i + 1);
    assert forall|m: int| 0 <= m < got.len() implies #[trigger] goes_on_at(got, part, m) by {
        if m < old_got.len() {
            assert(goes_on_at(old_got, asked, m));
            assert(part[m] == asked[m] && part[m + 1] == asked[m + 1]);
            assert(got[m] == old_got[m]);
        } else {
            assert(got[m] == replies[i]);
        }
    }
    assert(part[0] == asked[0]);
    lemma_one_word(replies, vm_name@);
    (k, wait, part)
}

/// The boot timeout of the settings governs the wait of a spawn: the wait ends in an error at the
/// first look at the clock that shows so many seconds, or more, after the look with which it began,
/// and at no other reply. The error is then handed on, or a new machine is stopped before that.
pub proof fn law_the_timeout_of_the_settings_governs<'a>(
    orch: VmOrchestrator<'a>,
    branch: String,
    repo_name: String,
    worktree_path: String,
    repo_root: String,
    first: Next<Spawn<'a>, SpawnResult>,
    replies: Seq<Reply>,
    trail: Seq<Next<Spawn<'a>, SpawnResult>>,
    i: int,
) -> (k: int)
    requires
        spawn_begins(first, orch, branch, repo_name, worktree_path, repo_root),
        is_run(first, replies, trail),
        0 <= i < replies.len(),
        trail[i] is Ask,
        is_wait(trail[i]->call),
    ensures
        0 < k <= i,
        trail[k]->call == Call::Clock,
        replies[k] is Instant,
        forall|j: int| 0 <= j < k ==> (#[trigger] trail[j]) is Ask && !is_wait(trail[j]->call),
        ({
            ||| trail[i + 1] matches Next::Done(Err(_))
            ||| trail[i + 1] is Ask && (trail[i + 1]->call matches Call::Tart(
                TartCommand::Stop { .. },
            ))
        }) <==> k < i && trail[i]->call == Call::Clock && (replies[i] matches Reply::Instant(now)
            && now - replies[k]->Instant_0 >= orch.config.boot_timeout_secs * 1_000_000_000),
{
    let (k, wait, part) = law_a_spawn_waits_by_its_settings(
        orch,
        branch,
        repo_name,
        worktree_path,
        repo_root,
        first,
        replies,
        trail,
        i,
    );
    let vm_name = first->machine.job.vm_name;
    let got = replies.subrange(k, i + 1);
    super::boot::law_a_wait_does_what_is_due(vm_name, wait, got, part, i - k);
    super::boot::law_a_wait_does_what_is_due(vm_name, wait, got, part, 0);
    assert(got[0] == replies[k]);
    assert(got[i - k] == replies[i]);
    assert(part[i - k + 1] == part.last());
    assert(part[i - k]->call == trail[k + (i - k)]->call);
    assert(part[0]->call == trail[k + 0]->call);
    k
}

/// A machine is started as it should be, whatever state it was found in: with its worktree,
/// writable, under the name `code`, and besides it with exactly those of the optional directories
/// that were asked about just before and answered to be present.
pub proof fn law_started_machines_see_what_they_should<'a>(
    orch: VmOrchestrator<'a>,
    branch: String,
    repo_name: String,
    worktree_path: String,
    repo_root: String,
    first: Next<Spawn<'a>, SpawnResult>,
    replies: Seq<Reply>,
    trail: Seq<Next<Spawn<'a>, SpawnResult>>,
    i: int,
    opts: RunOpts,
    name: String,
)
    requires
        spawn_begins(first, orch, branch, repo_name, worktree_path, repo_root),
        is_run(first, replies, trail),
        0 <= i <= replies.len(),
        trail[i] is Ask,
        trail[i]->call == Call::Tart(TartCommand::Run { name, opts }),
    ensures
        i > 0,
        trail[i - 1]->call matches Call::PathsExist(paths) && replies[i - 1] is Presence && exists|
            home: Option<Seq<char>>,
        |
            are_option_paths(paths@, *orch.config, repo_root@, home) && is_right_start(
                opts,
                *orch.config,
                worktree_path@,
                repo_root@,
                home,
                replies[i - 1]->Presence_0@,
            ),
{
    lemma_on_course(first, replies, trail, i);
    assert(goes_on_at(replies, trail, i - 1));
    lemma_on_course(first, replies, trail, i - 1);
    let n = law_a_spawn_does_what_is_due(
        orch,
        branch,
        repo_name,
        worktree_path,
        repo_root,
        first,
        replies,
        trail,
        i - 1,
    );
    let before = trail[i - 1]->machine;
    if let SpawnStep::Booting { fate, boot } = before.step {
        let inner = choose|inner: Next<Boot, IpAddr>|
            {
                &&& #[trigger] boot.transition(replies[i - 1], inner)
                &&& before.follows_boot(trail[i], fate, inner)
            };
        assert(boot.transition(replies[i - 1], inner));
    }
}

/// A spawn deletes no machine.
pub proof fn law_a_spawn_deletes_nothing<'a>(
    first: Next<Spawn<'a>, SpawnResult>,
    replies: Seq<Reply>,
    trail: Seq<Next<Spawn<'a>, SpawnResult>>,
    i: int,
)
    requires
        first is Ask,
        first->call == Call::Tart(TartCommand::List),
        first->machine.step == SpawnStep::Listing,
        is_run(first, replies, trail),
        0 <= i <= replies.len(),
        trail[i] is Ask,
    ensures
        trail[i]->call matches Call::Tart(TartCommand::Delete { .. }) ==> false,
{
    lemma_on_course(first, replies, trail, i);
}

} // verus!
