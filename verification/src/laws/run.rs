//! The procedure behind the command line without a subcommand, call by call.

use vstd::prelude::*;

use super::parts::lemma_grows;
use super::worktree::{
    law_worktrees_are_of_the_branch, lemma_linked, linked_at, search_begins,
};
use crate::cmd::proxy::{looks, EnsureProxy, ProxyStep};
use crate::cmd::spawn::{
    follows_proxy, follows_spawn, follows_worktree, run_begins, Run, RunStep,
};
use crate::config::Config;
use crate::effect::{goes_on_at, is_run, Call, IpAddr, Machine, Next, Reply};
use crate::error::TachikomaError;
use crate::os_path::shown_of;
use crate::path::file_name_of;
use crate::tart::TartCommand;
use crate::vm::spawning::{is_spawn_call, law_a_spawn_keeps_to_its_calls, Spawn};
use crate::vm::worktree::EnsureWorktree;
use crate::vm::{spawn_begins, SpawnResult, VmOrchestrator};

verus! {

/// At which call git is asked for the repository: at the first one if the branch is given, and
/// otherwise at the second one, after git was asked for the branch.
pub open spec fn root_call(branch: Option<String>) -> int {
    if branch is Some {
        0
    } else {
        1
    }
}

/// Whether a branch is the wanted one: the one that was given, or that git named.
pub open spec fn is_wanted(branch: Option<String>, replies: Seq<Reply>, on: String) -> bool {
    match branch {
        Some(given) => on == given,
        None => replies[0] == Reply::Text(Ok(on)),
    }
}

/// Whether a path is the root of the repository, as git gave it.
pub open spec fn is_root(branch: Option<String>, replies: Seq<Reply>, root: String) -> bool {
    replies[root_call(branch)] == Reply::Text(Ok(root))
}

/// Whether a name is that of the repository: the last part of its root, as it is shown, or
/// `unknown`.
pub open spec fn is_repo_name(root: Seq<char>, name: Seq<char>) -> bool {
    match file_name_of(root) {
        Some(last) => name == shown_of(last),
        None => name == "unknown"@,
    }
}

/// Whether two records hold the same settings.
pub open spec fn are_same(a: Config, b: Config) -> bool {
    &&& a.base_image == b.base_image
    &&& a.vm_display == b.vm_display
    &&& a.boot_timeout_secs == b.boot_timeout_secs
    &&& a.ssh_user == b.ssh_user
    &&& a.agent == b.agent
    &&& a.agent_title == b.agent_title
    &&& a.share_claude_dirs@ == b.share_claude_dirs@
    &&& a.worktree_dir == b.worktree_dir
    &&& a.credential_proxy == b.credential_proxy
    &&& a.credential_proxy_bind == b.credential_proxy_bind
    &&& a.credential_proxy_port == b.credential_proxy_port
    &&& a.prune_after_days == b.prune_after_days
}

/// Whether the worktrees were listed at call `i`, or before it.
pub open spec fn seen<'a>(trail: Seq<Next<Run<'a>, SpawnResult>>, i: int) -> bool
    decreases i + 1,
{
    i >= 0 && ((trail[i] is Ask && trail[i]->call is GitListWorktrees) || seen(trail, i - 1))
}

/// Whether a run goes on with the given call, and says so.
pub open spec fn tells<'a>(
    next: Next<Run<'a>, SpawnResult>,
    call: Call,
    status: Seq<char>,
) -> bool {
    next is Ask && next->call == call && (next->status matches Some(shown) && shown@ == status)
}

/// Whether a run goes on with the given call, and says nothing.
pub open spec fn asks_quietly<'a>(next: Next<Run<'a>, SpawnResult>, call: Call) -> bool {
    next is Ask && next->call == call && next->status is None
}

/// Whether a run ends with the given error.
pub open spec fn fails<'a>(
    next: Next<Run<'a>, SpawnResult>,
    e: TachikomaError,
) -> bool {
    next == Next::<Run<'a>, SpawnResult>::Done(Err(e))
}

/// The machine's name.
pub open spec fn name_in(result: SpawnResult) -> String {
    match result {
        SpawnResult::Reconnected { name, .. } => name,
        SpawnResult::Resumed { name, .. } => name,
        SpawnResult::Started { name, .. } => name,
        SpawnResult::Created { name, .. } => name,
    }
}

/// The machine's address.
pub open spec fn ip_in(result: SpawnResult) -> IpAddr {
    match result {
        SpawnResult::Reconnected { ip, .. } => ip,
        SpawnResult::Resumed { ip, .. } => ip,
        SpawnResult::Started { ip, .. } => ip,
        SpawnResult::Created { ip, .. } => ip,
    }
}

/// Whether a run ends well after call `i`: with a session in the machine if there is a user, and at
/// once if there is none.
pub open spec fn comes_to_an_end<'a>(
    config: Config,
    interactive: bool,
    result: SpawnResult,
    replies: Seq<Reply>,
    trail: Seq<Next<Run<'a>, SpawnResult>>,
    i: int,
) -> bool {
    let next = trail[i + 1];
    if interactive {
        &&& asks_quietly(next, Call::SshConnect { ip: ip_in(result), user: config.ssh_user })
        &&& i + 1 < replies.len() ==> match replies[i + 1] {
            Reply::Unit(Ok(_)) => trail[i + 2] == Next::<Run<'a>, SpawnResult>::Done(Ok(result)),
            Reply::Unit(Err(e)) => fails(trail[i + 2], e),
            _ => false,
        }
    } else {
        next == Next::<Run<'a>, SpawnResult>::Done(Ok(result))
    }
}

/// What holds of every procedure that waits in a run.
spec fn on_course<'a>(
    branch: Option<String>,
    cwd: String,
    config: &'a Config,
    interactive: bool,
    replies: Seq<Reply>,
    trail: Seq<Next<Run<'a>, SpawnResult>>,
    i: int,
) -> bool {
    trail[i] matches Next::Ask { status, call, machine } ==> {
        let n = root_call(branch);
        &&& machine.orch.config == config
        &&& machine.orch.interactive == interactive
        &&& match machine.step {
            RunStep::Branch { cwd: at, .. } => {
                &&& i == 0
                &&& branch is None
                &&& at == cwd
                &&& call == Call::GitCurrentBranch { cwd }
                &&& !seen(trail, i)
            },
            RunStep::Repo { branch: on, .. } => {
                &&& i == n
                &&& is_wanted(branch, replies, on)
                &&& call == Call::GitFindRepoRoot { cwd }
                &&& !seen(trail, i)
            },
            RunStep::Proxy { place, proxy } => {
                &&& i > n
                &&& config.credential_proxy
                &&& is_wanted(branch, replies, place.branch)
                &&& is_root(branch, replies, place.repo_root)
                &&& is_repo_name(place.repo_root@, place.repo_name@)
                &&& !seen(trail, i)
                &&& {
                    ||| call is ProxyReachable
                    ||| call is CurrentExe
                    ||| call is SpawnDetached
                    ||| call is Clock
                    ||| call is Sleep
                }
            },
            RunStep::Worktree { place, .. } => {
                &&& i > n
                &&& is_wanted(branch, replies, place.branch)
                &&& is_root(branch, replies, place.repo_root)
                &&& is_repo_name(place.repo_root@, place.repo_name@)
                &&& seen(trail, i)
                &&& call is GitListWorktrees || call is GitCreateWorktree
            },
            RunStep::Spawning { branch: on, repo_root, .. } => {
                &&& i > n
                &&& is_wanted(branch, replies, on)
                &&& is_root(branch, replies, repo_root)
                &&& seen(trail, i)
                &&& is_spawn_call(call)
            },
            RunStep::Provisioning { result } => {
                &&& i > n
                &&& seen(trail, i)
                &&& result is Created
                &&& call matches Call::Provision { ip, vm_name, branch: on, repo_root, config: with }
                &&& ip == ip_in(result)
                &&& vm_name == name_in(result)
                &&& is_wanted(branch, replies, on)
                &&& is_root(branch, replies, repo_root)
                &&& are_same(with, *config)
            },
            RunStep::Connecting { result } => {
                &&& i > n
                &&& seen(trail, i)
                &&& interactive
                &&& call == Call::SshConnect { ip: ip_in(result), user: config.ssh_user }
            },
        }
    }
}

proof fn lemma_on_course<'a>(
    first: Next<Run<'a>, SpawnResult>,
    branch: Option<String>,
    cwd: String,
    config: &'a Config,
    interactive: bool,
    replies: Seq<Reply>,
    trail: Seq<Next<Run<'a>, SpawnResult>>,
    i: int,
)
    requires
        run_begins(first, branch, cwd, config, interactive),
        is_run(first, replies, trail),
        0 <= i <= replies.len(),
    ensures
        on_course(branch, cwd, config, interactive, replies, trail, i),
    decreases i,
{
    if i > 0 {
        lemma_on_course(first, branch, cwd, config, interactive, replies, trail, i - 1);
        assert(goes_on_at(replies, trail, i - 1));
        let before = trail[i - 1]->machine;
        let orch = before.orch;
        let reply = replies[i - 1];
        let next = trail[i];
        match before.step {
            RunStep::Proxy { place, proxy } => {
                let inner = choose|inner: Next<EnsureProxy<'a>, ()>|
                    {
                        &&& #[trigger] proxy.transition(reply, inner)
                        &&& follows_proxy(orch, place, inner, next)
                    };
                assert(proxy.transition(reply, inner));
            },
            RunStep::Worktree { place, search } => {
                let inner = choose|inner: Next<EnsureWorktree<'a>, String>|
                    {
                        &&& #[trigger] search.transition(reply, inner)
                        &&& follows_worktree(orch, place, inner, next)
                    };
                assert(search.transition(reply, inner));
            },
            RunStep::Spawning { branch: on, repo_root, spawn } => {
                let inner = choose|inner: Next<Spawn<'a>, SpawnResult>|
                    {
                        &&& #[trigger] spawn.transition(reply, inner)
                        &&& follows_spawn(orch, on, repo_root, inner, next)
                    };
                if inner is Ask {
                    law_a_spawn_keeps_to_its_calls(spawn, reply, inner);
                }
            },
            _ => {},
        }
    } else {
        assert(!seen(trail, -1));
    }
}

/// Git is asked first: for the branch that the directory is on, unless one is given, and for the
/// repository that it is in. What git does not give ends the run. After that comes the proxy if the
/// settings want it, and the worktrees of the repository otherwise.
pub proof fn law_git_is_asked_first<'a>(
    first: Next<Run<'a>, SpawnResult>,
    branch: Option<String>,
    cwd: String,
    config: &'a Config,
    interactive: bool,
    replies: Seq<Reply>,
    trail: Seq<Next<Run<'a>, SpawnResult>>,
)
    requires
        run_begins(first, branch, cwd, config, interactive),
        is_run(first, replies, trail),
    ensures
        match branch {
            Some(_) => tells(trail[0], Call::GitFindRepoRoot { cwd }, "Resolving branch..."@),
            None => {
                &&& tells(trail[0], Call::GitCurrentBranch { cwd }, "Resolving branch..."@)
                &&& replies.len() > 0 ==> match replies[0] {
                    Reply::Text(Ok(_)) => asks_quietly(trail[1], Call::GitFindRepoRoot { cwd }),
                    Reply::Text(Err(e)) => fails(trail[1], e),
                    _ => false,
                }
            },
        },
        replies.len() > root_call(branch) ==> match replies[root_call(branch)] {
            Reply::Text(Ok(root)) => if config.credential_proxy {
                tells(
                    trail[root_call(branch) + 1],
                    Call::ProxyReachable {
                        bind: config.credential_proxy_bind,
                        port: config.credential_proxy_port,
                    },
                    "Ensuring credential proxy is running..."@,
                )
            } else {
                tells(
                    trail[root_call(branch) + 1],
                    Call::GitListWorktrees { repo_root: root },
                    "Preparing worktree..."@,
                )
            },
            Reply::Text(Err(e)) => fails(trail[root_call(branch) + 1], e),
            _ => false,
        },
{
    if replies.len() > 0 {
        assert(goes_on_at(replies, trail, 0));
    }
    if replies.len() > 1 {
        assert(goes_on_at(replies, trail, 1));
    }
}

proof fn lemma_proxy<'a>(
    first: Next<Run<'a>, SpawnResult>,
    branch: Option<String>,
    cwd: String,
    config: &'a Config,
    interactive: bool,
    replies: Seq<Reply>,
    trail: Seq<Next<Run<'a>, SpawnResult>>,
    i: int,
) -> (part: Seq<Next<EnsureProxy<'a>, ()>>)
    requires
        run_begins(first, branch, cwd, config, interactive),
        is_run(first, replies, trail),
        0 <= i <= replies.len(),
        trail[i] is Ask,
        trail[i]->machine.step is Proxy,
    ensures
        root_call(branch) < i,
        part.len() == i - root_call(branch),
        is_run(
            looks(config, ProxyStep::Looking),
            replies.subrange(root_call(branch) + 1, i),
            part,
        ),
        part.last() is Ask,
        part.last()->machine == trail[i]->machine.step->proxy,
        forall|m: int|
            0 <= m < part.len() ==> (#[trigger] part[m]) is Ask && trail[root_call(branch) + 1
                + m] is Ask && trail[root_call(branch) + 1 + m]->call == part[m]->call,
    decreases i,
{
    let n = root_call(branch);
    lemma_on_course(first, branch, cwd, config, interactive, replies, trail, i);
    assert(goes_on_at(replies, trail, i - 1));
    lemma_on_course(first, branch, cwd, config, interactive, replies, trail, i - 1);
    let before = trail[i - 1]->machine;
    match before.step {
        RunStep::Proxy { place, proxy } => {
            let old_part = lemma_proxy(
                first,
                branch,
                cwd,
                config,
                interactive,
                replies,
                trail,
                i - 1,
            );
            let inner = choose|inner: Next<EnsureProxy<'a>, ()>|
                {
                    &&& #[trigger] proxy.transition(replies[i - 1], inner)
                    &&& follows_proxy(before.orch, place, inner, trail[i])
                };
            lemma_grows(
                looks(config, ProxyStep::Looking),
                replies.subrange(n + 1, i - 1),
                old_part,
                replies[i - 1],
                inner,
            );
            assert(replies.subrange(n + 1, i - 1).push(replies[i - 1]) =~= replies.subrange(
                n + 1,
                i,
            ));
            let part = old_part.push(inner);
            assert forall|m: int| 0 <= m < part.len() implies (#[trigger] part[m]) is Ask && trail[n
                + 1 + m] is Ask && trail[n + 1 + m]->call == part[m]->call by {
                if m < old_part.len() {
                    assert(part[m] == old_part[m]);
                }
            }
            part
        },
        _ => {
            assert(i == n + 1);
            seq![looks(config, ProxyStep::Looking)]
        },
    }
}

/// Before the worktrees are listed, a run does what a look for the credential proxy does, if the
/// settings want it. Once the proxy was seen to, the worktrees of the repository are listed, and if
/// it cannot be started, the run ends.
pub proof fn law_the_proxy_is_part_of_a_run<'a>(
    first: Next<Run<'a>, SpawnResult>,
    branch: Option<String>,
    cwd: String,
    config: &'a Config,
    interactive: bool,
    replies: Seq<Reply>,
    trail: Seq<Next<Run<'a>, SpawnResult>>,
    i: int,
) -> (part: Seq<Next<EnsureProxy<'a>, ()>>)
    requires
        run_begins(first, branch, cwd, config, interactive),
        is_run(first, replies, trail),
        root_call(branch) < i < replies.len(),
        !seen(trail, i),
    ensures
        config.credential_proxy,
        ({
            let k = root_call(branch) + 1;
            &&& part.len() == i - k + 2
            &&& is_run(looks(config, ProxyStep::Looking), replies.subrange(k, i + 1), part)
            &&& forall|m: int|
                0 <= m <= i - k ==> (#[trigger] part[m]) is Ask && trail[k + m] is Ask && trail[k
                    + m]->call == part[m]->call
            &&& match part.last() {
                Next::Ask { call, .. } => asks_quietly(trail[i + 1], call),
                Next::Done(Ok(_)) => replies[k - 1] matches Reply::Text(Ok(root)) && tells(
                    trail[i + 1],
                    Call::GitListWorktrees { repo_root: root },
                    "Preparing worktree..."@,
                ),
                Next::Done(Err(e)) => fails(trail[i + 1], e),
            }
        }),
{
    let k = root_call(branch) + 1;
    lemma_on_course(first, branch, cwd, config, interactive, replies, trail, i);
    assert(goes_on_at(replies, trail, i));
    let before = trail[i]->machine;
    let asked = lemma_proxy(first, branch, cwd, config, interactive, replies, trail, i);
    let proxy = before.step->proxy;
    let inner = choose|inner: Next<EnsureProxy<'a>, ()>|
        {
            &&& #[trigger] proxy.transition(replies[i], inner)
            &&& follows_proxy(before.orch, before.step->Proxy_place, inner, trail[i + 1])
        };
    lemma_grows(
        looks(config, ProxyStep::Looking),
        replies.subrange(k, i),
        asked,
        replies[i],
        inner,
    );
    assert(replies.subrange(k, i).push(replies[i]) =~= replies.subrange(k, i + 1));
    let part = asked.push(inner);
    assert forall|m: int| 0 <= m <= i - k implies (#[trigger] part[m]) is Ask && trail[k + m] is Ask
        && trail[k + m]->call == part[m]->call by {
        assert(part[m] == asked[m]);
    }
    assert(inner matches Next::Ask { status, .. } ==> status is None);
    part
}

/// The call at which the worktrees are listed, for the search that call `i` belongs to.
proof fn lemma_search<'a>(
    first: Next<Run<'a>, SpawnResult>,
    branch: Option<String>,
    cwd: String,
    config: &'a Config,
    interactive: bool,
    replies: Seq<Reply>,
    trail: Seq<Next<Run<'a>, SpawnResult>>,
    i: int,
) -> (found: (int, Seq<Next<EnsureWorktree<'a>, String>>))
    requires
        run_begins(first, branch, cwd, config, interactive),
        is_run(first, replies, trail),
        0 <= i <= replies.len(),
        trail[i] is Ask,
        trail[i]->machine.step is Worktree,
    ensures
        ({
            let (k, part) = found;
            let place = trail[i]->machine.step->Worktree_place;
            &&& root_call(branch) < k <= i
            &&& trail[k]->call is GitListWorktrees
            &&& part.len() == i - k + 1
            &&& is_run(
                search_begins(config, place.repo_root, place.branch, place.repo_name),
                replies.subrange(k, i),
                part,
            )
            &&& part.last() is Ask
            &&& part.last()->machine == trail[i]->machine.step->search
            &&& forall|m: int|
                0 <= m < part.len() ==> (#[trigger] part[m]) is Ask && trail[k + m] is Ask && trail[k
                    + m]->call == part[m]->call
        }),
    decreases i,
{
    lemma_on_course(first, branch, cwd, config, interactive, replies, trail, i);
    assert(goes_on_at(replies, trail, i - 1));
    lemma_on_course(first, branch, cwd, config, interactive, replies, trail, i - 1);
    let before = trail[i - 1]->machine;
    let place = trail[i]->machine.step->Worktree_place;
    let begun = search_begins(config, place.repo_root, place.branch, place.repo_name);
    match before.step {
        RunStep::Worktree { place: held, search } => {
            let (k, old_part) = lemma_search(
                first,
                branch,
                cwd,
                config,
                interactive,
                replies,
                trail,
                i - 1,
            );
            let inner = choose|inner: Next<EnsureWorktree<'a>, String>|
                {
                    &&& #[trigger] search.transition(replies[i - 1], inner)
                    &&& follows_worktree(before.orch, held, inner, trail[i])
                };
            lemma_grows(begun, replies.subrange(k, i - 1), old_part, replies[i - 1], inner);
            assert(replies.subrange(k, i - 1).push(replies[i - 1]) =~= replies.subrange(k, i));
            let part = old_part.push(inner);
            assert forall|m: int| 0 <= m < part.len() implies (#[trigger] part[m]) is Ask && trail[k
                + m] is Ask && trail[k + m]->call == part[m]->call by {
                if m < old_part.len() {
                    assert(part[m] == old_part[m]);
                }
            }
            (k, part)
        },
        RunStep::Proxy { place: held, proxy } => {
            let inner = choose|inner: Next<EnsureProxy<'a>, ()>|
                {
                    &&& #[trigger] proxy.transition(replies[i - 1], inner)
                    &&& follows_proxy(before.orch, held, inner, trail[i])
                };
            assert(proxy.transition(replies[i - 1], inner));
            (i, seq![begun])
        },
        _ => (i, seq![begun]),
    }
}

/// A run does what a search for a worktree does: of the repository that git named, and on the
/// branch that the user gave or git named. What it finds is what the machine is spawned for.
pub proof fn law_the_search_is_part_of_a_run<'a>(
    first: Next<Run<'a>, SpawnResult>,
    branch: Option<String>,
    cwd: String,
    config: &'a Config,
    interactive: bool,
    replies: Seq<Reply>,
    trail: Seq<Next<Run<'a>, SpawnResult>>,
    i: int,
) -> (found: (int, String, String, String, Seq<Next<EnsureWorktree<'a>, String>>))
    requires
        run_begins(first, branch, cwd, config, interactive),
        is_run(first, replies, trail),
        0 <= i < replies.len(),
        trail[i] is Ask,
        trail[i]->call is GitListWorktrees || trail[i]->call is GitCreateWorktree,
    ensures
        ({
            let (k, root, on, repo_name, part) = found;
            &&& root_call(branch) < k <= i
            &&& is_wanted(branch, replies, on)
            &&& is_root(branch, replies, root)
            &&& is_repo_name(root@, repo_name@)
            &&& part.len() == i - k + 2
            &&& is_run(search_begins(config, root, on, repo_name), replies.subrange(k, i + 1), part)
            &&& forall|m: int|
                0 <= m <= i - k ==> (#[trigger] part[m]) is Ask && trail[k + m] is Ask && trail[k
                    + m]->call == part[m]->call
            &&& match part.last() {
                Next::Ask { call, .. } => asks_quietly(trail[i + 1], call),
                Next::Done(Ok(_)) => tells(
                    trail[i + 1],
                    Call::Tart(TartCommand::List),
                    "Spawning VM..."@,
                ),
                Next::Done(Err(e)) => fails(trail[i + 1], e),
            }
        }),
{
    lemma_on_course(first, branch, cwd, config, interactive, replies, trail, i);
    assert(goes_on_at(replies, trail, i));
    let before = trail[i]->machine;
    let (k, asked) = lemma_search(first, branch, cwd, config, interactive, replies, trail, i);
    let place = before.step->Worktree_place;
    let search = before.step->search;
    let inner = choose|inner: Next<EnsureWorktree<'a>, String>|
        {
            &&& #[trigger] search.transition(replies[i], inner)
            &&& follows_worktree(before.orch, place, inner, trail[i + 1])
        };
    lemma_grows(
        search_begins(config, place.repo_root, place.branch, place.repo_name),
        replies.subrange(k, i),
        asked,
        replies[i],
        inner,
    );
    assert(replies.subrange(k, i).push(replies[i]) =~= replies.subrange(k, i + 1));
    let part = asked.push(inner);
    assert forall|m: int| 0 <= m <= i - k implies (#[trigger] part[m]) is Ask && trail[k + m] is Ask
        && trail[k + m]->call == part[m]->call by {
        assert(part[m] == asked[m]);
    }
    assert(inner matches Next::Ask { status, .. } ==> status is None);
    (k, place.repo_root, place.branch, place.repo_name, part)
}

/// A worktree that a run has git create is on the branch that the user gave or git named, character
/// for character, and of the repository that git named.
pub proof fn law_created_worktrees_are_on_the_branch<'a>(
    first: Next<Run<'a>, SpawnResult>,
    branch: Option<String>,
    cwd: String,
    config: &'a Config,
    interactive: bool,
    replies: Seq<Reply>,
    trail: Seq<Next<Run<'a>, SpawnResult>>,
    i: int,
)
    requires
        run_begins(first, branch, cwd, config, interactive),
        is_run(first, replies, trail),
        0 <= i < replies.len(),
        trail[i] is Ask,
        trail[i]->call is GitCreateWorktree,
    ensures
        trail[i]->call matches Call::GitCreateWorktree { repo_root, branch: on, .. } && is_wanted(
            branch,
            replies,
            on,
        ) && is_root(branch, replies, repo_root),
{
    let (k, root, on, repo_name, part) = law_the_search_is_part_of_a_run(
        first,
        branch,
        cwd,
        config,
        interactive,
        replies,
        trail,
        i,
    );
    law_worktrees_are_of_the_branch(
        config,
        root,
        on,
        repo_name,
        replies.subrange(k, i + 1),
        part,
    );
    assert(part[0]->call == trail[k + 0]->call);
    assert(part[i - k]->call == trail[k + (i - k)]->call);
    if let Reply::Worktrees(Ok(worktrees)) = replies.subrange(k, i + 1)[0] {
        lemma_linked(worktrees@, on@);
    }
}

/// Whether a path is that of the worktree that a run found or had created at call `i`.
pub open spec fn is_found<'a>(
    branch: Option<String>,
    replies: Seq<Reply>,
    trail: Seq<Next<Run<'a>, SpawnResult>>,
    i: int,
    path: String,
) -> bool {
    &&& trail[i] is Ask
    &&& match trail[i]->call {
        Call::GitCreateWorktree { .. } => replies[i] == Reply::Text(Ok(path)),
        Call::GitListWorktrees { .. } => {
            &&& replies[i] matches Reply::Worktrees(Ok(worktrees))
            &&& exists|on: String, p: int|
                is_wanted(branch, replies, on) && #[trigger] linked_at(worktrees@, on@, p) && path
                    == worktrees@[p].path
        },
        _ => false,
    }
}

proof fn lemma_found<'a>(
    first: Next<Run<'a>, SpawnResult>,
    branch: Option<String>,
    cwd: String,
    config: &'a Config,
    interactive: bool,
    replies: Seq<Reply>,
    trail: Seq<Next<Run<'a>, SpawnResult>>,
    i: int,
) -> (path: String)
    requires
        run_begins(first, branch, cwd, config, interactive),
        is_run(first, replies, trail),
        0 <= i < replies.len(),
        trail[i] is Ask,
        trail[i]->machine.step is Worktree,
        trail[i + 1] is Ask,
        trail[i + 1]->machine.step is Spawning,
    ensures
        is_found(branch, replies, trail, i, path),
        ({
            let place = trail[i]->machine.step->Worktree_place;
            let next = trail[i + 1];
            &&& spawn_begins(
                Next::Ask { status: None, call: next->call, machine: next->machine.step->spawn },
                VmOrchestrator { config, interactive },
                place.branch,
                place.repo_name,
                path,
                place.repo_root,
            )
            &&& next->machine.step->Spawning_branch == place.branch
            &&& next->machine.step->Spawning_repo_root == place.repo_root
        }),
{
    lemma_on_course(first, branch, cwd, config, interactive, replies, trail, i);
    assert(goes_on_at(replies, trail, i));
    let before = trail[i]->machine;
    let (k, asked) = lemma_search(first, branch, cwd, config, interactive, replies, trail, i);
    let place = before.step->Worktree_place;
    let search = before.step->search;
    let inner = choose|inner: Next<EnsureWorktree<'a>, String>|
        {
            &&& #[trigger] search.transition(replies[i], inner)
            &&& follows_worktree(before.orch, place, inner, trail[i + 1])
        };
    let begun = search_begins(config, place.repo_root, place.branch, place.repo_name);
    lemma_grows(begun, replies.subrange(k, i), asked, replies[i], inner);
    let got = replies.subrange(k, i).push(replies[i]);
    let part = asked.push(inner);
    law_worktrees_are_of_the_branch(
        config,
        place.repo_root,
        place.branch,
        place.repo_name,
        got,
        part,
    );
    let path = inner->Done_0->Ok_0;
    assert(part[i - k + 1] == inner);
    assert(asked[0]->call == trail[k + 0]->call);
    assert(asked[i - k]->call == trail[k + (i - k)]->call);
    assert(part[0] == asked[0]);
    assert(part[i - k] == asked[i - k]);
    if k == i {
        assert(got[0] == replies[i]);
        let worktrees = replies[i]->Worktrees_0->Ok_0;
        lemma_linked(worktrees@, place.branch@);
        let p = choose|p: int| linked_at(worktrees@, place.branch@, p);
        assert(linked_at(worktrees@, place.branch@, p));
    } else {
        assert(got[0] == replies[k]);
        if let Reply::Worktrees(Ok(worktrees)) = replies[k] {
            lemma_linked(worktrees@, place.branch@);
        }
        assert(got[1] == replies[i]);
    }
    path
}

proof fn lemma_spawn<'a>(
    first: Next<Run<'a>, SpawnResult>,
    branch: Option<String>,
    cwd: String,
    config: &'a Config,
    interactive: bool,
    replies: Seq<Reply>,
    trail: Seq<Next<Run<'a>, SpawnResult>>,
    i: int,
) -> (found: (int, String, String, Next<Spawn<'a>, SpawnResult>, Seq<Next<Spawn<'a>, SpawnResult>>))
    requires
        run_begins(first, branch, cwd, config, interactive),
        is_run(first, replies, trail),
        0 <= i <= replies.len(),
        trail[i] is Ask,
        trail[i]->machine.step is Spawning,
    ensures
        ({
            let (k, repo_name, path, begun, part) = found;
            let root = trail[i]->machine.step->Spawning_repo_root;
            &&& root_call(branch) < k <= i
            &&& is_found(branch, replies, trail, k - 1, path)
            &&& is_repo_name(root@, repo_name@)
            &&& spawn_begins(
                begun,
                VmOrchestrator { config, interactive },
                trail[i]->machine.step->Spawning_branch,
                repo_name,
                path,
                root,
            )
            &&& part.len() == i - k + 1
            &&& is_run(begun, replies.subrange(k, i), part)
            &&& part.last() is Ask
            &&& part.last()->machine == trail[i]->machine.step->spawn
            &&& forall|m: int|
                0 <= m < part.len() ==> (#[trigger] part[m]) is Ask && trail[k + m] is Ask && trail[k
                    + m]->call == part[m]->call && (m > 0 ==> trail[k + m]->status
                    == part[m]->status)
        }),
    decreases i,
{
    lemma_on_course(first, branch, cwd, config, interactive, replies, trail, i);
    assert(goes_on_at(replies, trail, i - 1));
    lemma_on_course(first, branch, cwd, config, interactive, replies, trail, i - 1);
    let before = trail[i - 1]->machine;
    match before.step {
        RunStep::Spawning { branch: on, repo_root, spawn } => {
            let (k, repo_name, path, begun, old_part) = lemma_spawn(
                first,
                branch,
                cwd,
                config,
                interactive,
                replies,
                trail,
                i - 1,
            );
            let inner = choose|inner: Next<Spawn<'a>, SpawnResult>|
                {
                    &&& #[trigger] spawn.transition(replies[i - 1], inner)
                    &&& follows_spawn(before.orch, on, repo_root, inner, trail[i])
                };
            lemma_grows(begun, replies.subrange(k, i - 1), old_part, replies[i - 1], inner);
            assert(replies.subrange(k, i - 1).push(replies[i - 1]) =~= replies.subrange(k, i));
            let part = old_part.push(inner);
            assert forall|m: int| 0 <= m < part.len() implies (#[trigger] part[m]) is Ask && trail[k
                + m] is Ask && trail[k + m]->call == part[m]->call && (m > 0 ==> trail[k
                + m]->status == part[m]->status) by {
                if m < old_part.len() {
                    assert(part[m] == old_part[m]);
                }
            }
            (k, repo_name, path, begun, part)
        },
        RunStep::Worktree { place, search } => {
            let path = lemma_found(
                first,
                branch,
                cwd,
                config,
                interactive,
                replies,
                trail,
                i - 1,
            );
            let begun = Next::Ask {
                status: None,
                call: trail[i]->call,
                machine: trail[i]->machine.step->spawn,
            };
            (i, place.repo_name, path, begun, seq![begun])
        },
        RunStep::Proxy { place, proxy } => {
            let inner = choose|inner: Next<EnsureProxy<'a>, ()>|
                {
                    &&& #[trigger] proxy.transition(replies[i - 1], inner)
                    &&& follows_proxy(before.orch, place, inner, trail[i])
                };
            assert(proxy.transition(replies[i - 1], inner));
            arbitrary()
        },
        _ => arbitrary(),
    }
}

/// A run does what a spawn does: for the branch that the user gave or git named, the repository that
/// git named, and the worktree that was found or created. A machine that is new is set up next,
/// under its name, at its address, for that branch and repository, with the settings of the run; in
/// any other the user gets a session, if there is one.
pub proof fn law_the_spawn_is_part_of_a_run<'a>(
    first: Next<Run<'a>, SpawnResult>,
    branch: Option<String>,
    cwd: String,
    config: &'a Config,
    interactive: bool,
    replies: Seq<Reply>,
    trail: Seq<Next<Run<'a>, SpawnResult>>,
    i: int,
) -> (found: (
    int,
    (String, String, String, String),
    Next<Spawn<'a>, SpawnResult>,
    Seq<Next<Spawn<'a>, SpawnResult>>,
))
    requires
        run_begins(first, branch, cwd, config, interactive),
        is_run(first, replies, trail),
        0 <= i < replies.len(),
        seen(trail, i),
        trail[i] is Ask,
        !(trail[i]->call is GitListWorktrees),
        !(trail[i]->call is GitCreateWorktree),
        !(trail[i]->call is Provision),
        !(trail[i]->call is SshConnect),
    ensures
        ({
            let (k, (on, repo_name, path, root), begun, part) = found;
            &&& root_call(branch) < k <= i
            &&& is_wanted(branch, replies, on)
            &&& is_root(branch, replies, root)
            &&& is_repo_name(root@, repo_name@)
            &&& is_found(branch, replies, trail, k - 1, path)
            &&& spawn_begins(
                begun,
                VmOrchestrator { config, interactive },
                on,
                repo_name,
                path,
                root,
            )
            &&& part.len() == i - k + 2
            &&& is_run(begun, replies.subrange(k, i + 1), part)
            &&& forall|m: int|
                0 <= m <= i - k ==> (#[trigger] part[m]) is Ask && trail[k + m] is Ask && trail[k
                    + m]->call == part[m]->call && (m > 0 ==> trail[k + m]->status
                    == part[m]->status)
            &&& match part.last() {
                Next::Ask { status, call, .. } => trail[i + 1] is Ask && trail[i + 1]->call == call
                    && trail[i + 1]->status == status,
                Next::Done(Ok(SpawnResult::Created { name, ip })) => {
                    &&& trail[i + 1] is Ask
                    &&& trail[i + 1]->call matches Call::Provision {
                        ip: at,
                        vm_name,
                        branch: of,
                        repo_root,
                        config: with,
                    }
                    &&& tells(trail[i + 1], trail[i + 1]->call, "Provisioning VM..."@)
                    &&& at == ip
                    &&& vm_name == name
                    &&& of == on
                    &&& repo_root == root
                    &&& are_same(with, *config)
                },
                Next::Done(Ok(result)) => comes_to_an_end(
                    *config,
                    interactive,
                    result,
                    replies,
                    trail,
                    i,
                ),
                Next::Done(Err(e)) => fails(trail[i + 1], e),
            }
        }),
{
    lemma_on_course(first, branch, cwd, config, interactive, replies, trail, i);
    assert(goes_on_at(replies, trail, i));
    if i + 1 < replies.len() {
        assert(goes_on_at(replies, trail, i + 1));
    }
    let before = trail[i]->machine;
    let (k, repo_name, path, begun, asked) = lemma_spawn(
        first,
        branch,
        cwd,
        config,
        interactive,
        replies,
        trail,
        i,
    );
    let on = before.step->Spawning_branch;
    let root = before.step->Spawning_repo_root;
    let spawn = before.step->spawn;
    let inner = choose|inner: Next<Spawn<'a>, SpawnResult>|
        {
            &&& #[trigger] spawn.transition(replies[i], inner)
            &&& follows_spawn(before.orch, on, root, inner, trail[i + 1])
        };
    lemma_grows(begun, replies.subrange(k, i), asked, replies[i], inner);
    assert(replies.subrange(k, i).push(replies[i]) =~= replies.subrange(k, i + 1));
    let part = asked.push(inner);
    assert forall|m: int| 0 <= m <= i - k implies (#[trigger] part[m]) is Ask && trail[k + m] is Ask
        && trail[k + m]->call == part[m]->call && (m > 0 ==> trail[k + m]->status
        == part[m]->status) by {
        assert(part[m] == asked[m]);
    }
    (k, (on, repo_name, path, root), begun, part)
}

/// Once a new machine is set up, the user gets a session in it, if there is one. A setup that fails
/// ends the run, and so does the end of the session.
pub proof fn law_runs_end_with_a_session<'a>(
    first: Next<Run<'a>, SpawnResult>,
    branch: Option<String>,
    cwd: String,
    config: &'a Config,
    interactive: bool,
    replies: Seq<Reply>,
    trail: Seq<Next<Run<'a>, SpawnResult>>,
    i: int,
)
    requires
        run_begins(first, branch, cwd, config, interactive),
        is_run(first, replies, trail),
        0 <= i < replies.len(),
        trail[i] is Ask,
    ensures
        trail[i]->call matches Call::Provision { ip, vm_name, .. } ==> match replies[i] {
            Reply::Unit(Ok(_)) => comes_to_an_end(
                *config,
                interactive,
                SpawnResult::Created { name: vm_name, ip },
                replies,
                trail,
                i,
            ),
            Reply::Unit(Err(e)) => fails(trail[i + 1], e),
            _ => false,
        },
        trail[i]->call is SshConnect ==> interactive && match replies[i] {
            Reply::Unit(Ok(_)) => trail[i + 1] matches Next::Done(Ok(_)),
            Reply::Unit(Err(e)) => fails(trail[i + 1], e),
            _ => false,
        },
{
    lemma_on_course(first, branch, cwd, config, interactive, replies, trail, i);
    assert(goes_on_at(replies, trail, i));
    if i + 1 < replies.len() {
        assert(goes_on_at(replies, trail, i + 1));
    }
}

/// A run deletes no machine, and asks for no subcommand.
pub proof fn law_a_run_deletes_nothing<'a>(
    first: Next<Run<'a>, SpawnResult>,
    branch: Option<String>,
    cwd: String,
    config: &'a Config,
    interactive: bool,
    replies: Seq<Reply>,
    trail: Seq<Next<Run<'a>, SpawnResult>>,
    i: int,
)
    requires
        run_begins(first, branch, cwd, config, interactive),
        is_run(first, replies, trail),
        0 <= i <= replies.len(),
        trail[i] is Ask,
    ensures
        trail[i]->call matches Call::Tart(TartCommand::Delete { .. }) ==> false,
        !(trail[i]->call is Subcommand),
{
    lemma_on_course(first, branch, cwd, config, interactive, replies, trail, i);
    if trail[i]->machine.step is Spawning {
        let (k, repo_name, path, begun, part) = lemma_spawn(
            first,
            branch,
            cwd,
            config,
            interactive,
            replies,
            trail,
            i,
        );
        assert(part[i - k]->call == trail[k + (i - k)]->call);
        super::spawn::law_a_spawn_deletes_nothing(begun, replies.subrange(k, i), part, i - k);
    }
}

} // verus!
