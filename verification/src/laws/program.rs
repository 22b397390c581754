//! The program, command by command.

use vstd::prelude::*;

use super::exec::law_commands_over_ssh;
use super::image::{
    is_there, law_a_build_deletes_no_other_machine, law_a_build_does_what_is_due,
};
use super::run::{are_same, ip_in, is_repo_name, law_a_run_deletes_nothing, name_in};
use super::state::{is_remembered, law_known_machines_have_entries, remembered_at};
use super::text::{dashes_for_slashes, law_machines_are_named_after_repository_and_branch};
use crate::cli::output::OutputMode;
use crate::cli::{Cli, Command, ImageAction, SshAction};
use crate::cmd::exec::{exec_begins, Exec};
use crate::cmd::image::{build_begins, Build};
use crate::cmd::spawn::{run_begins, Run};
use crate::effect::{goes_on_at, is_run, Call, Machine, Next, PruneResult, Reply, Subcommand};
use crate::error::TachikomaError;
use crate::os_path::shown_of;
use crate::program::dispatch::{
    dispatch_begins, follows_build, follows_exec, follows_naming, follows_run, performs,
    Dispatch, Task,
};
use crate::program::naming::VmNaming;
use crate::program::report::{pruned_lines, Report};
use crate::program::Surroundings;
use crate::state::first_named;
use crate::tart::TartCommand;
use crate::text::{texts, trimmed};
use crate::vm::{repo_name_of, SpawnResult};

verus! {

/// Whether a command ends with a message of success.
pub open spec fn succeeds<'a>(next: Next<Dispatch<'a>, Report>, text: Seq<char>) -> bool {
    next matches Next::Done(Ok(Report::Success(m))) && m@ == text
}

/// Whether a command ends with an error.
pub open spec fn fails<'a>(next: Next<Dispatch<'a>, Report>, e: TachikomaError) -> bool {
    next == Next::<Dispatch<'a>, Report>::Done(Err(e))
}

/// Whether a command asks for a call, and says nothing.
pub open spec fn asks<'a>(next: Next<Dispatch<'a>, Report>, call: Call) -> bool {
    next is Ask && next->status is None && next->call == call
}

/// What a user is told of a machine.
pub open spec fn news(result: SpawnResult, shorthand: bool) -> Seq<char> {
    let name = name_in(result)@;
    let ip = ip_in(result).text@;
    if shorthand {
        match result {
            SpawnResult::Reconnected { .. } => "Reconnected to "@ + name + " ("@ + ip + ")"@,
            SpawnResult::Resumed { .. } => "Resumed "@ + name + " ("@ + ip + ")"@,
            SpawnResult::Started { .. } => "Started "@ + name + " ("@ + ip + ")"@,
            SpawnResult::Created { .. } => "Created "@ + name + " ("@ + ip + ")"@,
        }
    } else {
        "VM "@ + name + " ready at "@ + ip
    }
}

/// The branch that a command line asks a machine for, and whether a user sits at the terminal.
pub open spec fn asked_to_spawn(cli: Cli) -> Option<(Option<String>, bool)> {
    match cli.command {
        None => Some((cli.branch, true)),
        Some(Command::Spawn { branch, no_interactive }) => Some((branch, !no_interactive)),
        _ => None,
    }
}

/// The run inside a command that waits for one.
spec fn run_within<'a>(next: Next<Dispatch<'a>, Report>) -> Next<Run<'a>, SpawnResult> {
    Next::Ask { status: next->status, call: next->call, machine: next->machine.step->run }
}

/// How the run inside a command goes on from point `m`.
spec fn run_beyond<'a>(
    replies: Seq<Reply>,
    trail: Seq<Next<Dispatch<'a>, Report>>,
    m: int,
) -> Next<Run<'a>, SpawnResult> {
    let before = trail[m]->machine;
    choose|inner: Next<Run<'a>, SpawnResult>|
        {
            &&& #[trigger] before.step->run.transition(replies[m], inner)
            &&& follows_run(before.here, before.step->shorthand, inner, trail[m + 1])
        }
}

spec fn run_part<'a>(replies: Seq<Reply>, trail: Seq<Next<Dispatch<'a>, Report>>) -> Seq<
    Next<Run<'a>, SpawnResult>,
> {
    Seq::new(
        trail.len(),
        |m: int|
            if trail[m] is Ask {
                run_within(trail[m])
            } else {
                run_beyond(replies, trail, m - 1)
            },
    )
}

proof fn lemma_spawning<'a>(
    cli: Cli,
    here: &'a Surroundings,
    first: Next<Dispatch<'a>, Report>,
    replies: Seq<Reply>,
    trail: Seq<Next<Dispatch<'a>, Report>>,
    i: int,
)
    requires
        dispatch_begins(cli, here, first),
        is_run(first, replies, trail),
        asked_to_spawn(cli) is Some,
        0 <= i <= replies.len(),
        trail[i] is Ask,
    ensures
        trail[i]->machine.here == here,
        trail[i]->machine.step is Spawning,
        trail[i]->machine.step->shorthand == (cli.command is None),
    decreases i,
{
    if i > 0 {
        assert(goes_on_at(replies, trail, i - 1));
        lemma_spawning(cli, here, first, replies, trail, i - 1);
        let inner = run_beyond(replies, trail, i - 1);
        assert(trail[i - 1]->machine.step->run.transition(replies[i - 1], inner));
    }
}

/// A command line without a subcommand, or with `spawn`, does what a run does: for the branch that
/// it gives, in the current directory, with the settings, and with a user at the terminal unless it
/// says otherwise. In the end the user is told what machine there is.
pub proof fn law_spawn_commands<'a>(
    cli: Cli,
    here: &'a Surroundings,
    first: Next<Dispatch<'a>, Report>,
    replies: Seq<Reply>,
    trail: Seq<Next<Dispatch<'a>, Report>>,
) -> (part: Seq<Next<Run<'a>, SpawnResult>>)
    requires
        dispatch_begins(cli, here, first),
        is_run(first, replies, trail),
        asked_to_spawn(cli) is Some,
    ensures
        part.len() == trail.len(),
        is_run(part[0], replies, part),
        run_begins(
            part[0],
            asked_to_spawn(cli)->Some_0.0,
            here.cwd,
            &here.config,
            asked_to_spawn(cli)->Some_0.1,
        ),
        forall|m: int|
            0 <= m < part.len() ==> (match #[trigger] part[m] {
                Next::Ask { status, call, .. } => trail[m] is Ask && trail[m]->status == status
                    && trail[m]->call == call,
                Next::Done(Ok(result)) => succeeds(trail[m], news(result, cli.command is None)),
                Next::Done(Err(e)) => fails(trail[m], e),
            }),
{
    let part = run_part(replies, trail);
    assert forall|m: int| 0 <= m < replies.len() implies #[trigger] goes_on_at(replies, part, m) && (
    part[m + 1] is Ask <==> trail[m + 1] is Ask) && follows_run(
        here,
        cli.command is None,
        part[m + 1],
        trail[m + 1],
    ) by {
        assert(goes_on_at(replies, trail, m));
        lemma_spawning(cli, here, first, replies, trail, m);
        let inner = run_beyond(replies, trail, m);
        assert(trail[m]->machine.step->run.transition(replies[m], inner));
        assert(part[m] == run_within(trail[m]));
        assert(part[m + 1] == inner);
    }
    assert forall|m: int| 0 <= m < part.len() implies (match #[trigger] part[m] {
        Next::Ask { status, call, .. } => trail[m] is Ask && trail[m]->status == status
            && trail[m]->call == call,
        Next::Done(Ok(result)) => succeeds(trail[m], news(result, cli.command is None)),
        Next::Done(Err(e)) => fails(trail[m], e),
    }) by {
        if m > 0 {
            assert(goes_on_at(replies, part, m - 1));
        }
    }
    part
}

/// What an image is built under: the name that is given, or the usual one.
pub open spec fn is_output(name: Option<String>, output: Seq<char>) -> bool {
    match name {
        Some(given) => output == given@,
        None => output == "tachikoma-golden"@,
    }
}

/// The build inside a command that waits for one.
spec fn build_within<'a>(next: Next<Dispatch<'a>, Report>) -> Next<Build, ()> {
    Next::Ask { status: next->status, call: next->call, machine: next->machine.step->build }
}

/// How the build inside a command goes on from point `m`.
spec fn build_beyond<'a>(
    replies: Seq<Reply>,
    trail: Seq<Next<Dispatch<'a>, Report>>,
    m: int,
) -> Next<Build, ()> {
    let before = trail[m]->machine;
    choose|inner: Next<Build, ()>|
        {
            &&& #[trigger] before.step->build.transition(replies[m], inner)
            &&& follows_build(before.here, before.step->output, inner, trail[m + 1])
        }
}

spec fn build_part<'a>(replies: Seq<Reply>, trail: Seq<Next<Dispatch<'a>, Report>>) -> Seq<
    Next<Build, ()>,
> {
    Seq::new(
        trail.len(),
        |m: int|
            if trail[m] is Ask {
                build_within(trail[m])
            } else {
                build_beyond(replies, trail, m - 1)
            },
    )
}

proof fn lemma_building<'a>(
    cli: Cli,
    here: &'a Surroundings,
    first: Next<Dispatch<'a>, Report>,
    replies: Seq<Reply>,
    trail: Seq<Next<Dispatch<'a>, Report>>,
    i: int,
)
    requires
        dispatch_begins(cli, here, first),
        is_run(first, replies, trail),
        cli.command matches Some(Command::Image { action: ImageAction::Build { .. } }),
        0 <= i <= replies.len(),
        trail[i] is Ask,
    ensures
        trail[i]->machine.here == here,
        trail[i]->machine.step is Building,
        trail[i]->machine.step->output == first->machine.step->output,
    decreases i,
{
    if i > 0 {
        assert(goes_on_at(replies, trail, i - 1));
        lemma_building(cli, here, first, replies, trail, i - 1);
        let inner = build_beyond(replies, trail, i - 1);
        assert(trail[i - 1]->machine.step->build.transition(replies[i - 1], inner));
    }
}

/// `image build` does what a build does: from the base image of the settings, to the name that is
/// given or else the usual one, and with force if and only if the command line says so.
pub proof fn law_image_builds<'a>(
    cli: Cli,
    here: &'a Surroundings,
    name: Option<String>,
    force: bool,
    first: Next<Dispatch<'a>, Report>,
    replies: Seq<Reply>,
    trail: Seq<Next<Dispatch<'a>, Report>>,
) -> (found: (String, Seq<Next<Build, ()>>))
    requires
        dispatch_begins(cli, here, first),
        is_run(first, replies, trail),
        cli.command == Some(Command::Image { action: ImageAction::Build { name, force } }),
    ensures
        ({
            let (output, part) = found;
            &&& is_output(name, output@)
            &&& part.len() == trail.len()
            &&& is_run(part[0], replies, part)
            &&& build_begins(
                part[0],
                here.config.base_image,
                output,
                force,
                here.config.agent_title,
            )
            &&& forall|m: int|
                0 <= m < part.len() ==> (match #[trigger] part[m] {
                    Next::Ask { status, call, .. } => trail[m] is Ask && trail[m]->status == status
                        && trail[m]->call == call,
                    Next::Done(Ok(_)) => succeeds(
                        trail[m],
                        "Built golden image '"@ + output@ + "'"@,
                    ),
                    Next::Done(Err(e)) => fails(trail[m], e),
                })
        }),
{
    let part = build_part(replies, trail);
    let output = first->machine.step->output;
    assert forall|m: int| 0 <= m < replies.len() implies #[trigger] goes_on_at(replies, part, m) && (
    part[m + 1] is Ask <==> trail[m + 1] is Ask) && follows_build(
        here,
        output,
        part[m + 1],
        trail[m + 1],
    ) by {
        assert(goes_on_at(replies, trail, m));
        lemma_building(cli, here, first, replies, trail, m);
        let inner = build_beyond(replies, trail, m);
        assert(trail[m]->machine.step->build.transition(replies[m], inner));
        assert(part[m] == build_within(trail[m]));
        assert(part[m + 1] == inner);
    }
    assert forall|m: int| 0 <= m < part.len() implies (match #[trigger] part[m] {
        Next::Ask { status, call, .. } => trail[m] is Ask && trail[m]->status == status
            && trail[m]->call == call,
        Next::Done(Ok(_)) => succeeds(trail[m], "Built golden image '"@ + output@ + "'"@),
        Next::Done(Err(e)) => fails(trail[m], e),
    }) by {
        if m > 0 {
            assert(goes_on_at(replies, part, m - 1));
        }
    }
    (output, part)
}

/// `image build` without force leaves an image alone that is already there, whether or not it was
/// named on the command line: the list that shows it is the only thing asked for, and the command is
/// refused.
pub proof fn law_images_are_kept_without_force<'a>(
    cli: Cli,
    here: &'a Surroundings,
    name: Option<String>,
    output: Seq<char>,
    first: Next<Dispatch<'a>, Report>,
    replies: Seq<Reply>,
    trail: Seq<Next<Dispatch<'a>, Report>>,
)
    requires
        dispatch_begins(cli, here, first),
        is_run(first, replies, trail),
        cli.command == Some(Command::Image { action: ImageAction::Build { name, force: false } }),
        is_output(name, output),
        replies.len() > 0,
        replies[0] matches Reply::Vms(Ok(vms)) && is_there(vms@, output),
    ensures
        replies.len() == 1,
        asks(trail[0], Call::Tart(TartCommand::List)),
        trail[1] matches Next::Done(Err(TachikomaError::Vm(m))) && m@ == "Image '"@ + output
            + "' already exists. Use --force to overwrite."@,
{
    let (under, part) = law_image_builds(cli, here, name, false, first, replies, trail);
    law_a_build_does_what_is_due(
        part[0],
        here.config.base_image,
        under,
        false,
        here.config.agent_title,
        replies,
        part,
        0,
    );
    assert(part[1] is Done);
    if replies.len() > 1 {
        assert(goes_on_at(replies, part, 1));
    }
}

/// The machine that a command is about, if it is about one: the named one, or, without a name, that
/// of the current branch.
pub open spec fn about(cli: Cli) -> Option<Option<String>> {
    match cli.command {
        Some(Command::Enter { name }) => Some(name),
        Some(Command::Exec { .. }) => Some(None),
        Some(Command::Halt { name }) => Some(name),
        Some(Command::Suspend { name }) => Some(name),
        Some(Command::Destroy { name, .. }) => Some(name),
        Some(Command::Status { name }) => Some(name),
        Some(Command::Cd { name }) => Some(name),
        Some(Command::Pr { name }) => Some(name),
        _ => None,
    }
}

/// The call at which a command gets to its task: the first one if the machine is named, and the
/// third one if git has to be asked for the branch and the repository.
pub open spec fn task_call(cli: Cli) -> int {
    if about(cli) == Some(None::<String>) {
        2
    } else {
        0
    }
}

/// Whether a name is that of the machine that a command is about.
pub open spec fn is_meant(cli: Cli, replies: Seq<Reply>, vm_name: String) -> bool {
    match about(cli) {
        Some(Some(named)) => vm_name == named,
        Some(None) => {
            &&& replies[0] matches Reply::Text(Ok(branch))
            &&& replies[1] matches Reply::Text(Ok(root))
            &&& exists|repo: Seq<char>, r: Seq<char>, b: Seq<char>|
                {
                    &&& is_repo_name(root@, repo)
                    &&& #[trigger] dashes_for_slashes(repo, r)
                    &&& #[trigger] dashes_for_slashes(branch@, b)
                    &&& vm_name@ == "tachikoma-"@ + r + "-"@ + b
                }
        },
        None => false,
    }
}

/// Whether a command ends, after call `i`, with a message, or with the error that came.
pub open spec fn ends_with<'a>(
    replies: Seq<Reply>,
    trail: Seq<Next<Dispatch<'a>, Report>>,
    i: int,
    text: Seq<char>,
) -> bool {
    i < replies.len() ==> match replies[i] {
        Reply::Unit(Ok(_)) => succeeds(trail[i + 1], text),
        Reply::Unit(Err(e)) => fails(trail[i + 1], e),
        _ => false,
    }
}

/// Whether a command ends, after call `i`, with nothing more to say, or with the error that came.
pub open spec fn ends_silently<'a>(
    replies: Seq<Reply>,
    trail: Seq<Next<Dispatch<'a>, Report>>,
    i: int,
) -> bool {
    i < replies.len() ==> match replies[i] {
        Reply::Unit(Ok(_)) => trail[i + 1] == Next::<Dispatch<'a>, Report>::Done(
            Ok(Report::Nothing),
        ),
        Reply::Unit(Err(e)) => fails(trail[i + 1], e),
        _ => false,
    }
}

/// How results are printed: for programs to read if the command line says so, and otherwise at
/// length if it says so.
pub open spec fn is_mode(cli: Cli, mode: OutputMode) -> bool {
    &&& mode == OutputMode::Json <==> cli.json
    &&& mode == OutputMode::Verbose <==> cli.verbose && !cli.json
    &&& mode == OutputMode::Human <==> !cli.verbose && !cli.json
}

/// Whether a command destroys a machine with call `i`, and says so.
pub open spec fn destroys<'a>(
    vm_name: String,
    replies: Seq<Reply>,
    trail: Seq<Next<Dispatch<'a>, Report>>,
    i: int,
) -> bool {
    &&& asks(trail[i], Call::Subcommand(Subcommand::Destroy { vm_name }))
    &&& ends_with(replies, trail, i, "Destroyed "@ + vm_name@)
}

/// What a command does with its machine, from call `t` on.
pub open spec fn is_done<'a>(
    cli: Cli,
    here: Surroundings,
    vm_name: String,
    replies: Seq<Reply>,
    trail: Seq<Next<Dispatch<'a>, Report>>,
    t: int,
) -> bool {
    let ssh_user = here.config.ssh_user;
    match cli.command {
        Some(Command::Enter { .. }) => {
            &&& asks(trail[t], Call::Subcommand(Subcommand::Enter { vm_name, ssh_user }))
            &&& ends_silently(replies, trail, t)
        },
        Some(Command::Exec { .. }) => asks(trail[t], Call::LoadState),
        Some(Command::Halt { .. }) => {
            &&& asks(trail[t], Call::Subcommand(Subcommand::Halt { vm_name }))
            &&& ends_with(replies, trail, t, "Stopped "@ + vm_name@)
        },
        Some(Command::Suspend { .. }) => {
            &&& asks(trail[t], Call::Subcommand(Subcommand::Suspend { vm_name }))
            &&& ends_with(replies, trail, t, "Stopped "@ + vm_name@)
        },
        Some(Command::Destroy { force, .. }) => if force {
            destroys(vm_name, replies, trail, t)
        } else {
            &&& trail[t] is Ask
            &&& trail[t]->status is None
            &&& trail[t]->call matches Call::ReadLine { prompt }
            &&& prompt@ == "Destroy VM '"@ + vm_name@ + "'? This cannot be undone. [y/N] "@
            &&& t < replies.len() ==> match replies[t] {
                Reply::OsText(Ok(input)) => if trimmed(input@) == "y"@ || trimmed(input@) == "Y"@ {
                    destroys(vm_name, replies, trail, t + 1)
                } else {
                    succeeds(trail[t + 1], "Aborted"@)
                },
                Reply::OsText(Err(e)) => trail[t + 1] matches Next::Done(
                    Err(TachikomaError::Other(m)),
                ) && m@ == "Failed to read input: "@ + e@,
                _ => false,
            }
        },
        Some(Command::Status { .. }) => {
            &&& trail[t] is Ask
            &&& trail[t]->status is None
            &&& trail[t]->call matches Call::Subcommand(Subcommand::Status { vm_name: of, mode })
            &&& of == vm_name
            &&& is_mode(cli, mode)
            &&& ends_silently(replies, trail, t)
        },
        Some(Command::Cd { .. }) => {
            &&& asks(trail[t], Call::LoadState)
            &&& t < replies.len() ==> match replies[t] {
                Reply::Loaded(Ok(state)) => if is_remembered(state.vms@, vm_name@) {
                    forall|p: int| #[trigger]
                        remembered_at(state.vms@, vm_name@, p) ==> (trail[t + 1] matches Next::Done(
                            Ok(Report::Lines(lines)),
                        ) && lines@.len() == 1 && lines@[0]@ == shown_of(
                            state.vms@[p].worktree_path@,
                        ))
                } else {
                    trail[t + 1] matches Next::Done(Err(TachikomaError::Vm(m))) && m@ == "VM '"@
                        + vm_name@ + "' not found"@
                },
                Reply::Loaded(Err(e)) => fails(trail[t + 1], e),
                _ => false,
            }
        },
        Some(Command::Pr { .. }) => {
            &&& asks(trail[t], Call::OpenPr { vm_name })
            &&& t < replies.len() ==> match replies[t] {
                Reply::Text(Ok(url)) => succeeds(trail[t + 1], "PR created: "@ + url@),
                Reply::Text(Err(e)) => fails(trail[t + 1], e),
                _ => false,
            }
        },
        _ => false,
    }
}

/// A command about a machine that is not named asks git for the branch and the repository first, in
/// the current directory. What git does not give ends the command.
pub proof fn law_git_tells_which_machine<'a>(
    cli: Cli,
    here: &'a Surroundings,
    first: Next<Dispatch<'a>, Report>,
    replies: Seq<Reply>,
    trail: Seq<Next<Dispatch<'a>, Report>>,
)
    requires
        dispatch_begins(cli, here, first),
        is_run(first, replies, trail),
        about(cli) == Some(None::<String>),
    ensures
        asks(trail[0], Call::GitCurrentBranch { cwd: here.cwd }),
        replies.len() > 0 ==> match replies[0] {
            Reply::Text(Ok(_)) => asks(trail[1], Call::GitFindRepoRoot { cwd: here.cwd }),
            Reply::Text(Err(e)) => fails(trail[1], e),
            _ => false,
        },
        replies.len() > 1 ==> match replies[1] {
            Reply::Text(Ok(_)) => trail[2] is Ask,
            Reply::Text(Err(e)) => fails(trail[2], e),
            _ => false,
        },
{
    if replies.len() > 0 {
        assert(goes_on_at(replies, trail, 0));
        let inner = lemma_naming(replies, trail, 0);
    }
    if replies.len() > 1 {
        assert(goes_on_at(replies, trail, 1));
        let inner = lemma_naming(replies, trail, 1);
    }
}

proof fn lemma_naming<'a>(
    replies: Seq<Reply>,
    trail: Seq<Next<Dispatch<'a>, Report>>,
    i: int,
) -> (inner: Next<VmNaming, String>)
    requires
        0 <= i < replies.len(),
        goes_on_at(replies, trail, i),
        trail[i]->machine.step is Naming,
    ensures
        ({
            let before = trail[i]->machine;
            &&& before.step->naming.transition(replies[i], inner)
            &&& follows_naming(before.here, before.step->task, inner, trail[i + 1])
        }),
{
    let before = trail[i]->machine;
    choose|inner: Next<VmNaming, String>|
        {
            &&& #[trigger] before.step->naming.transition(replies[i], inner)
            &&& follows_naming(before.here, before.step->task, inner, trail[i + 1])
        }
}

/// A command about a machine does its task with the machine that is named, or with that of the
/// current branch and repository. No machine is destroyed unless the command line says so without
/// a question, or the user says yes to it.
pub proof fn law_tasks_are_done<'a>(
    cli: Cli,
    here: &'a Surroundings,
    first: Next<Dispatch<'a>, Report>,
    replies: Seq<Reply>,
    trail: Seq<Next<Dispatch<'a>, Report>>,
) -> (vm_name: String)
    requires
        dispatch_begins(cli, here, first),
        is_run(first, replies, trail),
        about(cli) is Some,
        task_call(cli) <= replies.len(),
        trail[task_call(cli)] is Ask,
    ensures
        is_meant(cli, replies, vm_name),
        is_done(cli, *here, vm_name, replies, trail, task_call(cli)),
{
    let t = task_call(cli);
    let vm_name = lemma_task(cli, here, first, replies, trail);
    if t < replies.len() {
        assert(goes_on_at(replies, trail, t));
    }
    if t + 1 < replies.len() {
        assert(goes_on_at(replies, trail, t + 1));
    }
    if cli.command matches Some(Command::Cd { .. }) && t < replies.len() {
        if let Reply::Loaded(Ok(state)) = replies[t] {
            law_known_machines_have_entries(state.vms@, vm_name@);
            if is_remembered(state.vms@, vm_name@) {
                let i = choose|i: int| #[trigger]
                    first_named(state.vms@, vm_name@, i) && (trail[t + 1] matches Next::Done(
                        Ok(Report::Lines(lines)),
                    ) && texts(lines@) == seq![shown_of(state.vms@[i].worktree_path@)]);
                let lines = trail[t + 1]->Done_0->Ok_0->Lines_0;
                assert(texts(lines@).len() == lines@.len());
                assert(texts(lines@)[0] == lines@[0]@);
                assert forall|p: int| #[trigger] remembered_at(state.vms@, vm_name@, p) implies p
                    == i by {
                    if p < i {
                        assert(state.vms@[p].name@ != vm_name@);
                    } else if i < p {
                        assert(state.vms@[i].name@ != vm_name@);
                    }
                }
            }
        }
    }
    vm_name
}

/// What a command was told to do, as a task.
spec fn is_task(cli: Cli, task: Task) -> bool {
    match cli.command {
        Some(Command::Enter { .. }) => task == Task::Enter,
        Some(Command::Exec { cmd }) => task == (Task::Exec { cmd }),
        Some(Command::Halt { .. }) => task == Task::Halt,
        Some(Command::Suspend { .. }) => task == Task::Suspend,
        Some(Command::Destroy { force, .. }) => task == (Task::Destroy { force }),
        Some(Command::Status { .. }) => task matches Task::Status { mode } && is_mode(cli, mode),
        Some(Command::Cd { .. }) => task == Task::Cd,
        Some(Command::Pr { .. }) => task == Task::Pr,
        _ => false,
    }
}

proof fn lemma_task<'a>(
    cli: Cli,
    here: &'a Surroundings,
    first: Next<Dispatch<'a>, Report>,
    replies: Seq<Reply>,
    trail: Seq<Next<Dispatch<'a>, Report>>,
) -> (vm_name: String)
    requires
        dispatch_begins(cli, here, first),
        is_run(first, replies, trail),
        about(cli) is Some,
        task_call(cli) <= replies.len(),
        trail[task_call(cli)] is Ask,
    ensures
        is_meant(cli, replies, vm_name),
        exists|task: Task| #[trigger]
            is_task(cli, task) && performs(here, task, vm_name, trail[task_call(cli)]),
{
    match about(cli) {
        Some(Some(named)) => {
            let mode = crate::cli::output::mode_of(cli.json, cli.verbose);
            assert(is_task(cli, Task::Status { mode }) || is_task(cli, Task::Enter) || is_task(
                cli,
                Task::Halt,
            ) || is_task(cli, Task::Suspend) || is_task(cli, Task::Destroy { force: true })
                || is_task(cli, Task::Destroy { force: false }) || is_task(cli, Task::Cd)
                || is_task(cli, Task::Pr));
            named
        },
        _ => {
            assert(goes_on_at(replies, trail, 0));
            assert(goes_on_at(replies, trail, 1));
            let asked = lemma_naming(replies, trail, 0);
            let task = first->machine.step->task;
            assert(is_task(cli, task));
            let inner = lemma_naming(replies, trail, 1);
            let branch = replies[0]->Text_0->Ok_0;
            let root = replies[1]->Text_0->Ok_0;
            let repo = repo_name_of(root@);
            law_machines_are_named_after_repository_and_branch(repo, branch@);
            assert(is_repo_name(root@, repo));
            inner->Done_0->Ok_0
        },
    }
}

/// The command in a machine that a command line waits for.
spec fn exec_within<'a>(next: Next<Dispatch<'a>, Report>) -> Next<Exec, String> {
    Next::Ask { status: next->status, call: next->call, machine: next->machine.step->errand }
}

/// How the command in a machine goes on from point `m`.
spec fn exec_beyond<'a>(
    replies: Seq<Reply>,
    trail: Seq<Next<Dispatch<'a>, Report>>,
    m: int,
) -> Next<Exec, String> {
    let before = trail[m]->machine;
    choose|inner: Next<Exec, String>|
        {
            &&& #[trigger] before.step->errand.transition(replies[m], inner)
            &&& follows_exec(before.here, inner, trail[m + 1])
        }
}

spec fn exec_part<'a>(replies: Seq<Reply>, trail: Seq<Next<Dispatch<'a>, Report>>, k: int) -> Seq<
    Next<Exec, String>,
> {
    Seq::new(
        (trail.len() - k) as nat,
        |m: int|
            if trail[k + m] is Ask {
                exec_within(trail[k + m])
            } else {
                exec_beyond(replies, trail, k + m - 1)
            },
    )
}

proof fn lemma_executing<'a>(
    here: &'a Surroundings,
    replies: Seq<Reply>,
    trail: Seq<Next<Dispatch<'a>, Report>>,
    k: int,
    i: int,
)
    requires
        is_run(trail[0], replies, trail),
        0 <= k <= i <= replies.len(),
        trail[k] is Ask,
        trail[k]->machine.here == here,
        trail[k]->machine.step is Executing,
        trail[i] is Ask,
    ensures
        trail[i]->machine.here == here,
        trail[i]->machine.step is Executing,
    decreases i,
{
    if i > k {
        assert(goes_on_at(replies, trail, i - 1));
        lemma_executing(here, replies, trail, k, i - 1);
        let inner = exec_beyond(replies, trail, i - 1);
        assert(trail[i - 1]->machine.step->errand.transition(replies[i - 1], inner));
    }
}

/// `exec` does what a command over SSH does, in the machine of the current branch and repository, as
/// the user of the settings. What the command printed is printed.
pub proof fn law_exec_commands<'a>(
    cli: Cli,
    here: &'a Surroundings,
    cmd: Vec<String>,
    first: Next<Dispatch<'a>, Report>,
    replies: Seq<Reply>,
    trail: Seq<Next<Dispatch<'a>, Report>>,
) -> (found: (String, Seq<Next<Exec, String>>))
    requires
        dispatch_begins(cli, here, first),
        is_run(first, replies, trail),
        cli.command == Some(Command::Exec { cmd }),
        2 <= replies.len(),
        trail[2] is Ask,
    ensures
        ({
            let (vm_name, part) = found;
            &&& is_meant(cli, replies, vm_name)
            &&& part.len() == trail.len() - 2
            &&& is_run(part[0], replies.subrange(2, replies.len() as int), part)
            &&& exec_begins(part[0], vm_name, cmd@, here.config.ssh_user, false)
            &&& forall|m: int|
                0 <= m < part.len() ==> (match #[trigger] part[m] {
                    Next::Ask { status, call, .. } => trail[2 + m] is Ask && trail[2 + m]->status
                        == status && trail[2 + m]->call == call,
                    Next::Done(Ok(output)) => trail[2 + m] == Next::<Dispatch<'a>, Report>::Done(
                        Ok(Report::Raw(output)),
                    ),
                    Next::Done(Err(e)) => fails(trail[2 + m], e),
                })
        }),
{
    let vm_name = lemma_task(cli, here, first, replies, trail);
    let part = exec_part(replies, trail, 2);
    let got = replies.subrange(2, replies.len() as int);
    assert forall|m: int| 0 <= m < got.len() implies #[trigger] goes_on_at(got, part, m) && (
    part[m + 1] is Ask <==> trail[m + 3] is Ask) && follows_exec(
        here,
        part[m + 1],
        trail[m + 3],
    ) by {
        assert(goes_on_at(replies, trail, m + 2));
        lemma_executing(here, replies, trail, 2, m + 2);
        let inner = exec_beyond(replies, trail, m + 2);
        assert(trail[m + 2]->machine.step->errand.transition(replies[m + 2], inner));
        assert(part[m] == exec_within(trail[m + 2]));
        assert(part[m + 1] == inner);
    }
    assert forall|m: int| 0 <= m < part.len() implies (match #[trigger] part[m] {
        Next::Ask { status, call, .. } => trail[2 + m] is Ask && trail[2 + m]->status == status
            && trail[2 + m]->call == call,
        Next::Done(Ok(output)) => trail[2 + m] == Next::<Dispatch<'a>, Report>::Done(
            Ok(Report::Raw(output)),
        ),
        Next::Done(Err(e)) => fails(trail[2 + m], e),
    }) by {
        if m > 0 {
            assert(goes_on_at(got, part, m - 1));
        }
    }
    (vm_name, part)
}

/// Whether lines tell of pruned machines, one each, in order.
pub open spec fn tell_of(lines: Seq<String>, result: PruneResult) -> bool {
    &&& lines.len() == result.pruned@.len()
    &&& forall|p: int|
        0 <= p < lines.len() ==> (#[trigger] lines[p])@ == if result.dry_run {
            "Would prune: "@ + result.pruned@[p]@
        } else {
            "Pruned: "@ + result.pruned@[p]@
        }
}

/// An image that is named, or the base image of the settings.
pub open spec fn is_image(here: Surroundings, name: Option<String>, image: Seq<char>) -> bool {
    match name {
        Some(given) => image == given@,
        None => image == here.config.base_image@,
    }
}

/// What the commands do that are neither about a machine nor bring one up, nor build an image: one
/// call at most, and what is told of it.
pub open spec fn is_carried_out<'a>(
    cli: Cli,
    here: Surroundings,
    replies: Seq<Reply>,
    trail: Seq<Next<Dispatch<'a>, Report>>,
) -> bool {
    match cli.command {
        Some(Command::List { repo }) => {
            &&& trail[0] is Ask
            &&& trail[0]->call matches Call::Subcommand(Subcommand::List { repo: of, mode })
            &&& asks(trail[0], trail[0]->call)
            &&& of == repo
            &&& is_mode(cli, mode)
            &&& ends_silently(replies, trail, 0)
        },
        Some(Command::Prune { days, dry_run }) => {
            &&& trail[0] is Ask
            &&& trail[0]->call matches Call::Prune { days: after, dry_run: dry }
            &&& asks(trail[0], trail[0]->call)
            &&& dry == dry_run
            &&& match days {
                Some(given) => after == given,
                None => after == here.config.prune_after_days,
            }
            &&& replies.len() > 0 ==> match replies[0] {
                Reply::Pruned(Ok(result)) => if result.pruned@.len() == 0 {
                    succeeds(trail[1], "No VMs to prune"@)
                } else {
                    trail[1] matches Next::Done(Ok(Report::Lines(lines))) && tell_of(lines@, result)
                },
                Reply::Pruned(Err(e)) => fails(trail[1], e),
                _ => false,
            }
        },
        Some(Command::Image { action: ImageAction::Pull { name } }) => {
            &&& trail[0] is Ask
            &&& trail[0]->call matches Call::Tart(TartCommand::Clone { source, name: local })
            &&& asks(trail[0], trail[0]->call)
            &&& is_image(here, name, source@)
            &&& local@ == source@ + "-local"@
            &&& ends_with(replies, trail, 0, "Pulled image '"@ + source@ + "'"@)
        },
        Some(Command::Image { action: ImageAction::Push { name } }) => exists|image: Seq<char>|
            #[trigger] is_image(here, name, image) && succeeds(
                trail[0],
                "Push not yet implemented for '"@ + image + "'"@,
            ),
        Some(Command::Image { action: ImageAction::List }) => {
            &&& asks(trail[0], Call::Tart(TartCommand::List))
            &&& replies.len() > 0 ==> match replies[0] {
                Reply::Vms(Ok(vms)) => {
                    &&& trail[1] matches Next::Done(Ok(Report::Lines(lines)))
                    &&& lines@.len() == vms@.len()
                    &&& forall|p: int|
                        0 <= p < lines@.len() ==> (#[trigger] lines@[p])@ == vms@[p].name@
                },
                Reply::Vms(Err(e)) => fails(trail[1], e),
                _ => false,
            }
        },
        Some(Command::Doctor) => {
            &&& trail[0] is Ask
            &&& trail[0]->call matches Call::Subcommand(Subcommand::Doctor { mode })
            &&& asks(trail[0], trail[0]->call)
            &&& is_mode(cli, mode)
            &&& ends_silently(replies, trail, 0)
        },
        Some(Command::Config { edit }) => {
            &&& trail[0] is Ask
            &&& trail[0]->call matches Call::Subcommand(
                Subcommand::ShowConfig { edit: change, repo_root, mode },
            )
            &&& asks(trail[0], trail[0]->call)
            &&& change == edit
            &&& repo_root == here.repo_root
            &&& is_mode(cli, mode)
            &&& ends_silently(replies, trail, 0)
        },
        Some(Command::Ssh { action }) => {
            &&& asks(
                trail[0],
                Call::Subcommand(
                    Subcommand::SshConfig { action, ssh_user: here.config.ssh_user },
                ),
            )
            &&& ends_with(
                replies,
                trail,
                0,
                match action {
                    SshAction::Install => "SSH config installed"@,
                    SshAction::Uninstall => "SSH config removed"@,
                    SshAction::Refresh => "SSH config refreshed"@,
                },
            )
        },
        Some(Command::Completions { shell }) => {
            &&& asks(trail[0], Call::Subcommand(Subcommand::Completions { shell }))
            &&& ends_silently(replies, trail, 0)
        },
        Some(Command::Mcp) => {
            &&& asks(trail[0], Call::Subcommand(Subcommand::Mcp))
            &&& ends_silently(replies, trail, 0)
        },
        Some(Command::Proxy { action }) => {
            &&& trail[0] is Ask
            &&& trail[0]->call matches Call::Subcommand(
                Subcommand::Proxy { action: wanted, config },
            )
            &&& asks(trail[0], trail[0]->call)
            &&& wanted == action
            &&& are_same(config, here.config)
            &&& ends_silently(replies, trail, 0)
        },
        _ => false,
    }
}

/// Every other command is one call at most, with what the command line and the settings say, and
/// what is told of it.
pub proof fn law_other_commands<'a>(
    cli: Cli,
    here: &'a Surroundings,
    first: Next<Dispatch<'a>, Report>,
    replies: Seq<Reply>,
    trail: Seq<Next<Dispatch<'a>, Report>>,
)
    requires
        dispatch_begins(cli, here, first),
        is_run(first, replies, trail),
        about(cli) is None,
        asked_to_spawn(cli) is None,
        !(cli.command matches Some(Command::Image { action: ImageAction::Build { .. } })),
    ensures
        replies.len() <= 1,
        is_carried_out(cli, *here, replies, trail),
{
    if replies.len() > 0 {
        assert(goes_on_at(replies, trail, 0));
    }
    if replies.len() > 1 {
        assert(goes_on_at(replies, trail, 1));
    }
    match cli.command {
        Some(Command::Image { action: ImageAction::Push { name } }) => {
            let image = match name {
                Some(given) => given@,
                None => here.config.base_image@,
            };
            assert(is_image(*here, name, image));
        },
        Some(Command::Prune { .. }) => {
            if replies.len() > 0 {
                if let Reply::Pruned(Ok(result)) = replies[0] {
                    if result.pruned@.len() > 0 {
                        let lines = trail[1]->Done_0->Ok_0->Lines_0;
                        lemma_pruned(lines@, result);
                    }
                }
            }
        },
        _ => {},
    }
}

proof fn lemma_pruned(lines: Seq<String>, result: PruneResult)
    requires
        texts(lines) == pruned_lines(result),
    ensures
        tell_of(lines, result),
{
    reveal_strlit("Would prune");
    reveal_strlit("Pruned");
    reveal_strlit(": ");
    reveal_strlit("Would prune: ");
    reveal_strlit("Pruned: ");
    assert("Would prune"@ + ": "@ =~= "Would prune: "@);
    assert("Pruned"@ + ": "@ =~= "Pruned: "@);
    assert(texts(lines).len() == lines.len());
    assert(texts(result.pruned@).len() == result.pruned@.len());
    assert forall|p: int| 0 <= p < lines.len() implies (#[trigger] lines[p])@ == if result.dry_run {
        "Would prune: "@ + result.pruned@[p]@
    } else {
        "Pruned: "@ + result.pruned@[p]@
    } by {
        assert(texts(lines)[p] == lines[p]@);
        assert(texts(result.pruned@)[p] == result.pruned@[p]@);
    }
}

/// No command line but that of `image build` has a machine deleted by `tart`. That one has its
/// builder deleted, and no other machine but the image it builds, and that only if the command line
/// says `force`.
pub proof fn law_nothing_is_deleted_unasked<'a>(
    cli: Cli,
    here: &'a Surroundings,
    vm_name: String,
    first: Next<Dispatch<'a>, Report>,
    replies: Seq<Reply>,
    trail: Seq<Next<Dispatch<'a>, Report>>,
    i: int,
)
    requires
        dispatch_begins(cli, here, first),
        is_run(first, replies, trail),
        0 <= i <= replies.len(),
        trail[i] is Ask,
        trail[i]->call == Call::Tart(TartCommand::Delete { name: vm_name }),
    ensures
        cli.command matches Some(Command::Image { action: ImageAction::Build { name, force } }) && (
        vm_name@ == "tachikoma-builder"@ || (force && is_output(name, vm_name@))),
{
    if asked_to_spawn(cli) is Some {
        let part = law_spawn_commands(cli, here, first, replies, trail);
        assert(part[i] is Ask);
        law_a_run_deletes_nothing(
            part[0],
            asked_to_spawn(cli)->Some_0.0,
            here.cwd,
            &here.config,
            asked_to_spawn(cli)->Some_0.1,
            replies,
            part,
            i,
        );
    } else if about(cli) is Some {
        lemma_tasks_delete_nothing(cli, here, first, replies, trail, i);
    } else if let Some(Command::Image { action: ImageAction::Build { name, force } }) = cli.command {
        let (output, part) = law_image_builds(cli, here, name, force, first, replies, trail);
        assert(part[i] is Ask);
        law_a_build_deletes_no_other_machine(
            part[0],
            here.config.base_image,
            output,
            force,
            here.config.agent_title,
            replies,
            part,
            i,
        );
    } else {
        law_other_commands(cli, here, first, replies, trail);
        if i == 1 {
            assert(goes_on_at(replies, trail, 0));
        }
    }
}

proof fn lemma_tasks_delete_nothing<'a>(
    cli: Cli,
    here: &'a Surroundings,
    first: Next<Dispatch<'a>, Report>,
    replies: Seq<Reply>,
    trail: Seq<Next<Dispatch<'a>, Report>>,
    i: int,
)
    requires
        dispatch_begins(cli, here, first),
        is_run(first, replies, trail),
        about(cli) is Some,
        0 <= i <= replies.len(),
        trail[i] is Ask,
    ensures
        !(trail[i]->call is Tart),
{
    let t = task_call(cli);
    if t == 2 {
        law_git_tells_which_machine(cli, here, first, replies, trail);
    }
    if i >= t {
        if i > t {
            assert(goes_on_at(replies, trail, t));
        }
        let vm_name = law_tasks_are_done(cli, here, first, replies, trail);
        if let Some(Command::Exec { cmd }) = cli.command {
            let (name, part) = law_exec_commands(cli, here, cmd, first, replies, trail);
            let got = replies.subrange(2, replies.len() as int);
            assert(part[i - 2] is Ask);
            if got.len() > 0 {
                law_commands_over_ssh(part[0], name, cmd@, here.config.ssh_user, got, part);
            }
        } else if i > t {
            let named = lemma_task(cli, here, first, replies, trail);
            if i > t + 1 {
                assert(goes_on_at(replies, trail, t + 1));
            }
            if i > t + 2 {
                assert(goes_on_at(replies, trail, t + 2));
            }
        }
    } else if i == 1 {
        assert(goes_on_at(replies, trail, 0));
    }
}

} // verus!
