//! Which command does what.

use vstd::pervasive::unreached;
use vstd::prelude::*;
use vstd::string::StringExecFns;

use super::naming::{naming_begins, resolve_vm_name, VmNaming};
use super::report::{
    confirms, destroy_prompt, destroy_prompt_text, is_confirmed, prints, prune_report,
    spawn_report, ssh_report, ssh_text, succeeds, success, tells_of_pruning, told_of, Report,
};
use super::{tart_missing_lines, tart_missing_text, Readiness, Surroundings};
use crate::cli::output::{mode_of, OutputMode};
use crate::cli::{Cli, Command, ImageAction};
use crate::cmd::exec::{exec_begins, run as exec_command, Exec};
use crate::cmd::image::{
    build_begins, law_a_build_keeps_to_its_calls, Build, ImageList, Pull, DEFAULT_GOLDEN_IMAGE,
};
use crate::cmd::spawn::{law_a_run_is_no_subcommand, run_begins, Run};
use crate::cmd::{image, spawn};
use crate::config::same_settings;
use crate::effect::{goes_on, goes_on_at, is_run, Call, Kind, Machine, Next, Reply, Subcommand};
use crate::error::TachikomaError;
use crate::names::vm_name_of;
use crate::os_path::{shown, shown_of};
use crate::state::{first_named, known};
use crate::tart::TartCommand;
use crate::text::texts;
use crate::vm::{repo_name_of, SpawnResult};

verus! {

/// What is to be done with a machine, once its name is known.
#[derive(Debug)]
pub enum Task {
    Enter,
    Exec { cmd: Vec<String> },
    Halt,
    Suspend,
    Destroy { force: bool },
    Status { mode: OutputMode },
    Cd,
    Pr,
}

/// What a command waits for at the moment.
pub enum DispatchStep<'a> {
    /// The machine of a branch.
    Spawning { shorthand: bool, run: Run<'a> },
    /// The name of the machine.
    Naming { task: Task, naming: VmNaming },
    /// What the user says to the end of a machine.
    Confirming { vm_name: String },
    /// The remembered machines, to find one's worktree.
    Looking { vm_name: String },
    /// The end of a command in a machine.
    Executing { errand: Exec },
    /// A pull request.
    Opening,
    /// The end of old machines.
    Pruning,
    /// An image from a registry.
    Pulling { image: String, pull: Pull },
    /// A golden image.
    Building { output: String, build: Build },
    /// The images.
    Images { list: ImageList },
    /// The end of a subcommand that is carried out as a whole.
    Whole { report: Report },
}

/// A command on its way.
pub struct Dispatch<'a> {
    pub here: &'a Surroundings,
    pub step: DispatchStep<'a>,
}

/// Whether a command goes on with the given call.
pub open spec fn asks<'a>(
    here: &'a Surroundings,
    next: Next<Dispatch<'a>, Report>,
    call: Call,
) -> bool {
    next matches Next::Ask { status, call: made, machine } && {
        &&& status is None
        &&& made == call
        &&& machine.here == here
    }
}

/// Whether a command goes on with a subcommand that is carried out as a whole.
pub open spec fn asks_whole<'a>(
    here: &'a Surroundings,
    next: Next<Dispatch<'a>, Report>,
    subcommand: Subcommand,
) -> bool {
    asks(here, next, Call::Subcommand(subcommand)) && next->machine.step is Whole
}

/// Whether a command ends with the given message of success.
pub open spec fn ends_with<'a>(next: Next<Dispatch<'a>, Report>, text: Seq<char>) -> bool {
    next matches Next::Done(Ok(report)) && succeeds(report, text)
}

/// Whether a command goes on to destroy a machine.
pub open spec fn destroys<'a>(
    here: &'a Surroundings,
    vm_name: String,
    next: Next<Dispatch<'a>, Report>,
) -> bool {
    &&& asks_whole(here, next, Subcommand::Destroy { vm_name })
    &&& succeeds(next->machine.step->report, "Destroyed "@ + vm_name@)
}

/// Whether a command goes on with its task.
pub open spec fn performs<'a>(
    here: &'a Surroundings,
    task: Task,
    vm_name: String,
    next: Next<Dispatch<'a>, Report>,
) -> bool {
    let ssh_user = here.config.ssh_user;
    match task {
        Task::Enter => {
            &&& asks_whole(here, next, Subcommand::Enter { vm_name, ssh_user })
            &&& next->machine.step->report == Report::Nothing
        },
        Task::Exec { cmd } => {
            &&& next matches Next::Ask { status, call, machine }
            &&& machine.here == here
            &&& machine.step matches DispatchStep::Executing { errand }
            &&& exec_begins(Next::Ask { status, call, machine: errand }, vm_name, cmd@, ssh_user, false)
        },
        Task::Halt => {
            &&& asks_whole(here, next, Subcommand::Halt { vm_name })
            &&& succeeds(next->machine.step->report, "Stopped "@ + vm_name@)
        },
        Task::Suspend => {
            &&& asks_whole(here, next, Subcommand::Suspend { vm_name })
            &&& succeeds(next->machine.step->report, "Stopped "@ + vm_name@)
        },
        Task::Destroy { force } => if force {
            destroys(here, vm_name, next)
        } else {
            &&& next matches Next::Ask { status, call: Call::ReadLine { prompt }, machine }
            &&& status is None
            &&& prompt@ == destroy_prompt_text(vm_name@)
            &&& machine == (Dispatch { here, step: DispatchStep::Confirming { vm_name } })
        },
        Task::Status { mode } => {
            &&& asks_whole(here, next, Subcommand::Status { vm_name, mode })
            &&& next->machine.step->report == Report::Nothing
        },
        Task::Cd => {
            &&& asks(here, next, Call::LoadState)
            &&& next->machine.step == (DispatchStep::Looking { vm_name })
        },
        Task::Pr => {
            &&& asks(here, next, Call::OpenPr { vm_name })
            &&& next->machine.step == DispatchStep::Opening
        },
    }
}

/// How a command goes on as the search for the machine's name does.
pub open spec fn follows_naming<'a>(
    here: &'a Surroundings,
    task: Task,
    inner: Next<VmNaming, String>,
    next: Next<Dispatch<'a>, Report>,
) -> bool {
    match inner {
        Next::Ask { status, call, machine } => next == (Next::<Dispatch<'a>, Report>::Ask {
            status,
            call,
            machine: Dispatch { here, step: DispatchStep::Naming { task, naming: machine } },
        }),
        Next::Done(Ok(vm_name)) => performs(here, task, vm_name, next),
        Next::Done(Err(e)) => next == Next::<Dispatch<'a>, Report>::Done(Err(e)),
    }
}

/// How a command goes on as the spawn does.
pub open spec fn follows_run<'a>(
    here: &'a Surroundings,
    shorthand: bool,
    inner: Next<Run<'a>, SpawnResult>,
    next: Next<Dispatch<'a>, Report>,
) -> bool {
    match inner {
        Next::Ask { status, call, machine } => next == (Next::<Dispatch<'a>, Report>::Ask {
            status,
            call,
            machine: Dispatch { here, step: DispatchStep::Spawning { shorthand, run: machine } },
        }),
        Next::Done(Ok(result)) => ends_with(next, told_of(result, shorthand)),
        Next::Done(Err(e)) => next == Next::<Dispatch<'a>, Report>::Done(Err(e)),
    }
}

/// How a command goes on as the command in the machine does.
pub open spec fn follows_exec<'a>(
    here: &'a Surroundings,
    inner: Next<Exec, String>,
    next: Next<Dispatch<'a>, Report>,
) -> bool {
    match inner {
        Next::Ask { status, call, machine } => next == (Next::<Dispatch<'a>, Report>::Ask {
            status,
            call,
            machine: Dispatch { here, step: DispatchStep::Executing { errand: machine } },
        }),
        Next::Done(Ok(output)) => next == Next::<Dispatch<'a>, Report>::Done(
            Ok(Report::Raw(output)),
        ),
        Next::Done(Err(e)) => next == Next::<Dispatch<'a>, Report>::Done(Err(e)),
    }
}

/// How a command goes on as the build does.
pub open spec fn follows_build<'a>(
    here: &'a Surroundings,
    output: String,
    inner: Next<Build, ()>,
    next: Next<Dispatch<'a>, Report>,
) -> bool {
    match inner {
        Next::Ask { status, call, machine } => next == (Next::<Dispatch<'a>, Report>::Ask {
            status,
            call,
            machine: Dispatch { here, step: DispatchStep::Building { output, build: machine } },
        }),
        Next::Done(Ok(_)) => ends_with(next, "Built golden image '"@ + output@ + "'"@),
        Next::Done(Err(e)) => next == Next::<Dispatch<'a>, Report>::Done(Err(e)),
    }
}

fn ask_whole<'a>(here: &'a Surroundings, subcommand: Subcommand, report: Report) -> (next: Next<
    Dispatch<'a>,
    Report,
>)
    ensures
        asks_whole(here, next, subcommand),
        next->machine.step->report == report,
{
    Next::Ask {
        status: None,
        call: Call::Subcommand(subcommand),
        machine: Dispatch { here, step: DispatchStep::Whole { report } },
    }
}

fn destroy<'a>(here: &'a Surroundings, vm_name: String) -> (next: Next<Dispatch<'a>, Report>)
    ensures
        destroys(here, vm_name, next),
{
    let report = success("Destroyed ", vm_name.as_str(), "");
    proof {
        reveal_strlit("");
        assert("Destroyed "@ + vm_name@ + ""@ =~= "Destroyed "@ + vm_name@);
    }
    ask_whole(here, Subcommand::Destroy { vm_name }, report)
}

fn stopped(vm_name: &str) -> (report: Report)
    ensures
        succeeds(report, "Stopped "@ + vm_name@),
{
    proof {
        reveal_strlit("");
        assert("Stopped "@ + vm_name@ + ""@ =~= "Stopped "@ + vm_name@);
    }
    success("Stopped ", vm_name, "")
}

fn perform<'a>(here: &'a Surroundings, task: Task, vm_name: String) -> (next: Next<
    Dispatch<'a>,
    Report,
>)
    ensures
        performs(here, task, vm_name, next),
        next is Ask,
        next->machine.awaits() == next->call.kind(),
{
    let ssh_user = here.config.ssh_user.clone();
    match task {
        Task::Enter => ask_whole(here, Subcommand::Enter { vm_name, ssh_user }, Report::Nothing),
        Task::Exec { cmd } => match exec_command(vm_name, &cmd, ssh_user, false) {
            Next::Ask { status, call, machine } => Next::Ask {
                status,
                call,
                machine: Dispatch { here, step: DispatchStep::Executing { errand: machine } },
            },
            Next::Done(_) => unreached(),
        },
        Task::Halt => {
            let report = stopped(vm_name.as_str());
            ask_whole(here, Subcommand::Halt { vm_name }, report)
        },
        Task::Suspend => {
            let report = stopped(vm_name.as_str());
            ask_whole(here, Subcommand::Suspend { vm_name }, report)
        },
        Task::Destroy { force } => {
            if force {
                destroy(here, vm_name)
            } else {
                let prompt = destroy_prompt(vm_name.as_str());
                Next::Ask {
                    status: None,
                    call: Call::ReadLine { prompt },
                    machine: Dispatch { here, step: DispatchStep::Confirming { vm_name } },
                }
            }
        },
        Task::Status { mode } => ask_whole(
            here,
            Subcommand::Status { vm_name, mode },
            Report::Nothing,
        ),
        Task::Cd => Next::Ask {
            status: None,
            call: Call::LoadState,
            machine: Dispatch { here, step: DispatchStep::Looking { vm_name } },
        },
        Task::Pr => Next::Ask {
            status: None,
            call: Call::OpenPr { vm_name },
            machine: Dispatch { here, step: DispatchStep::Opening },
        },
    }
}

fn follow_naming<'a>(here: &'a Surroundings, task: Task, inner: Next<VmNaming, String>) -> (next:
    Next<Dispatch<'a>, Report>)
    requires
        inner matches Next::Ask { call, machine, .. } ==> machine.awaits() == call.kind(),
    ensures
        follows_naming(here, task, inner, next),
        next matches Next::Ask { call, machine, .. } ==> machine.awaits() == call.kind(),
{
    match inner {
        Next::Ask { status, call, machine } => Next::Ask {
            status,
            call,
            machine: Dispatch { here, step: DispatchStep::Naming { task, naming: machine } },
        },
        Next::Done(Ok(vm_name)) => perform(here, task, vm_name),
        Next::Done(Err(e)) => Next::Done(Err(e)),
    }
}

impl<'a> Machine for Dispatch<'a> {
    type Output = Report;

    open spec fn awaits(&self) -> Kind {
        match self.step {
            DispatchStep::Spawning { run, .. } => run.awaits(),
            DispatchStep::Naming { naming, .. } => naming.awaits(),
            DispatchStep::Confirming { .. } => Kind::OsText,
            DispatchStep::Looking { .. } => Kind::Loaded,
            DispatchStep::Executing { errand } => errand.awaits(),
            DispatchStep::Opening => Kind::Text,
            DispatchStep::Pruning => Kind::Pruned,
            DispatchStep::Pulling { pull, .. } => pull.awaits(),
            DispatchStep::Building { build, .. } => build.awaits(),
            DispatchStep::Images { list } => list.awaits(),
            DispatchStep::Whole { .. } => Kind::Unit,
        }
    }

    open spec fn transition(self, reply: Reply, next: Next<Self, Report>) -> bool {
        let here = self.here;
        match self.step {
            DispatchStep::Spawning { shorthand, run } => exists|inner: Next<Run<'a>, SpawnResult>|
                {
                    &&& #[trigger] run.transition(reply, inner)
                    &&& follows_run(here, shorthand, inner, next)
                },
            DispatchStep::Naming { task, naming } => exists|inner: Next<VmNaming, String>|
                {
                    &&& #[trigger] naming.transition(reply, inner)
                    &&& follows_naming(here, task, inner, next)
                },
            DispatchStep::Confirming { vm_name } => match reply->OsText_0 {
                Ok(input) => if confirms(input@) {
                    destroys(here, vm_name, next)
                } else {
                    ends_with(next, "Aborted"@)
                },
                Err(e) => next matches Next::Done(Err(TachikomaError::Other(m))) && m@
                    == "Failed to read input: "@ + e@,
            },
            DispatchStep::Looking { vm_name } => match reply->Loaded_0 {
                Ok(state) => if known(state.vms@, vm_name@) {
                    exists|i: int| #[trigger]
                        first_named(state.vms@, vm_name@, i) && (next matches Next::Done(Ok(report))
                            && prints(report, seq![shown_of(state.vms@[i].worktree_path@)]))
                } else {
                    next matches Next::Done(Err(TachikomaError::Vm(m))) && m@ == "VM '"@ + vm_name@
                        + "' not found"@
                },
                Err(e) => next == Next::<Self, Report>::Done(Err(e)),
            },
            DispatchStep::Executing { errand } => exists|inner: Next<Exec, String>|
                {
                    &&& #[trigger] errand.transition(reply, inner)
                    &&& follows_exec(here, inner, next)
                },
            DispatchStep::Opening => match reply->Text_0 {
                Ok(url) => ends_with(next, "PR created: "@ + url@),
                Err(e) => next == Next::<Self, Report>::Done(Err(e)),
            },
            DispatchStep::Pruning => match reply->Pruned_0 {
                Ok(result) => next matches Next::Done(Ok(report)) && tells_of_pruning(
                    report,
                    result,
                ),
                Err(e) => next == Next::<Self, Report>::Done(Err(e)),
            },
            DispatchStep::Pulling { image, .. } => match reply->Unit_0 {
                Ok(_) => ends_with(next, "Pulled image '"@ + image@ + "'"@),
                Err(e) => next == Next::<Self, Report>::Done(Err(e)),
            },
            DispatchStep::Building { output, build } => exists|inner: Next<Build, ()>|
                {
                    &&& #[trigger] build.transition(reply, inner)
                    &&& follows_build(here, output, inner, next)
                },
            DispatchStep::Images { .. } => match reply->Vms_0 {
                Ok(vms) => next matches Next::Done(Ok(Report::Lines(names))) && image::are_names(
                    names@,
                    vms@,
                ),
                Err(e) => next == Next::<Self, Report>::Done(Err(e)),
            },
            DispatchStep::Whole { report } => match reply->Unit_0 {
                Ok(_) => next == Next::<Self, Report>::Done(Ok(report)),
                Err(e) => next == Next::<Self, Report>::Done(Err(e)),
            },
        }
    }

    fn resume(self, reply: Reply) -> (next: Next<Self, Report>) {
        let Dispatch { here, step } = self;
        match (step, reply) {
            (DispatchStep::Spawning { shorthand, run }, reply) => {
                let ghost waiting = run;
                let ghost got = reply;
                let inner = run.resume(reply);
                let ghost inside = inner;
                let next = match inner {
                    Next::Ask { status, call, machine } => Next::Ask {
                        status,
                        call,
                        machine: Dispatch {
                            here,
                            step: DispatchStep::Spawning { shorthand, run: machine },
                        },
                    },
                    Next::Done(Ok(result)) => Next::Done(Ok(spawn_report(&result, shorthand))),
                    Next::Done(Err(e)) => Next::Done(Err(e)),
                };
                assert(waiting.transition(got, inside));
                assert(follows_run(here, shorthand, inside, next));
                next
            },
            (DispatchStep::Naming { task, naming }, reply) => {
                let ghost waiting = naming;
                let ghost got = reply;
                let inner = naming.resume(reply);
                assert(waiting.transition(got, inner));
                follow_naming(here, task, inner)
            },
            (DispatchStep::Confirming { vm_name }, Reply::OsText(input)) => match input {
                Ok(input) => {
                    if is_confirmed(input.as_str()) {
                        destroy(here, vm_name)
                    } else {
                        Next::Done(Ok(Report::Success("Aborted".to_string())))
                    }
                },
                Err(e) => {
                    let mut m = "Failed to read input: ".to_string();
                    m.append(e.as_str());
                    Next::Done(Err(TachikomaError::Other(m)))
                },
            },
            (DispatchStep::Looking { vm_name }, Reply::Loaded(state)) => match state {
                Ok(state) => match state.find_vm(&vm_name) {
                    Some(entry) => {
                        let ghost path = shown_of(entry.worktree_path@);
                        let mut lines: Vec<String> = Vec::new();
                        lines.push(shown(entry.worktree_path.as_str()));
                        assert(texts(lines@) =~= seq![path]);
                        Next::Done(Ok(Report::Lines(lines)))
                    },
                    None => {
                        let mut m = "VM '".to_string();
                        m.append(vm_name.as_str());
                        m.append("' not found");
                        Next::Done(Err(TachikomaError::Vm(m)))
                    },
                },
                Err(e) => Next::Done(Err(e)),
            },
            (DispatchStep::Executing { errand }, reply) => {
                let ghost waiting = errand;
                let ghost got = reply;
                let inner = errand.resume(reply);
                let ghost inside = inner;
                let next = match inner {
                    Next::Ask { status, call, machine } => Next::Ask {
                        status,
                        call,
                        machine: Dispatch { here, step: DispatchStep::Executing { errand: machine } },
                    },
                    Next::Done(Ok(output)) => Next::Done(Ok(Report::Raw(output))),
                    Next::Done(Err(e)) => Next::Done(Err(e)),
                };
                assert(waiting.transition(got, inside));
                assert(follows_exec(here, inside, next));
                next
            },
            (DispatchStep::Opening, Reply::Text(url)) => match url {
                Ok(url) => {
                    let mut m = "PR created: ".to_string();
                    m.append(url.as_str());
                    Next::Done(Ok(Report::Success(m)))
                },
                Err(e) => Next::Done(Err(e)),
            },
            (DispatchStep::Pruning, Reply::Pruned(result)) => match result {
                Ok(result) => Next::Done(Ok(prune_report(&result))),
                Err(e) => Next::Done(Err(e)),
            },
            (DispatchStep::Pulling { image, pull }, reply) => match pull.resume(reply) {
                Next::Done(Ok(_)) => Next::Done(
                    Ok(success("Pulled image '", image.as_str(), "'")),
                ),
                Next::Done(Err(e)) => Next::Done(Err(e)),
                Next::Ask { .. } => unreached(),
            },
            (DispatchStep::Building { output, build }, reply) => {
                let ghost waiting = build;
                let ghost got = reply;
                let ghost name = output;
                let inner = build.resume(reply);
                let ghost inside = inner;
                let next = match inner {
                    Next::Ask { status, call, machine } => Next::Ask {
                        status,
                        call,
                        machine: Dispatch {
                            here,
                            step: DispatchStep::Building { output, build: machine },
                        },
                    },
                    Next::Done(Ok(_)) => Next::Done(
                        Ok(success("Built golden image '", output.as_str(), "'")),
                    ),
                    Next::Done(Err(e)) => Next::Done(Err(e)),
                };
                assert(waiting.transition(got, inside));
                assert(follows_build(here, name, inside, next));
                next
            },
            (DispatchStep::Images { list }, reply) => match list.resume(reply) {
                Next::Done(Ok(names)) => Next::Done(Ok(Report::Lines(names))),
                Next::Done(Err(e)) => Next::Done(Err(e)),
                Next::Ask { .. } => unreached(),
            },
            (DispatchStep::Whole { report }, Reply::Unit(done)) => match done {
                Ok(_) => Next::Done(Ok(report)),
                Err(e) => Next::Done(Err(e)),
            },
            _ => unreached(),
        }
    }
}

/// A name that was given, or another one.
pub open spec fn or_else(name: Option<String>, other: Seq<char>) -> Seq<char> {
    match name {
        Some(name) => name@,
        None => other,
    }
}

fn name_or(name: Option<String>, other: &str) -> (chosen: String)
    ensures
        chosen@ == or_else(name, other@),
{
    match name {
        Some(name) => name,
        None => other.to_string(),
    }
}

/// Whether a command begins with a spawn.
pub open spec fn begins_spawn<'a>(
    here: &'a Surroundings,
    branch: Option<String>,
    interactive: bool,
    shorthand: bool,
    next: Next<Dispatch<'a>, Report>,
) -> bool {
    next matches Next::Ask { status, call, machine } && {
        &&& machine.here == here
        &&& machine.step matches DispatchStep::Spawning { shorthand: short, run }
        &&& short == shorthand
        &&& run_begins(
            Next::Ask { status, call, machine: run },
            branch,
            here.cwd,
            &here.config,
            interactive,
        )
    }
}

/// Whether a command begins with the search for a machine.
pub open spec fn begins_task<'a>(
    here: &'a Surroundings,
    task: Task,
    name: Option<String>,
    next: Next<Dispatch<'a>, Report>,
) -> bool {
    follows_naming(here, task, naming_begins(name, here.cwd), next)
}

/// Whether an image command begins this way.
pub open spec fn begins_image<'a>(
    here: &'a Surroundings,
    action: ImageAction,
    next: Next<Dispatch<'a>, Report>,
) -> bool {
    match action {
        ImageAction::Pull { name } => {
            let wanted = or_else(name, here.config.base_image@);
            next matches Next::Ask {
                status,
                call: Call::Tart(TartCommand::Clone { source, name: local }),
                machine,
            } && {
                &&& status is None
                &&& source@ == wanted
                &&& local@ == wanted + "-local"@
                &&& machine.here == here
                &&& machine.step matches DispatchStep::Pulling { image, .. }
                &&& image@ == wanted
            }
        },
        ImageAction::Build { name, force } => next matches Next::Ask { status, call, machine } && {
            &&& machine.here == here
            &&& machine.step matches DispatchStep::Building { output, build }
            &&& output@ == or_else(name, "tachikoma-golden"@)
            &&& build_begins(
                Next::Ask { status, call, machine: build },
                here.config.base_image,
                output,
                force,
                here.config.agent_title,
            )
        },
        ImageAction::Push { name } => ends_with(
            next,
            "Push not yet implemented for '"@ + or_else(name, here.config.base_image@) + "'"@,
        ),
        ImageAction::List => {
            &&& asks(here, next, Call::Tart(TartCommand::List))
            &&& next->machine.step == (DispatchStep::Images { list: ImageList })
        },
    }
}

/// Whether a command line begins this way.
pub open spec fn dispatch_begins<'a>(
    cli: Cli,
    here: &'a Surroundings,
    next: Next<Dispatch<'a>, Report>,
) -> bool {
    let mode = mode_of(cli.json, cli.verbose);
    match cli.command {
        None => begins_spawn(here, cli.branch, true, true, next),
        Some(Command::Spawn { branch, no_interactive }) => begins_spawn(
            here,
            branch,
            !no_interactive,
            false,
            next,
        ),
        Some(Command::Enter { name }) => begins_task(here, Task::Enter, name, next),
        Some(Command::Exec { cmd }) => begins_task(here, Task::Exec { cmd }, None, next),
        Some(Command::Halt { name }) => begins_task(here, Task::Halt, name, next),
        Some(Command::Suspend { name }) => begins_task(here, Task::Suspend, name, next),
        Some(Command::Destroy { name, force }) => begins_task(
            here,
            Task::Destroy { force },
            name,
            next,
        ),
        Some(Command::List { repo }) => {
            &&& asks_whole(here, next, Subcommand::List { repo, mode })
            &&& next->machine.step->report == Report::Nothing
        },
        Some(Command::Status { name }) => begins_task(
            here,
            Task::Status { mode },
            name,
            next,
        ),
        Some(Command::Cd { name }) => begins_task(here, Task::Cd, name, next),
        Some(Command::Pr { name }) => begins_task(here, Task::Pr, name, next),
        Some(Command::Prune { days, dry_run }) => {
            let days = match days {
                Some(days) => days,
                None => here.config.prune_after_days,
            };
            &&& asks(here, next, Call::Prune { days, dry_run })
            &&& next->machine.step == DispatchStep::Pruning
        },
        Some(Command::Image { action }) => begins_image(here, action, next),
        Some(Command::Doctor) => {
            &&& asks_whole(here, next, Subcommand::Doctor { mode })
            &&& next->machine.step->report == Report::Nothing
        },
        Some(Command::Config { edit }) => {
            &&& asks_whole(
                here,
                next,
                Subcommand::ShowConfig { edit, repo_root: here.repo_root, mode },
            )
            &&& next->machine.step->report == Report::Nothing
        },
        Some(Command::Ssh { action }) => {
            &&& asks_whole(
                here,
                next,
                Subcommand::SshConfig { action, ssh_user: here.config.ssh_user },
            )
            &&& succeeds(next->machine.step->report, ssh_text(action))
        },
        Some(Command::Completions { shell }) => {
            &&& asks_whole(here, next, Subcommand::Completions { shell })
            &&& next->machine.step->report == Report::Nothing
        },
        Some(Command::Mcp) => {
            &&& asks_whole(here, next, Subcommand::Mcp)
            &&& next->machine.step->report == Report::Nothing
        },
        Some(Command::Proxy { action }) => {
            &&& next matches Next::Ask {
                status,
                call: Call::Subcommand(Subcommand::Proxy { action: wanted, config }),
                machine,
            }
            &&& status is None
            &&& wanted == action
            &&& same_settings(config, here.config)
            &&& machine == (Dispatch {
                here,
                step: DispatchStep::Whole { report: Report::Nothing },
            })
        },
    }
}

fn begin_spawn<'a>(
    here: &'a Surroundings,
    branch: Option<String>,
    interactive: bool,
    shorthand: bool,
) -> (next: Next<Dispatch<'a>, Report>)
    ensures
        begins_spawn(here, branch, interactive, shorthand, next),
        next->machine.awaits() == next->call.kind(),
{
    match spawn::run(branch, here.cwd.clone(), &here.config, interactive) {
        Next::Ask { status, call, machine } => Next::Ask {
            status,
            call,
            machine: Dispatch { here, step: DispatchStep::Spawning { shorthand, run: machine } },
        },
        Next::Done(_) => unreached(),
    }
}

fn begin_task<'a>(here: &'a Surroundings, task: Task, name: Option<String>) -> (next: Next<
    Dispatch<'a>,
    Report,
>)
    ensures
        begins_task(here, task, name, next),
        next is Ask,
        next->machine.awaits() == next->call.kind(),
{
    follow_naming(here, task, resolve_vm_name(name, here.cwd.clone()))
}

fn begin_image<'a>(here: &'a Surroundings, action: ImageAction) -> (next: Next<
    Dispatch<'a>,
    Report,
>)
    ensures
        begins_image(here, action, next),
        next matches Next::Ask { call, machine, .. } ==> machine.awaits() == call.kind(),
{
    match action {
        ImageAction::Pull { name } => {
            let image = name_or(name, here.config.base_image.as_str());
            match image::pull(image.clone()) {
                Next::Ask { status, call, machine } => Next::Ask {
                    status,
                    call,
                    machine: Dispatch { here, step: DispatchStep::Pulling { image, pull: machine } },
                },
                Next::Done(_) => unreached(),
            }
        },
        ImageAction::Build { name, force } => {
            let output = name_or(name, DEFAULT_GOLDEN_IMAGE);
            match image::build(
                here.config.base_image.clone(),
                output.clone(),
                force,
                here.config.agent_title.clone(),
            ) {
                Next::Ask { status, call, machine } => Next::Ask {
                    status,
                    call,
                    machine: Dispatch {
                        here,
                        step: DispatchStep::Building { output, build: machine },
                    },
                },
                Next::Done(_) => unreached(),
            }
        },
        ImageAction::Push { name } => {
            let image = name_or(name, here.config.base_image.as_str());
            Next::Done(Ok(success("Push not yet implemented for '", image.as_str(), "'")))
        },
        ImageAction::List => match image::list() {
            Next::Ask { status, call, machine } => Next::Ask {
                status,
                call,
                machine: Dispatch { here, step: DispatchStep::Images { list: machine } },
            },
            Next::Done(_) => unreached(),
        },
    }
}

/// Starts the command that the command line asks for.
pub fn dispatch<'a>(cli: Cli, here: &'a Surroundings) -> (next: Next<Dispatch<'a>, Report>)
    ensures
        dispatch_begins(cli, here, next),
        next matches Next::Ask { call, machine, .. } ==> machine.awaits() == call.kind(),
{
    let mode = OutputMode::from_flags(cli.json, cli.verbose);
    match cli.command {
        None => begin_spawn(here, cli.branch, true, true),
        Some(Command::Spawn { branch, no_interactive }) => begin_spawn(
            here,
            branch,
            !no_interactive,
            false,
        ),
        Some(Command::Enter { name }) => begin_task(here, Task::Enter, name),
        Some(Command::Exec { cmd }) => begin_task(here, Task::Exec { cmd }, None),
        Some(Command::Halt { name }) => begin_task(here, Task::Halt, name),
        Some(Command::Suspend { name }) => begin_task(here, Task::Suspend, name),
        Some(Command::Destroy { name, force }) => begin_task(here, Task::Destroy { force }, name),
        Some(Command::List { repo }) => ask_whole(
            here,
            Subcommand::List { repo, mode },
            Report::Nothing,
        ),
        Some(Command::Status { name }) => begin_task(here, Task::Status { mode }, name),
        Some(Command::Cd { name }) => begin_task(here, Task::Cd, name),
        Some(Command::Pr { name }) => begin_task(here, Task::Pr, name),
        Some(Command::Prune { days, dry_run }) => {
            let days: u64 = match days {
                Some(days) => days,
                None => here.config.prune_after_days,
            };
            Next::Ask {
                status: None,
                call: Call::Prune { days, dry_run },
                machine: Dispatch { here, step: DispatchStep::Pruning },
            }
        },
        Some(Command::Image { action }) => begin_image(here, action),
        Some(Command::Doctor) => ask_whole(here, Subcommand::Doctor { mode }, Report::Nothing),
        Some(Command::Config { edit }) => ask_whole(
            here,
            Subcommand::ShowConfig { edit, repo_root: here.repo_root.clone(), mode },
            Report::Nothing,
        ),
        Some(Command::Ssh { action }) => ask_whole(
            here,
            Subcommand::SshConfig { action, ssh_user: here.config.ssh_user.clone() },
            ssh_report(action),
        ),
        Some(Command::Completions { shell }) => ask_whole(
            here,
            Subcommand::Completions { shell },
            Report::Nothing,
        ),
        Some(Command::Mcp) => ask_whole(here, Subcommand::Mcp, Report::Nothing),
        Some(Command::Proxy { action }) => ask_whole(
            here,
            Subcommand::Proxy { action, config: here.config.duplicate() },
            Report::Nothing,
        ),
    }
}

/// How a command goes on once it is prepared.
pub enum Start<'a> {
    /// The command is begun.
    Begun(Next<Dispatch<'a>, Report>),
    /// The command is refused, and the user is told these lines.
    Refused(Vec<String>),
}

/// Begins the command that the command line asks for, or refuses it if `tart` is missing.
pub fn start<'a>(cli: Cli, ready: &'a Readiness) -> (start: Start<'a>)
    ensures
        match ready {
            Readiness::Ready(here) => start matches Start::Begun(next) && {
                &&& dispatch_begins(cli, here, next)
                &&& next matches Next::Ask { call, machine, .. } ==> machine.awaits() == call.kind()
            },
            Readiness::TartMissing => start matches Start::Refused(lines) && texts(lines@)
                == tart_missing_text(),
        },
{
    match ready {
        Readiness::Ready(here) => Start::Begun(dispatch(cli, here)),
        Readiness::TartMissing => Start::Refused(tart_missing_lines()),
    }
}

/// Whether a name is that of the machine for the branch and the repository that git told of at the
/// beginning of a run.
pub open spec fn is_branch_machine<'a>(
    here: Surroundings,
    vm_name: String,
    replies: Seq<Reply>,
    trail: Seq<Next<Dispatch<'a>, Report>>,
) -> bool {
    &&& trail[0] is Ask
    &&& trail[0]->call == Call::GitCurrentBranch { cwd: here.cwd }
    &&& trail[1] is Ask
    &&& trail[1]->call == Call::GitFindRepoRoot { cwd: here.cwd }
    &&& replies[0] matches Reply::Text(Ok(branch))
    &&& replies[1] matches Reply::Text(Ok(root))
    &&& vm_name@ == vm_name_of(repo_name_of(root@), branch@)
}

/// Whether a machine is the one that a command names, or else that of the branch, found before the
/// call of the given number.
pub open spec fn is_meant<'a>(
    here: Surroundings,
    name: Option<String>,
    vm_name: String,
    replies: Seq<Reply>,
    trail: Seq<Next<Dispatch<'a>, Report>>,
    i: int,
) -> bool {
    match name {
        Some(named) => vm_name == named,
        None => i >= 2 && is_branch_machine(here, vm_name, replies, trail),
    }
}

/// Whether the command line, and the user if need be, asked for a machine to be destroyed by the
/// call of the given number.
pub open spec fn asked_to_destroy<'a>(
    cli: Cli,
    here: Surroundings,
    vm_name: String,
    replies: Seq<Reply>,
    trail: Seq<Next<Dispatch<'a>, Report>>,
    i: int,
) -> bool {
    cli.command matches Some(Command::Destroy { name, force }) && {
        &&& is_meant(here, name, vm_name, replies, trail, i)
        &&& force || {
            &&& i > 0
            &&& trail[i - 1] is Ask
            &&& trail[i - 1]->call matches Call::ReadLine { prompt }
            &&& prompt@ == destroy_prompt_text(vm_name@)
            &&& replies[i - 1] matches Reply::OsText(Ok(input))
            &&& confirms(input@)
        }
    }
}

/// What holds of every command that waits in a run.
spec fn on_course<'a>(
    cli: Cli,
    here: &'a Surroundings,
    replies: Seq<Reply>,
    trail: Seq<Next<Dispatch<'a>, Report>>,
    i: int,
) -> bool {
    trail[i] matches Next::Ask { call, machine, .. } ==> {
        &&& machine.here == here
        &&& call matches Call::Subcommand(Subcommand::Destroy { vm_name }) ==> asked_to_destroy(
            cli,
            *here,
            vm_name,
            replies,
            trail,
            i,
        )
        &&& machine.step matches DispatchStep::Naming { task, naming } ==> {
            &&& task matches Task::Destroy { force } ==> (cli.command matches Some(
                Command::Destroy { name, force: asked },
            ) && name is None && asked == force)
            &&& match naming {
                VmNaming::Branch { cwd } => {
                    &&& i == 0
                    &&& cwd == here.cwd
                    &&& call == Call::GitCurrentBranch { cwd }
                },
                VmNaming::Repo { branch, .. } => {
                    &&& i == 1
                    &&& trail[0] is Ask
                    &&& trail[0]->call == Call::GitCurrentBranch { cwd: here.cwd }
                    &&& replies[0] == Reply::Text(Ok(branch))
                    &&& call == Call::GitFindRepoRoot { cwd: here.cwd }
                },
            }
        }
        &&& machine.step matches DispatchStep::Confirming { vm_name } ==> {
            &&& cli.command matches Some(Command::Destroy { name, .. })
            &&& is_meant(*here, name, vm_name, replies, trail, i)
            &&& call matches Call::ReadLine { prompt }
            &&& prompt@ == destroy_prompt_text(vm_name@)
        }
    }
}

proof fn lemma_on_course<'a>(
    cli: Cli,
    here: &'a Surroundings,
    first: Next<Dispatch<'a>, Report>,
    replies: Seq<Reply>,
    trail: Seq<Next<Dispatch<'a>, Report>>,
    i: int,
)
    requires
        dispatch_begins(cli, here, first),
        is_run(first, replies, trail),
        0 <= i <= replies.len(),
    ensures
        on_course(cli, here, replies, trail, i),
    decreases i,
{
    if i > 0 {
        lemma_on_course(cli, here, first, replies, trail, i - 1);
        assert(goes_on_at(replies, trail, i - 1));
        let before = trail[i - 1]->machine;
        let reply = replies[i - 1];
        let next = trail[i];
        match before.step {
            DispatchStep::Spawning { shorthand, run } => {
                let inner = choose|inner: Next<Run<'a>, SpawnResult>|
                    {
                        &&& #[trigger] run.transition(reply, inner)
                        &&& follows_run(here, shorthand, inner, next)
                    };
                if inner is Ask {
                    law_a_run_is_no_subcommand(run, reply, inner);
                }
            },
            DispatchStep::Naming { task, naming } => {
                let inner = choose|inner: Next<VmNaming, String>|
                    {
                        &&& #[trigger] naming.transition(reply, inner)
                        &&& follows_naming(here, task, inner, next)
                    };
                assert(naming.transition(reply, inner));
            },
            DispatchStep::Executing { errand } => {
                let inner = choose|inner: Next<Exec, String>|
                    {
                        &&& #[trigger] errand.transition(reply, inner)
                        &&& follows_exec(here, inner, next)
                    };
                assert(errand.transition(reply, inner));
            },
            DispatchStep::Building { output, build } => {
                let inner = choose|inner: Next<Build, ()>|
                    {
                        &&& #[trigger] build.transition(reply, inner)
                        &&& follows_build(here, output, inner, next)
                    };
                if inner is Ask {
                    law_a_build_keeps_to_its_calls(build, reply, inner);
                }
            },
            _ => {},
        }
    }
}

/// No machine is destroyed unasked: only the command for it does so, to the machine that it names
/// or else to that of the branch that git told of, and unless it is forced, the user was asked about that very machine just before, and said yes.
pub proof fn law_nothing_is_destroyed_unasked<'a>(
    cli: Cli,
    here: &'a Surroundings,
    first: Next<Dispatch<'a>, Report>,
    replies: Seq<Reply>,
    trail: Seq<Next<Dispatch<'a>, Report>>,
    i: int,
    vm_name: String,
)
    requires
        dispatch_begins(cli, here, first),
        is_run(first, replies, trail),
        0 <= i <= replies.len(),
        trail[i] is Ask,
        trail[i]->call == Call::Subcommand(Subcommand::Destroy { vm_name }),
    ensures
        asked_to_destroy(cli, *here, vm_name, replies, trail, i),
{
    lemma_on_course(cli, here, first, replies, trail, i);
}

/// Whether a command line asks for the machine of a branch and a session in it, by a bare branch or
/// by the subcommand.
pub open spec fn asks_to_spawn(cli: Cli, branch: Option<String>, shorthand: bool) -> bool {
    if shorthand {
        cli.command is None && cli.branch == branch
    } else {
        cli.command == Some(Command::Spawn { branch, no_interactive: false })
    }
}

/// A point of a spawn, as it is when the spawn was asked for in the given way.
pub open spec fn asked_as<'a>(
    point: Next<Dispatch<'a>, Report>,
    shorthand: bool,
) -> Next<Dispatch<'a>, Report> {
    match point {
        Next::Ask {
            status,
            call,
            machine: Dispatch { here, step: DispatchStep::Spawning { run, .. } },
        } => Next::Ask {
            status,
            call,
            machine: Dispatch { here, step: DispatchStep::Spawning { shorthand, run } },
        },
        _ => point,
    }
}

/// Whether a spawn that was asked for in one way ends well at `point` with `end`, and would end so
/// too if it was asked for in the other way, but for the words in which the result is told.
pub open spec fn ends_alike<'a>(
    point: Next<Dispatch<'a>, Report>,
    reply: Reply,
    end: Next<Dispatch<'a>, Report>,
    one: bool,
    other: bool,
) -> bool {
    exists|result: SpawnResult|
        {
            &&& ends_with(end, #[trigger] told_of(result, one))
            &&& forall|last: Next<Dispatch<'a>, Report>|
                ends_with(last, told_of(result, other)) ==> #[trigger] goes_on(
                    asked_as(point, other),
                    reply,
                    last,
                )
        }
}

proof fn lemma_still_spawning<'a>(
    cli: Cli,
    branch: Option<String>,
    shorthand: bool,
    here: &'a Surroundings,
    first: Next<Dispatch<'a>, Report>,
    replies: Seq<Reply>,
    trail: Seq<Next<Dispatch<'a>, Report>>,
    i: int,
)
    requires
        asks_to_spawn(cli, branch, shorthand),
        dispatch_begins(cli, here, first),
        is_run(first, replies, trail),
        0 <= i <= replies.len(),
    ensures
        trail[i] is Ask ==> trail[i]->machine.here == here && (
        trail[i]->machine.step matches DispatchStep::Spawning { shorthand: short, .. } && short
            == shorthand),
    decreases i,
{
    if i > 0 {
        lemma_still_spawning(cli, branch, shorthand, here, first, replies, trail, i - 1);
        assert(goes_on_at(replies, trail, i - 1));
    }
}

/// A bare branch is shorthand for the spawn of it: each run of the one is a run of the other with
/// the same replies, calls and statuses, from the beginning to the end. Only the words in which a
/// good end is told may differ.
pub proof fn law_a_bare_branch_is_spawned<'a>(
    one: Cli,
    other: Cli,
    branch: Option<String>,
    one_short: bool,
    other_short: bool,
    here: &'a Surroundings,
    first: Next<Dispatch<'a>, Report>,
    replies: Seq<Reply>,
    trail: Seq<Next<Dispatch<'a>, Report>>,
)
    requires
        asks_to_spawn(one, branch, one_short),
        asks_to_spawn(other, branch, other_short),
        dispatch_begins(one, here, first),
        is_run(first, replies, trail),
    ensures
        dispatch_begins(other, here, asked_as(first, other_short)),
        forall|i: int|
            0 <= i < trail.len() && (#[trigger] trail[i]) is Ask ==> {
                &&& asked_as(trail[i], other_short) is Ask
                &&& asked_as(trail[i], other_short)->status == trail[i]->status
                &&& asked_as(trail[i], other_short)->call == trail[i]->call
            },
        forall|i: int|
            0 <= i < replies.len() ==> if trail[i + 1] matches Next::Done(Ok(_)) {
                ends_alike(trail[i], #[trigger] replies[i], trail[i + 1], one_short, other_short)
            } else {
                goes_on(
                    asked_as(trail[i], other_short),
                    replies[i],
                    asked_as(trail[i + 1], other_short),
                )
            },
{
    assert forall|i: int| 0 <= i < replies.len() implies if trail[i + 1] matches Next::Done(Ok(_)) {
        ends_alike(trail[i], #[trigger] replies[i], trail[i + 1], one_short, other_short)
    } else {
        goes_on(
            asked_as(trail[i], other_short),
            replies[i],
            asked_as(trail[i + 1], other_short),
        )
    } by {
        lemma_still_spawning(one, branch, one_short, here, first, replies, trail, i);
        assert(goes_on_at(replies, trail, i));
        let run = trail[i]->machine.step->run;
        let inner = choose|inner: Next<Run<'a>, SpawnResult>|
            {
                &&& #[trigger] run.transition(replies[i], inner)
                &&& follows_run(here, one_short, inner, trail[i + 1])
            };
        assert(run.transition(replies[i], inner));
        if let Next::Done(Ok(result)) = inner {
            assert(ends_with(trail[i + 1], told_of(result, one_short)));
            assert forall|last: Next<Dispatch<'a>, Report>|
                ends_with(last, told_of(result, other_short)) implies #[trigger] goes_on(
                asked_as(trail[i], other_short),
                replies[i],
                last,
            ) by {
                assert(follows_run(here, other_short, inner, last));
            }
        } else {
            assert(follows_run(here, other_short, inner, asked_as(trail[i + 1], other_short)));
        }
    }
}

} // verus!
