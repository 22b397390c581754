//! Pulling, listing and building images.

use vstd::pervasive::unreached;
use vstd::prelude::*;
use vstd::string::StringExecFns;

use crate::effect::{goes_on_at, is_run, Call, IpAddr, Kind, Machine, Next, Reply};
use crate::error::TachikomaError;
use crate::tart::types::{is_listed, listed, RunOpts, TartVmInfo};
use crate::tart::TartCommand;
use crate::text::optional_text;
use crate::vm::boot::{is_default, wait_for_boot, Boot, BootConfig, BootStep};

verus! {

/// The name of the golden image, unless another one is asked for.
pub const DEFAULT_GOLDEN_IMAGE: &'static str = "tachikoma-golden";

/// The name of the machine that golden images are built in.
pub open spec fn builder_vm() -> Seq<char> {
    "tachikoma-builder"@
}

fn builder() -> (name: String)
    ensures
        name@ == builder_vm(),
{
    "tachikoma-builder".to_string()
}

/// An image on its way from a registry.
pub struct Pull;

impl Machine for Pull {
    type Output = ();

    open spec fn awaits(&self) -> Kind {
        Kind::Unit
    }

    open spec fn transition(self, reply: Reply, next: Next<Self, ()>) -> bool {
        next == Next::<Self, ()>::Done(reply->Unit_0)
    }

    fn resume(self, reply: Reply) -> (next: Next<Self, ()>) {
        match reply {
            Reply::Unit(cloned) => Next::Done(cloned),
            _ => unreached(),
        }
    }
}

/// Starts to pull an image. The local copy has the same name with `-local` behind it.
pub fn pull(image_name: String) -> (next: Next<Pull, ()>)
    ensures
        next matches Next::Ask {
            status: None,
            call: Call::Tart(TartCommand::Clone { source, name }),
            machine: Pull,
        } && source == image_name && name@ == image_name@ + "-local"@,
{
    let mut name = image_name.clone();
    name.append("-local");
    Next::Ask {
        status: None,
        call: Call::Tart(TartCommand::Clone { source: image_name, name }),
        machine: Pull,
    }
}

/// A list of images that is waited for.
pub struct ImageList;

/// Whether `names` are the names of the machines, in order.
pub open spec fn are_names(names: Seq<String>, vms: Seq<TartVmInfo>) -> bool {
    &&& names.len() == vms.len()
    &&& forall|i: int| 0 <= i < names.len() ==> #[trigger] names[i] == vms[i].name
}

fn names_of(vms: &Vec<TartVmInfo>) -> (names: Vec<String>)
    ensures
        are_names(names@, vms@),
{
    let mut names: Vec<String> = Vec::new();
    let mut i: usize = 0;
    while i < vms.len()
        invariant
            i <= vms.len(),
            names.len() == i,
            forall|j: int| 0 <= j < i ==> #[trigger] names@[j] == vms@[j].name,
        decreases vms.len() - i,
    {
        names.push(vms[i].name.clone());
        i += 1;
    }
    names
}

impl Machine for ImageList {
    type Output = Vec<String>;

    open spec fn awaits(&self) -> Kind {
        Kind::Vms
    }

    open spec fn transition(self, reply: Reply, next: Next<Self, Vec<String>>) -> bool {
        match reply->Vms_0 {
            Ok(vms) => next matches Next::Done(Ok(names)) && are_names(names@, vms@),
            Err(e) => next == Next::<Self, Vec<String>>::Done(Err(e)),
        }
    }

    fn resume(self, reply: Reply) -> (next: Next<Self, Vec<String>>) {
        match reply {
            Reply::Vms(Ok(vms)) => Next::Done(Ok(names_of(&vms))),
            Reply::Vms(Err(e)) => Next::Done(Err(e)),
            _ => unreached(),
        }
    }
}

/// Starts to list the images.
pub fn list() -> (next: Next<ImageList, Vec<String>>)
    ensures
        next == (Next::<ImageList, Vec<String>>::Ask {
            status: None,
            call: Call::Tart(TartCommand::List),
            machine: ImageList,
        }),
{
    Next::Ask { status: None, call: Call::Tart(TartCommand::List), machine: ImageList }
}

/// What a build waits for at the moment.
pub enum BuildStep {
    /// The machines, to see whether the image is already there.
    Guarding,
    /// The machines, to see whether a builder was left behind.
    Looking,
    /// The end of a builder that was left behind.
    DeletingStale,
    /// The builder.
    CloningBase,
    /// The start of the builder.
    Starting,
    /// The boot of the builder.
    Booting { boot: Boot },
    /// The agent in the builder.
    Installing,
    /// The end of the builder's run.
    Stopping,
    /// The machines, to see whether there is an image to replace.
    Replacing,
    /// The end of the image to replace.
    DeletingExisting,
    /// The image.
    CloningGolden,
    /// The end of the builder.
    DeletingBuilder,
    /// The end of the builder's run, after a failure.
    Halting { error: TachikomaError },
    /// The end of the builder, after a failure. The image follows it, if so said.
    Discarding { error: TachikomaError, golden: bool },
    /// The end of the image, after a failure.
    DiscardingGolden { error: TachikomaError },
}

/// A build of a golden image: clone the base, boot it headless, install the agent, stop it, and
/// clone it to the output. The builder is always cleaned up, even on failure.
pub struct Build {
    pub base_image: String,
    pub output_name: String,
    pub force: bool,
    /// What the agent is called where the user is told of it.
    pub agent_title: String,
    pub step: BuildStep,
}

/// Whether a call lists the machines.
pub open spec fn is_list(call: Call) -> bool {
    call == Call::Tart(TartCommand::List)
}

/// Whether a call clones `source` to `name`.
pub open spec fn is_clone(call: Call, source: Seq<char>, name: Seq<char>) -> bool {
    call matches Call::Tart(TartCommand::Clone { source: from, name: to }) && from@ == source && to@
        == name
}

/// Whether a call starts the named machine headless, with nothing mounted.
pub open spec fn is_headless_run(call: Call, name: Seq<char>) -> bool {
    call matches Call::Tart(TartCommand::Run { name: started, opts }) && started@ == name
        && opts.no_graphics && opts.dirs@.len() == 0 && !opts.rosetta
}

/// Whether a call installs the agent in the named machine.
pub open spec fn is_install(call: Call, name: Seq<char>) -> bool {
    call matches Call::InstallAgent { vm_name } && vm_name@ == name
}

/// Whether a call stops the named machine.
pub open spec fn is_stop(call: Call, name: Seq<char>) -> bool {
    call matches Call::Tart(TartCommand::Stop { name: stopped }) && stopped@ == name
}

/// Whether a call deletes the named machine.
pub open spec fn is_delete(call: Call, name: Seq<char>) -> bool {
    call matches Call::Tart(TartCommand::Delete { name: deleted }) && deleted@ == name
}

/// Whether `error` tells of its cause behind a prefix.
pub open spec fn explains(error: TachikomaError, prefix: Seq<char>, cause: TachikomaError) -> bool {
    error matches TachikomaError::Vm(m) && m@ == prefix + cause.text()
}

fn explain(prefix: &str, cause: TachikomaError) -> (error: TachikomaError)
    ensures
        explains(error, prefix@, cause),
{
    let mut m = prefix.to_string();
    m.append(cause.message());
    TachikomaError::Vm(m)
}

impl Build {
    /// Whether the build goes on, and shows the given status.
    pub open spec fn asks(self, next: Next<Build, ()>, status: Option<Seq<char>>) -> bool {
        next matches Next::Ask { status: shown, machine, .. } && {
            &&& optional_text(shown) == status
            &&& machine.base_image == self.base_image
            &&& machine.output_name == self.output_name
            &&& machine.force == self.force
            &&& machine.agent_title == self.agent_title
        }
    }

    /// Whether the build goes on to clone the base image.
    pub open spec fn clones_base(self, next: Next<Build, ()>) -> bool {
        &&& self.asks(
            next,
            Some("Cloning base image '"@ + self.base_image@ + "' → tachikoma-builder..."@),
        )
        &&& is_clone(next->call, self.base_image@, builder_vm())
        &&& next->machine.step == BuildStep::CloningBase
    }

    /// Whether the build goes on to clone the builder to the output.
    pub open spec fn clones_golden(self, next: Next<Build, ()>) -> bool {
        &&& self.asks(next, Some("Cloning builder VM → '"@ + self.output_name@ + "'..."@))
        &&& is_clone(next->call, builder_vm(), self.output_name@)
        &&& next->machine.step == BuildStep::CloningGolden
    }

    /// Whether the build goes on to delete the builder, and then to fail.
    pub open spec fn discards(self, next: Next<Build, ()>, golden: bool) -> bool {
        &&& self.asks(next, None)
        &&& is_delete(next->call, builder_vm())
        &&& next->machine.step matches BuildStep::Discarding { golden: too, .. }
        &&& too == golden
    }

    /// Whether the build goes on to stop the builder and clean up, and then to fail.
    pub open spec fn cleans_up(self, next: Next<Build, ()>) -> bool {
        &&& self.asks(next, None)
        &&& is_stop(next->call, builder_vm())
        &&& next->machine.step is Halting
    }

    /// How the build goes on as the wait for the boot does.
    pub open spec fn follows_boot(self, next: Next<Build, ()>, boot: Next<Boot, IpAddr>) -> bool {
        match boot {
            Next::Ask { status, call, machine } => {
                &&& self.asks(next, optional_text(status))
                &&& next->call == call
                &&& next->machine.step == (BuildStep::Booting { boot: machine })
            },
            Next::Done(Ok(_)) => {
                &&& self.asks(
                    next,
                    Some("Installing "@ + self.agent_title@ + " in builder VM..."@),
                )
                &&& is_install(next->call, builder_vm())
                &&& next->machine.step == BuildStep::Installing
            },
            Next::Done(Err(error)) => {
                &&& self.cleans_up(next)
                &&& next->machine.step->Halting_error == error
            },
        }
    }

    fn ask(self, status: Option<String>, call: Call, step: BuildStep) -> (next: Next<Build, ()>)
        ensures
            self.asks(next, optional_text(status)),
            next->call == call,
            next->machine.step == step,
    {
        let Build { base_image, output_name, force, agent_title, .. } = self;
        Next::Ask {
            status,
            call,
            machine: Build { base_image, output_name, force, agent_title, step },
        }
    }

    fn clone_base(self) -> (next: Next<Build, ()>)
        ensures
            self.clones_base(next),
    {
        let mut status = "Cloning base image '".to_string();
        status.append(self.base_image.as_str());
        status.append("' → tachikoma-builder...");
        let source = self.base_image.clone();
        self.ask(
            Some(status),
            Call::Tart(TartCommand::Clone { source, name: builder() }),
            BuildStep::CloningBase,
        )
    }

    fn clone_golden(self) -> (next: Next<Build, ()>)
        ensures
            self.clones_golden(next),
    {
        let mut status = "Cloning builder VM → '".to_string();
        status.append(self.output_name.as_str());
        status.append("'...");
        let name = self.output_name.clone();
        self.ask(
            Some(status),
            Call::Tart(TartCommand::Clone { source: builder(), name }),
            BuildStep::CloningGolden,
        )
    }

    fn discard(self, error: TachikomaError, golden: bool) -> (next: Next<Build, ()>)
        ensures
            self.discards(next, golden),
            next->machine.step->Discarding_error == error,
    {
        self.ask(
            None,
            Call::Tart(TartCommand::Delete { name: builder() }),
            BuildStep::Discarding { error, golden },
        )
    }

    /// Starts to clean up after a failure: stop and delete the builder, and delete the image if
    /// it was to be replaced.
    fn cleanup(self, error: TachikomaError) -> (next: Next<Build, ()>)
        ensures
            self.cleans_up(next),
            next->machine.step->Halting_error == error,
    {
        self.ask(
            None,
            Call::Tart(TartCommand::Stop { name: builder() }),
            BuildStep::Halting { error },
        )
    }

    fn look(self) -> (next: Next<Build, ()>)
        ensures
            self.asks(next, None),
            is_list(next->call),
            next->machine.step == BuildStep::Looking,
    {
        self.ask(None, Call::Tart(TartCommand::List), BuildStep::Looking)
    }
}

impl Machine for Build {
    type Output = ();

    open spec fn awaits(&self) -> Kind {
        match self.step {
            BuildStep::Guarding | BuildStep::Looking | BuildStep::Replacing => Kind::Vms,
            BuildStep::Booting { boot } => boot.awaits(),
            _ => Kind::Unit,
        }
    }

    open spec fn transition(self, reply: Reply, next: Next<Self, ()>) -> bool {
        match self.step {
            BuildStep::Guarding => match reply->Vms_0 {
                Err(e) => next == Next::<Self, ()>::Done(Err(e)),
                Ok(vms) => if listed(vms@, self.output_name@) {
                    next matches Next::Done(Err(TachikomaError::Vm(m))) && m@ == "Image '"@
                        + self.output_name@ + "' already exists. Use --force to overwrite."@
                } else {
                    &&& self.asks(next, None)
                    &&& is_list(next->call)
                    &&& next->machine.step == BuildStep::Looking
                },
            },
            BuildStep::Looking => match reply->Vms_0 {
                Err(e) => next == Next::<Self, ()>::Done(Err(e)),
                Ok(vms) => if listed(vms@, builder_vm()) {
                    &&& self.asks(next, Some("Cleaning up stale builder VM..."@))
                    &&& is_delete(next->call, builder_vm())
                    &&& next->machine.step == BuildStep::DeletingStale
                } else {
                    self.clones_base(next)
                },
            },
            BuildStep::DeletingStale => self.clones_base(next),
            BuildStep::CloningBase => match reply->Unit_0 {
                Err(e) => next matches Next::Done(Err(error)) && explains(
                    error,
                    "Failed to clone base image: "@,
                    e,
                ),
                Ok(_) => {
                    &&& self.asks(next, Some("Booting builder VM..."@))
                    &&& is_headless_run(next->call, builder_vm())
                    &&& next->machine.step == BuildStep::Starting
                },
            },
            BuildStep::Starting => match reply->Unit_0 {
                Err(e) => {
                    &&& self.discards(next, false)
                    &&& explains(
                        next->machine.step->Discarding_error,
                        "Failed to start builder VM: "@,
                        e,
                    )
                },
                Ok(_) => {
                    &&& self.asks(next, Some("Waiting for builder VM to boot..."@))
                    &&& next->call == Call::Clock
                    &&& next->machine.step matches BuildStep::Booting { boot }
                    &&& boot.vm_name@ == builder_vm()
                    &&& is_default(boot.config)
                    &&& boot.step == BootStep::Starting
                },
            },
            BuildStep::Booting { boot } => exists|inner: Next<Boot, IpAddr>|
                {
                    &&& #[trigger] boot.transition(reply, inner)
                    &&& self.follows_boot(next, inner)
                },
            BuildStep::Installing => match reply->Unit_0 {
                Err(e) => {
                    &&& self.cleans_up(next)
                    &&& next->machine.step->Halting_error == e
                },
                Ok(_) => {
                    &&& self.asks(next, Some("Stopping builder VM..."@))
                    &&& is_stop(next->call, builder_vm())
                    &&& next->machine.step == BuildStep::Stopping
                },
            },
            BuildStep::Stopping => match reply->Unit_0 {
                Err(e) => {
                    &&& self.cleans_up(next)
                    &&& explains(
                        next->machine.step->Halting_error,
                        "Failed to stop builder VM: "@,
                        e,
                    )
                },
                Ok(_) => if self.force {
                    &&& self.asks(next, None)
                    &&& is_list(next->call)
                    &&& next->machine.step == BuildStep::Replacing
                } else {
                    self.clones_golden(next)
                },
            },
            BuildStep::Replacing => match reply->Vms_0 {
                Err(e) => {
                    &&& self.discards(next, false)
                    &&& next->machine.step->Discarding_error == e
                },
                Ok(vms) => if listed(vms@, self.output_name@) {
                    &&& self.asks(
                        next,
                        Some("Deleting existing '"@ + self.output_name@ + "'..."@),
                    )
                    &&& is_delete(next->call, self.output_name@)
                    &&& next->machine.step == BuildStep::DeletingExisting
                } else {
                    self.clones_golden(next)
                },
            },
            BuildStep::DeletingExisting => self.clones_golden(next),
            BuildStep::CloningGolden => match reply->Unit_0 {
                Err(e) => {
                    &&& self.discards(next, false)
                    &&& explains(
                        next->machine.step->Discarding_error,
                        "Failed to clone builder to golden image: "@,
                        e,
                    )
                },
                Ok(_) => {
                    &&& self.asks(next, Some("Cleaning up builder VM..."@))
                    &&& is_delete(next->call, builder_vm())
                    &&& next->machine.step == BuildStep::DeletingBuilder
                },
            },
            BuildStep::DeletingBuilder => next matches Next::Done(Ok(_)),
            BuildStep::Halting { error } => {
                &&& self.discards(next, self.force)
                &&& next->machine.step->Discarding_error == error
            },
            BuildStep::Discarding { error, golden } => if golden {
                &&& self.asks(next, None)
                &&& is_delete(next->call, self.output_name@)
                &&& next->machine.step == (BuildStep::DiscardingGolden { error })
            } else {
                next == Next::<Self, ()>::Done(Err(error))
            },
            BuildStep::DiscardingGolden { error } => next == Next::<Self, ()>::Done(Err(error)),
        }
    }

    fn resume(self, reply: Reply) -> (next: Next<Self, ()>) {
        let ghost before = self;
        let Build { base_image, output_name, force, agent_title, step } = self;
        // The build itself, while its step is dealt with.
        let rest = Build { base_image, output_name, force, agent_title, step: BuildStep::Guarding };
        match (step, reply) {
            (BuildStep::Guarding, Reply::Vms(vms)) => match vms {
                Err(e) => Next::Done(Err(e)),
                Ok(vms) => {
                    if is_listed(&vms, &rest.output_name) {
                        let mut m = "Image '".to_string();
                        m.append(rest.output_name.as_str());
                        m.append("' already exists. Use --force to overwrite.");
                        Next::Done(Err(TachikomaError::Vm(m)))
                    } else {
                        rest.look()
                    }
                },
            },
            (BuildStep::Looking, Reply::Vms(vms)) => match vms {
                Err(e) => Next::Done(Err(e)),
                Ok(vms) => {
                    if is_listed(&vms, &builder()) {
                        rest.ask(
                            Some("Cleaning up stale builder VM...".to_string()),
                            Call::Tart(TartCommand::Delete { name: builder() }),
                            BuildStep::DeletingStale,
                        )
                    } else {
                        rest.clone_base()
                    }
                },
            },
            (BuildStep::DeletingStale, _) => rest.clone_base(),
            (BuildStep::CloningBase, Reply::Unit(cloned)) => match cloned {
                Err(e) => Next::Done(Err(explain("Failed to clone base image: ", e))),
                Ok(_) => {
                    let opts = RunOpts { no_graphics: true, dirs: Vec::new(), rosetta: false };
                    rest.ask(
                        Some("Booting builder VM...".to_string()),
                        Call::Tart(TartCommand::Run { name: builder(), opts }),
                        BuildStep::Starting,
                    )
                },
            },
            (BuildStep::Starting, Reply::Unit(started)) => match started {
                Err(e) => rest.discard(explain("Failed to start builder VM: ", e), false),
                Ok(_) => match wait_for_boot(builder(), BootConfig::default()) {
                    Next::Ask { status: _, call, machine } => rest.ask(
                        Some("Waiting for builder VM to boot...".to_string()),
                        call,
                        BuildStep::Booting { boot: machine },
                    ),
                    Next::Done(_) => unreached(),
                },
            },
            (BuildStep::Booting { boot }, reply) => {
                let ghost waiting = boot;
                let ghost got = reply;
                let inner = boot.resume(reply);
                let ghost inside = inner;
                let next = match inner {
                    Next::Ask { status, call, machine } => rest.ask(
                        status,
                        call,
                        BuildStep::Booting { boot: machine },
                    ),
                    Next::Done(Ok(_)) => {
                        let mut status = "Installing ".to_string();
                        status.append(rest.agent_title.as_str());
                        status.append(" in builder VM...");
                        rest.ask(
                            Some(status),
                            Call::InstallAgent { vm_name: builder() },
                            BuildStep::Installing,
                        )
                    },
                    Next::Done(Err(e)) => rest.cleanup(e),
                };
                assert(waiting.transition(got, inside));
                assert(before.follows_boot(next, inside));
                next
            },
            (BuildStep::Installing, Reply::Unit(installed)) => match installed {
                Err(e) => rest.cleanup(e),
                Ok(_) => rest.ask(
                    Some("Stopping builder VM...".to_string()),
                    Call::Tart(TartCommand::Stop { name: builder() }),
                    BuildStep::Stopping,
                ),
            },
            (BuildStep::Stopping, Reply::Unit(stopped)) => match stopped {
                Err(e) => rest.cleanup(explain("Failed to stop builder VM: ", e)),
                Ok(_) => {
                    if rest.force {
                        rest.ask(None, Call::Tart(TartCommand::List), BuildStep::Replacing)
                    } else {
                        rest.clone_golden()
                    }
                },
            },
            (BuildStep::Replacing, Reply::Vms(vms)) => match vms {
                Err(e) => rest.discard(e, false),
                Ok(vms) => {
                    if is_listed(&vms, &rest.output_name) {
                        let mut status = "Deleting existing '".to_string();
                        status.append(rest.output_name.as_str());
                        status.append("'...");
                        let name = rest.output_name.clone();
                        rest.ask(
                            Some(status),
                            Call::Tart(TartCommand::Delete { name }),
                            BuildStep::DeletingExisting,
                        )
                    } else {
                        rest.clone_golden()
                    }
                },
            },
            (BuildStep::DeletingExisting, _) => rest.clone_golden(),
            (BuildStep::CloningGolden, Reply::Unit(cloned)) => match cloned {
                Err(e) => rest.discard(
                    explain("Failed to clone builder to golden image: ", e),
                    false,
                ),
                Ok(_) => rest.ask(
                    Some("Cleaning up builder VM...".to_string()),
                    Call::Tart(TartCommand::Delete { name: builder() }),
                    BuildStep::DeletingBuilder,
                ),
            },
            (BuildStep::DeletingBuilder, _) => Next::Done(Ok(())),
            (BuildStep::Halting { error }, _) => {
                let golden = rest.force;
                rest.discard(error, golden)
            },
            (BuildStep::Discarding { error, golden }, _) => {
                if golden {
                    let name = rest.output_name.clone();
                    rest.ask(
                        None,
                        Call::Tart(TartCommand::Delete { name }),
                        BuildStep::DiscardingGolden { error },
                    )
                } else {
                    Next::Done(Err(error))
                }
            },
            (BuildStep::DiscardingGolden { error }, _) => Next::Done(Err(error)),
            _ => unreached(),
        }
    }
}

/// Whether `next` is the beginning of a build. Without force it first looks whether the image is
/// already there.
pub open spec fn build_begins(
    next: Next<Build, ()>,
    base_image: String,
    output_name: String,
    force: bool,
    agent_title: String,
) -> bool {
    next == (Next::<Build, ()>::Ask {
        status: None,
        call: Call::Tart(TartCommand::List),
        machine: Build {
            base_image,
            output_name,
            force,
            agent_title,
            step: if force {
                BuildStep::Looking
            } else {
                BuildStep::Guarding
            },
        },
    })
}

/// Starts to build a golden image.
pub fn build(base_image: String, output_name: String, force: bool, agent_title: String) -> (next:
    Next<Build, ()>)
    ensures
        build_begins(next, base_image, output_name, force, agent_title),
{
    let step = if force {
        BuildStep::Looking
    } else {
        BuildStep::Guarding
    };
    Next::Ask {
        status: None,
        call: Call::Tart(TartCommand::List),
        machine: Build { base_image, output_name, force, agent_title, step },
    }
}

/// Whether the agent was installed by the call of the given number.
pub open spec fn installed_at(replies: Seq<Reply>, trail: Seq<Next<Build, ()>>, j: int) -> bool {
    &&& trail[j] is Ask
    &&& is_install(trail[j]->call, builder_vm())
    &&& replies[j] matches Reply::Unit(Ok(_))
}

/// Whether the builder was stopped by the call of the given number.
pub open spec fn stopped_at(replies: Seq<Reply>, trail: Seq<Next<Build, ()>>, j: int) -> bool {
    &&& trail[j] is Ask
    &&& is_stop(trail[j]->call, builder_vm())
    &&& replies[j] matches Reply::Unit(Ok(_))
}

/// Whether `source` was cloned to `name` by the call of the given number.
pub open spec fn cloned_at(
    replies: Seq<Reply>,
    trail: Seq<Next<Build, ()>>,
    source: Seq<char>,
    name: Seq<char>,
    j: int,
) -> bool {
    &&& trail[j] is Ask
    &&& is_clone(trail[j]->call, source, name)
    &&& replies[j] matches Reply::Unit(Ok(_))
}

/// Whether the agent was installed, and the builder stopped after that, before call `i`.
spec fn ready(replies: Seq<Reply>, trail: Seq<Next<Build, ()>>, i: int) -> bool {
    exists|a: int, b: int|
        0 <= a < b < i && #[trigger] installed_at(replies, trail, a) && #[trigger] stopped_at(
            replies,
            trail,
            b,
        )
}

/// How far a build has come.
spec fn rank(step: BuildStep) -> int {
    match step {
        BuildStep::Guarding => 0,
        BuildStep::Looking => 1,
        BuildStep::DeletingStale => 2,
        BuildStep::CloningBase => 3,
        BuildStep::Starting => 4,
        BuildStep::Booting { .. } => 5,
        BuildStep::Installing => 6,
        BuildStep::Stopping => 7,
        BuildStep::Replacing => 8,
        BuildStep::DeletingExisting => 9,
        BuildStep::CloningGolden => 10,
        BuildStep::DeletingBuilder => 11,
        BuildStep::Halting { .. } => 12,
        BuildStep::Discarding { .. } => 13,
        BuildStep::DiscardingGolden { .. } => 14,
    }
}

/// What holds of every build that waits in a run.
spec fn on_course(
    build: Build,
    replies: Seq<Reply>,
    trail: Seq<Next<Build, ()>>,
    i: int,
) -> bool {
    let output = build.output_name@;
    trail[i] matches Next::Ask { call, machine, .. } ==> {
        &&& machine.base_image == build.base_image
        &&& machine.output_name == build.output_name
        &&& machine.force == build.force
        &&& match machine.step {
            BuildStep::Guarding => is_list(call) && i == 0,
            BuildStep::Looking => is_list(call),
            BuildStep::DeletingStale => is_delete(call, builder_vm()),
            BuildStep::CloningBase => is_clone(call, build.base_image@, builder_vm()),
            BuildStep::Starting => is_headless_run(call, builder_vm()),
            BuildStep::Booting { boot } => {
                &&& boot.vm_name@ == builder_vm()
                &&& {
                    ||| call is Clock
                    ||| call is Sleep
                    ||| call is ScaleDelay
                    ||| call is SshCheckPort
                    ||| call matches Call::Tart(TartCommand::IpWait { .. })
                    ||| call matches Call::Tart(TartCommand::IpWaitArp { .. })
                }
            },
            BuildStep::Installing => is_install(call, builder_vm()),
            BuildStep::Stopping => {
                &&& i > 0
                &&& is_stop(call, builder_vm())
                &&& installed_at(replies, trail, i - 1)
            },
            BuildStep::Replacing => is_list(call) && build.force && ready(replies, trail, i),
            BuildStep::DeletingExisting => {
                &&& is_delete(call, output)
                &&& build.force
                &&& ready(replies, trail, i)
            },
            BuildStep::CloningGolden => {
                &&& is_clone(call, builder_vm(), output)
                &&& ready(replies, trail, i)
            },
            BuildStep::DeletingBuilder => {
                &&& i > 0
                &&& is_delete(call, builder_vm())
                &&& cloned_at(replies, trail, builder_vm(), output, i - 1)
                &&& ready(replies, trail, i - 1)
            },
            BuildStep::Halting { .. } => is_stop(call, builder_vm()),
            BuildStep::Discarding { golden, .. } => {
                &&& is_delete(call, builder_vm())
                &&& golden ==> build.force
            },
            BuildStep::DiscardingGolden { .. } => {
                &&& i > 0
                &&& is_delete(call, output)
                &&& build.force
                &&& trail[i - 1] is Ask
                &&& trail[i - 1]->machine.step is Discarding
                &&& is_delete(trail[i - 1]->call, builder_vm())
            },
        }
    }
}

/// Whether `first` is the beginning of a build.
pub open spec fn begins(first: Next<Build, ()>) -> bool {
    first is Ask && build_begins(
        first,
        first->machine.base_image,
        first->machine.output_name,
        first->machine.force,
        first->machine.agent_title,
    )
}

proof fn lemma_on_course(
    first: Next<Build, ()>,
    replies: Seq<Reply>,
    trail: Seq<Next<Build, ()>>,
    i: int,
)
    requires
        begins(first),
        is_run(first, replies, trail),
        0 <= i <= replies.len(),
    ensures
        on_course(first->machine, replies, trail, i),
    decreases i,
{
    if i > 0 {
        lemma_on_course(first, replies, trail, i - 1);
        assert(goes_on_at(replies, trail, i - 1));
        let before = trail[i - 1]->machine;
        match before.step {
            BuildStep::Booting { boot } => {
                let inner = choose|inner: Next<Boot, IpAddr>|
                    {
                        &&& #[trigger] boot.transition(replies[i - 1], inner)
                        &&& before.follows_boot(trail[i], inner)
                    };
                assert(boot.transition(replies[i - 1], inner));
            },
            BuildStep::Installing => {
                if replies[i - 1] matches Reply::Unit(Ok(_)) {
                    assert(installed_at(replies, trail, i - 1));
                }
            },
            BuildStep::Stopping => {
                if replies[i - 1] matches Reply::Unit(Ok(_)) {
                    assert(installed_at(replies, trail, i - 2));
                    assert(stopped_at(replies, trail, i - 1));
                    assert(ready(replies, trail, i));
                }
            },
            BuildStep::Replacing | BuildStep::DeletingExisting => {
                lemma_ready_later(replies, trail, i - 1);
            },
            _ => {},
        }
    }
}

proof fn lemma_ready_later(replies: Seq<Reply>, trail: Seq<Next<Build, ()>>, i: int)
    requires
        ready(replies, trail, i),
    ensures
        ready(replies, trail, i + 1),
{
    let (a, b) = choose|a: int, b: int|
        0 <= a < b < i && #[trigger] installed_at(replies, trail, a) && #[trigger] stopped_at(
            replies,
            trail,
            b,
        );
    assert(installed_at(replies, trail, a) && stopped_at(replies, trail, b));
}

/// A build never goes back behind the clone of the base image.
proof fn lemma_no_way_back(
    first: Next<Build, ()>,
    replies: Seq<Reply>,
    trail: Seq<Next<Build, ()>>,
    k: int,
    i: int,
)
    requires
        begins(first),
        is_run(first, replies, trail),
        0 <= k < i <= replies.len(),
        trail[k]->machine.step is CloningBase,
        replies[k] matches Reply::Unit(Ok(_)),
    ensures
        trail[i] is Ask ==> rank(trail[i]->machine.step) > 3,
        trail[i] is Done ==> i - 1 > k,
    decreases i,
{
    assert(goes_on_at(replies, trail, i - 1));
    if i - 1 > k {
        lemma_no_way_back(first, replies, trail, k, i - 1);
        let before = trail[i - 1]->machine;
        if let BuildStep::Booting { boot } = before.step {
            let inner = choose|inner: Next<Boot, IpAddr>|
                {
                    &&& #[trigger] boot.transition(replies[i - 1], inner)
                    &&& before.follows_boot(trail[i], inner)
                };
            assert(boot.transition(replies[i - 1], inner));
        }
    }
}

/// Without force an image that is already there is not touched: the build is refused, and nothing
/// was done but to look.
pub proof fn law_an_existing_image_is_not_clobbered(
    first: Next<Build, ()>,
    replies: Seq<Reply>,
    trail: Seq<Next<Build, ()>>,
    vms: Vec<TartVmInfo>,
)
    requires
        begins(first),
        is_run(first, replies, trail),
        !first->machine.force,
        replies.len() > 0,
        replies[0] == Reply::Vms(Ok(vms)),
        listed(vms@, first->machine.output_name@),
    ensures
        replies.len() == 1,
        trail[0]->call == Call::Tart(TartCommand::List),
        trail[1] matches Next::Done(Err(TachikomaError::Vm(m))) && m@ == "Image '"@
            + first->machine.output_name@ + "' already exists. Use --force to overwrite."@,
{
    assert(goes_on_at(replies, trail, 0));
    if replies.len() > 1 {
        assert(goes_on_at(replies, trail, 1));
    }
}

/// A build touches no machine but the builder and its output. It deletes its output only under
/// force, and it starts and stops the builder alone.
pub proof fn law_a_build_keeps_to_its_machines(
    first: Next<Build, ()>,
    replies: Seq<Reply>,
    trail: Seq<Next<Build, ()>>,
    i: int,
    command: TartCommand,
)
    requires
        begins(first),
        is_run(first, replies, trail),
        0 <= i <= replies.len(),
        trail[i] is Ask,
        trail[i]->call == Call::Tart(command),
    ensures
        match command {
            TartCommand::Delete { name } => name@ == builder_vm() || (first->machine.force && name@
                == first->machine.output_name@),
            TartCommand::Clone { source, name } => {
                ||| source@ == first->machine.base_image@ && name@ == builder_vm()
                ||| source@ == builder_vm() && name@ == first->machine.output_name@
            },
            TartCommand::Run { name, .. } => name@ == builder_vm(),
            TartCommand::Stop { name } => name@ == builder_vm(),
            TartCommand::Suspend { .. } => false,
            TartCommand::Exec { .. } => false,
            _ => true,
        },
{
    lemma_on_course(first, replies, trail, i);
}

/// The builder is always cleaned up: once the base image was cloned to it, the build does not end,
/// well or not, before it has asked for the builder to be deleted.
pub proof fn law_the_builder_is_always_cleaned_up(
    first: Next<Build, ()>,
    replies: Seq<Reply>,
    trail: Seq<Next<Build, ()>>,
    k: int,
)
    requires
        begins(first),
        is_run(first, replies, trail),
        0 <= k < replies.len(),
        trail[k] is Ask,
        trail[k]->machine.step is CloningBase,
        replies[k] matches Reply::Unit(Ok(_)),
        trail.last() is Done,
    ensures
        exists|j: int|
            k < j < replies.len() && (#[trigger] trail[j]) is Ask && is_delete(
                trail[j]->call,
                builder_vm(),
            ),
{
    let n = replies.len() as int;
    assert(trail[n] == trail.last());
    lemma_no_way_back(first, replies, trail, k, n);
    lemma_no_way_back(first, replies, trail, k, n - 1);
    lemma_on_course(first, replies, trail, n - 1);
    assert(goes_on_at(replies, trail, n - 1));
    let before = trail[n - 1]->machine;
    match before.step {
        BuildStep::Booting { boot } => {
            let inner = choose|inner: Next<Boot, IpAddr>|
                {
                    &&& #[trigger] boot.transition(replies[n - 1], inner)
                    &&& before.follows_boot(trail[n], inner)
                };
            assert(boot.transition(replies[n - 1], inner));
        },
        BuildStep::DiscardingGolden { .. } => {
            assert(is_delete(trail[n - 2]->call, builder_vm()));
        },
        _ => {
            assert(is_delete(trail[n - 1]->call, builder_vm()));
        },
    }
}

/// A build that ends well has installed the agent in the builder, stopped the builder after that,
/// and then cloned it to the output, each with success.
pub proof fn law_a_built_image_is_complete(
    first: Next<Build, ()>,
    replies: Seq<Reply>,
    trail: Seq<Next<Build, ()>>,
)
    requires
        begins(first),
        is_run(first, replies, trail),
        trail.last() matches Next::Done(Ok(_)),
    ensures
        exists|a: int, b: int, c: int|
            0 <= a < b < c < replies.len() && #[trigger] installed_at(replies, trail, a)
                && #[trigger] stopped_at(replies, trail, b) && #[trigger] cloned_at(
                replies,
                trail,
                builder_vm(),
                first->machine.output_name@,
                c,
            ),
{
    let n = replies.len() as int;
    assert(trail[n] == trail.last());
    lemma_on_course(first, replies, trail, n - 1);
    assert(goes_on_at(replies, trail, n - 1));
    let before = trail[n - 1]->machine;
    if let BuildStep::Booting { boot } = before.step {
        let inner = choose|inner: Next<Boot, IpAddr>|
            {
                &&& #[trigger] boot.transition(replies[n - 1], inner)
                &&& before.follows_boot(trail[n], inner)
            };
        assert(boot.transition(replies[n - 1], inner));
    }
    let (a, b) = choose|a: int, b: int|
        0 <= a < b < n - 2 && #[trigger] installed_at(replies, trail, a) && #[trigger] stopped_at(
            replies,
            trail,
            b,
        );
    assert(installed_at(replies, trail, a) && stopped_at(replies, trail, b));
    assert(cloned_at(replies, trail, builder_vm(), first->machine.output_name@, n - 2));
}

/// A build drives `tart`, waits for the boot and installs the agent. It asks for nothing else.
pub proof fn law_a_build_keeps_to_its_calls(build: Build, reply: Reply, next: Next<Build, ()>)
    requires
        build.transition(reply, next),
        next is Ask,
    ensures
        next->call is Tart || next->call is InstallAgent || next->call is Clock
            || next->call is Sleep || next->call is ScaleDelay || next->call is SshCheckPort,
{
    if let BuildStep::Booting { boot } = build.step {
        let inner = choose|inner: Next<Boot, IpAddr>|
            {
                &&& #[trigger] boot.transition(reply, inner)
                &&& build.follows_boot(next, inner)
            };
        assert(boot.transition(reply, inner));
    }
}

} // verus!
