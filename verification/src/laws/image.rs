//! The build of a golden image, call by call.

use vstd::prelude::*;

use super::spawn::is_wait;
use crate::cmd::image::{build_begins, Build, BuildStep};
use crate::effect::{goes_on_at, is_run, Call, IpAddr, Machine, Next, Reply};
use crate::error::TachikomaError;
use crate::tart::types::TartVmInfo;
use crate::tart::TartCommand;
use crate::vm::boot::{boot_begins, Boot, BootConfig, BootStep};

verus! {

/// Whether a machine of the given name is in the list.
pub open spec fn is_there(vms: Seq<TartVmInfo>, name: Seq<char>) -> bool {
    exists|p: int| 0 <= p < vms.len() && (#[trigger] vms[p]).name@ == name
}

/// What an error says.
pub open spec fn words(error: TachikomaError) -> Seq<char> {
    match error {
        TachikomaError::Tart(m) => m@,
        TachikomaError::Vm(m) => m@,
        TachikomaError::Proxy(m) => m@,
        TachikomaError::Other(m) => m@,
    }
}

/// Whether an error is about a machine, and says so.
pub open spec fn says(error: TachikomaError, text: Seq<char>) -> bool {
    error matches TachikomaError::Vm(m) && m@ == text
}

/// Whether a build asks for a call and says so to the user.
pub open spec fn tells(next: Next<Build, ()>, text: Seq<char>) -> bool {
    next is Ask && (next->status matches Some(shown) && shown@ == text)
}

/// Whether a build asks for a call and says nothing.
pub open spec fn asks_quietly(next: Next<Build, ()>) -> bool {
    next is Ask && next->status is None
}

/// Whether a call is for the deletion of a machine.
pub open spec fn deletes(call: Call, vm: Seq<char>) -> bool {
    call matches Call::Tart(TartCommand::Delete { name }) && name@ == vm
}

/// Whether a call is for the end of a machine's run.
pub open spec fn stops(call: Call, vm: Seq<char>) -> bool {
    call matches Call::Tart(TartCommand::Stop { name }) && name@ == vm
}

/// Whether a call is for a copy of a machine.
pub open spec fn copies(call: Call, from: Seq<char>, to: Seq<char>) -> bool {
    call matches Call::Tart(TartCommand::Clone { source, name }) && source@ == from && name@ == to
}

/// Whether a build goes on to copy the base image to the builder.
pub open spec fn copies_base(base_image: Seq<char>, next: Next<Build, ()>) -> bool {
    &&& tells(next, "Cloning base image '"@ + base_image + "' → tachikoma-builder..."@)
    &&& copies(next->call, base_image, "tachikoma-builder"@)
}

/// Whether a build goes on to copy the builder to the image.
pub open spec fn copies_builder(output: Seq<char>, next: Next<Build, ()>) -> bool {
    &&& tells(next, "Cloning builder VM → '"@ + output + "'..."@)
    &&& copies(next->call, "tachikoma-builder"@, output)
}

/// Whether the builder was started before call `i`.
pub open spec fn ran(trail: Seq<Next<Build, ()>>, i: int) -> bool
    decreases i,
{
    i > 0 && ((trail[i - 1] is Ask && (trail[i - 1]->call matches Call::Tart(
        TartCommand::Run { .. },
    ))) || ran(trail, i - 1))
}

/// Whether the agent was installed by the call before call `i`.
pub open spec fn is_equipped(
    replies: Seq<Reply>,
    trail: Seq<Next<Build, ()>>,
    i: int,
) -> bool {
    i > 0 && trail[i - 1]->call is InstallAgent && (replies[i - 1] matches Reply::Unit(Ok(_)))
}

/// Whether the reply to call `s` makes a build fail with `error` in the end, once the builder was
/// started.
pub open spec fn fails_for(
    replies: Seq<Reply>,
    trail: Seq<Next<Build, ()>>,
    s: int,
    error: TachikomaError,
) -> bool {
    &&& 0 <= s < replies.len()
    &&& trail[s] is Ask
    &&& match trail[s]->call {
        Call::Tart(TartCommand::Run { .. }) => replies[s] matches Reply::Unit(Err(e)) && says(
            error,
            "Failed to start builder VM: "@ + words(e),
        ),
        Call::InstallAgent { .. } => replies[s] == Reply::Unit(Err(error)),
        Call::Tart(TartCommand::Stop { .. }) => replies[s] matches Reply::Unit(Err(e)) && says(
            error,
            "Failed to stop builder VM: "@ + words(e),
        ),
        Call::Tart(TartCommand::List) => replies[s] == Reply::Vms(Err(error)),
        Call::Tart(TartCommand::Clone { .. }) => replies[s] matches Reply::Unit(Err(e)) && says(
            error,
            "Failed to clone builder to golden image: "@ + words(e),
        ),
        call => call == Call::Clock,
    }
}

/// Whether a build ends with the error that the reply to call `s` brought.
pub open spec fn ends_for(
    replies: Seq<Reply>,
    trail: Seq<Next<Build, ()>>,
    s: int,
    next: Next<Build, ()>,
) -> bool {
    next matches Next::Done(Err(error)) && fails_for(replies, trail, s, error)
}

/// What is due when the list of the machines comes.
pub open spec fn is_due_when_listed(
    base_image: Seq<char>,
    output: Seq<char>,
    force: bool,
    replies: Seq<Reply>,
    trail: Seq<Next<Build, ()>>,
    i: int,
) -> bool {
    let next = trail[i + 1];
    if !ran(trail, i) {
        match replies[i] {
            Reply::Vms(Err(e)) => next == Next::<Build, ()>::Done(Err(e)),
            Reply::Vms(Ok(vms)) => if i == 0 && !force {
                if is_there(vms@, output) {
                    next matches Next::Done(Err(error)) && says(
                        error,
                        "Image '"@ + output + "' already exists. Use --force to overwrite."@,
                    )
                } else {
                    asks_quietly(next) && next->call == Call::Tart(TartCommand::List)
                }
            } else if is_there(vms@, "tachikoma-builder"@) {
                &&& tells(next, "Cleaning up stale builder VM..."@)
                &&& deletes(next->call, "tachikoma-builder"@)
            } else {
                copies_base(base_image, next)
            },
            _ => false,
        }
    } else {
        &&& force
        &&& match replies[i] {
            Reply::Vms(Err(_)) => asks_quietly(next) && deletes(
                next->call,
                "tachikoma-builder"@,
            ),
            Reply::Vms(Ok(vms)) => if is_there(vms@, output) {
                &&& tells(next, "Deleting existing '"@ + output + "'..."@)
                &&& deletes(next->call, output)
            } else {
                copies_builder(output, next)
            },
            _ => false,
        }
    }
}

/// What is due when a machine was deleted, or was not: which of the two makes no difference. It
/// depends on what came before.
pub open spec fn is_due_when_deleted(
    base_image: Seq<char>,
    output: Seq<char>,
    force: bool,
    replies: Seq<Reply>,
    trail: Seq<Next<Build, ()>>,
    i: int,
) -> bool {
    let next = trail[i + 1];
    &&& i > 0
    &&& match trail[i - 1]->call {
        Call::Tart(TartCommand::List) => if !ran(trail, i) {
            copies_base(base_image, next)
        } else if replies[i - 1] matches Reply::Vms(Ok(_)) {
            copies_builder(output, next)
        } else {
            ends_for(replies, trail, i - 1, next)
        },
        Call::Tart(TartCommand::Clone { .. }) => if replies[i - 1] matches Reply::Unit(Ok(_)) {
            next matches Next::Done(Ok(_))
        } else {
            ends_for(replies, trail, i - 1, next)
        },
        Call::Tart(TartCommand::Run { .. }) => ends_for(replies, trail, i - 1, next),
        Call::Tart(TartCommand::Stop { .. }) => if force {
            asks_quietly(next) && deletes(next->call, output)
        } else {
            ends_for(replies, trail, i - 2, next)
        },
        Call::Tart(TartCommand::Delete { .. }) => force && ends_for(replies, trail, i - 3, next),
        _ => false,
    }
}

/// What is due when a reply comes.
pub open spec fn is_due(
    base_image: Seq<char>,
    output: Seq<char>,
    force: bool,
    agent_title: Seq<char>,
    replies: Seq<Reply>,
    trail: Seq<Next<Build, ()>>,
    i: int,
) -> bool {
    let next = trail[i + 1];
    let builder = "tachikoma-builder"@;
    match trail[i]->call {
        Call::Tart(TartCommand::List) => is_due_when_listed(
            base_image,
            output,
            force,
            replies,
            trail,
            i,
        ),
        Call::Tart(TartCommand::Delete { .. }) => is_due_when_deleted(
            base_image,
            output,
            force,
            replies,
            trail,
            i,
        ),
        Call::Tart(TartCommand::Clone { .. }) => match replies[i] {
            Reply::Unit(Ok(_)) => if !ran(trail, i) {
                &&& tells(next, "Booting builder VM..."@)
                &&& next->call matches Call::Tart(TartCommand::Run { name, opts })
                &&& name@ == builder
                &&& opts.no_graphics
                &&& opts.dirs@.len() == 0
                &&& !opts.rosetta
            } else {
                tells(next, "Cleaning up builder VM..."@) && deletes(next->call, builder)
            },
            Reply::Unit(Err(e)) => if !ran(trail, i) {
                next matches Next::Done(Err(error)) && says(
                    error,
                    "Failed to clone base image: "@ + words(e),
                )
            } else {
                asks_quietly(next) && deletes(next->call, builder)
            },
            _ => false,
        },
        Call::Tart(TartCommand::Run { .. }) => match replies[i] {
            Reply::Unit(Ok(_)) => tells(next, "Waiting for builder VM to boot..."@) && next->call
                == Call::Clock,
            Reply::Unit(Err(_)) => asks_quietly(next) && deletes(next->call, builder),
            _ => false,
        },
        Call::InstallAgent { .. } => match replies[i] {
            Reply::Unit(Ok(_)) => tells(next, "Stopping builder VM..."@) && stops(
                next->call,
                builder,
            ),
            Reply::Unit(Err(_)) => asks_quietly(next) && stops(next->call, builder),
            _ => false,
        },
        Call::Tart(TartCommand::Stop { .. }) => if is_equipped(replies, trail, i) {
            match replies[i] {
                Reply::Unit(Ok(_)) => if force {
                    asks_quietly(next) && next->call == Call::Tart(TartCommand::List)
                } else {
                    copies_builder(output, next)
                },
                Reply::Unit(Err(_)) => asks_quietly(next) && stops(next->call, builder),
                _ => false,
            }
        } else {
            asks_quietly(next) && deletes(next->call, builder)
        },
        call => is_wait(call) && next is Ask && {
            ||| next->status is None && is_wait(next->call)
            ||| next->status is None && stops(next->call, builder) && call == Call::Clock
            ||| {
                &&& tells(next, "Installing "@ + agent_title + " in builder VM..."@)
                &&& next->call matches Call::InstallAgent { vm_name }
                &&& vm_name@ == builder
            }
        },
    }
}

spec fn is_of(machine: Build, first: Build) -> bool {
    &&& machine.base_image == first.base_image
    &&& machine.output_name == first.output_name
    &&& machine.force == first.force
    &&& machine.agent_title == first.agent_title
}

/// What holds of every machine that waits in a run.
spec fn on_course(
    first: Next<Build, ()>,
    replies: Seq<Reply>,
    trail: Seq<Next<Build, ()>>,
    i: int,
) -> bool {
    trail[i] matches Next::Ask { status, call, machine } ==> {
        let builder = "tachikoma-builder"@;
        let output = first->machine.output_name@;
        let force = first->machine.force;
        let last = trail[i - 1]->call;
        &&& is_of(machine, first->machine)
        &&& i > 0 ==> trail[i - 1] is Ask
        &&& match machine.step {
            BuildStep::Guarding => {
                &&& i == 0
                &&& !force
                &&& !ran(trail, i)
                &&& call == Call::Tart(TartCommand::List)
            },
            BuildStep::Looking => {
                &&& call == Call::Tart(TartCommand::List)
                &&& !ran(trail, i)
                &&& i == if force { 0int } else { 1int }
            },
            BuildStep::DeletingStale => {
                &&& i > 0
                &&& deletes(call, builder)
                &&& !ran(trail, i)
                &&& last == Call::Tart(TartCommand::List)
            },
            BuildStep::CloningBase => {
                &&& !ran(trail, i)
                &&& copies(call, first->machine.base_image@, builder)
            },
            BuildStep::Starting => {
                &&& !ran(trail, i)
                &&& call matches Call::Tart(TartCommand::Run { .. })
            },
            BuildStep::Booting { boot } => {
                &&& ran(trail, i)
                &&& is_wait(call)
                &&& match boot.step {
                    BootStep::Starting => call == Call::Clock,
                    BootStep::IpClock { .. } => call == Call::Clock,
                    BootStep::PortClock { .. } => call == Call::Clock,
                    _ => call != Call::Clock,
                }
            },
            BuildStep::Installing => ran(trail, i) && call is InstallAgent,
            BuildStep::Stopping => {
                &&& ran(trail, i)
                &&& stops(call, builder)
                &&& is_equipped(replies, trail, i)
            },
            BuildStep::Replacing => {
                &&& ran(trail, i)
                &&& force
                &&& call == Call::Tart(TartCommand::List)
            },
            BuildStep::DeletingExisting => {
                &&& i > 0
                &&& ran(trail, i)
                &&& deletes(call, output)
                &&& last == Call::Tart(TartCommand::List)
                &&& replies[i - 1] matches Reply::Vms(Ok(_))
            },
            BuildStep::CloningGolden => ran(trail, i) && copies(call, builder, output),
            BuildStep::DeletingBuilder => {
                &&& i > 0
                &&& ran(trail, i)
                &&& deletes(call, builder)
                &&& last matches Call::Tart(TartCommand::Clone { .. })
                &&& replies[i - 1] matches Reply::Unit(Ok(_))
            },
            BuildStep::Halting { error } => {
                &&& ran(trail, i)
                &&& stops(call, builder)
                &&& !is_equipped(replies, trail, i)
                &&& fails_for(replies, trail, i - 1, error)
            },
            BuildStep::Discarding { error, golden } => {
                &&& i > 0
                &&& ran(trail, i)
                &&& deletes(call, builder)
                &&& match last {
                    Call::Tart(TartCommand::Stop { .. }) => golden == force && fails_for(
                        replies,
                        trail,
                        i - 2,
                        error,
                    ),
                    Call::Tart(TartCommand::List) => {
                        &&& !golden
                        &&& replies[i - 1] == Reply::Vms(Err(error))
                        &&& fails_for(replies, trail, i - 1, error)
                    },
                    Call::Tart(TartCommand::Clone { .. }) => {
                        &&& !golden
                        &&& replies[i - 1] matches Reply::Unit(Err(_))
                        &&& fails_for(replies, trail, i - 1, error)
                    },
                    Call::Tart(TartCommand::Run { .. }) => !golden && fails_for(
                        replies,
                        trail,
                        i - 1,
                        error,
                    ),
                    _ => false,
                }
            },
            BuildStep::DiscardingGolden { error } => {
                &&& i > 0
                &&& force
                &&& ran(trail, i)
                &&& deletes(call, output)
                &&& last matches Call::Tart(TartCommand::Delete { .. })
                &&& fails_for(replies, trail, i - 3, error)
            },
        }
    }
}

proof fn lemma_on_course(
    first: Next<Build, ()>,
    base_image: String,
    output_name: String,
    force: bool,
    agent_title: String,
    replies: Seq<Reply>,
    trail: Seq<Next<Build, ()>>,
    i: int,
)
    requires
        build_begins(first, base_image, output_name, force, agent_title),
        is_run(first, replies, trail),
        0 <= i <= replies.len(),
    ensures
        on_course(first, replies, trail, i),
    decreases i,
{
    if i > 0 {
        lemma_on_course(
            first,
            base_image,
            output_name,
            force,
            agent_title,
            replies,
            trail,
            i - 1,
        );
        assert(goes_on_at(replies, trail, i - 1));
        let before = trail[i - 1]->machine;
        if let BuildStep::Booting { boot } = before.step {
            let inner = choose|inner: Next<Boot, IpAddr>|
                {
                    &&& #[trigger] boot.transition(replies[i - 1], inner)
                    &&& before.follows_boot(trail[i], inner)
                };
            assert(boot.transition(replies[i - 1], inner));
        }
    }
}

/// A build lists the machines first. From then on every reply is followed by what is due: without
/// force, an image that is there is left alone and the build refused; a builder that was left behind
/// is deleted; the base image is copied to the builder, which is started with nothing mounted,
/// waited for, equipped and stopped; with force, an image that is there is deleted; the builder is
/// copied to the image, and deleted. A failure on the way stops and deletes the builder, and with
/// force what there is of the image, and then ends the build.
pub proof fn law_a_build_does_what_is_due(
    first: Next<Build, ()>,
    base_image: String,
    output_name: String,
    force: bool,
    agent_title: String,
    replies: Seq<Reply>,
    trail: Seq<Next<Build, ()>>,
    i: int,
)
    requires
        build_begins(first, base_image, output_name, force, agent_title),
        is_run(first, replies, trail),
        0 <= i < replies.len(),
    ensures
        asks_quietly(trail[0]) && trail[0]->call == Call::Tart(TartCommand::List),
        trail[i] is Ask,
        is_due(base_image@, output_name@, force, agent_title@, replies, trail, i),
{
    lemma_on_course(first, base_image, output_name, force, agent_title, replies, trail, i);
    assert(goes_on_at(replies, trail, i));
    let before = trail[i]->machine;
    if let BuildStep::Booting { boot } = before.step {
        let inner = choose|inner: Next<Boot, IpAddr>|
            {
                &&& #[trigger] boot.transition(replies[i], inner)
                &&& before.follows_boot(trail[i + 1], inner)
            };
        assert(boot.transition(replies[i], inner));
    }
}

/// The wait in a run, from call `k` to call `i`.
spec fn wait_part(trail: Seq<Next<Build, ()>>, k: int, i: int) -> Seq<Next<Boot, IpAddr>> {
    Seq::new(
        (i - k + 1) as nat,
        |m: int|
            Next::Ask {
                status: None,
                call: trail[k + m]->call,
                machine: trail[k + m]->machine.step->boot,
            },
    )
}

/// What the wait for the boot of a builder goes by.
pub open spec fn is_builder_wait(wait: BootConfig) -> bool {
    &&& wait.timeout == 120_000_000_000
    &&& wait.initial_delay == 500_000_000
    &&& wait.max_interval == 5_000_000_000
    &&& wait.ssh_user@ == "admin"@
    &&& !wait.skip_ssh_check
}

proof fn lemma_wait(
    first: Next<Build, ()>,
    base_image: String,
    output_name: String,
    force: bool,
    agent_title: String,
    replies: Seq<Reply>,
    trail: Seq<Next<Build, ()>>,
    i: int,
) -> (found: (int, String, BootConfig))
    requires
        build_begins(first, base_image, output_name, force, agent_title),
        is_run(first, replies, trail),
        0 <= i <= replies.len(),
        trail[i] is Ask,
        trail[i]->machine.step is Booting,
    ensures
        0 < found.0 <= i,
        trail[found.0 - 1] is Ask,
        trail[found.0 - 1]->call matches Call::Tart(TartCommand::Run { .. }),
        found.1@ == "tachikoma-builder"@,
        is_builder_wait(found.2),
        forall|j: int|
            found.0 <= j <= i ==> (#[trigger] trail[j]) is Ask && trail[j]->machine.step is Booting,
        is_run(
            boot_begins(found.1, found.2),
            replies.subrange(found.0, i),
            wait_part(trail, found.0, i),
        ),
    decreases i,
{
    assert(goes_on_at(replies, trail, i - 1));
    lemma_on_course(first, base_image, output_name, force, agent_title, replies, trail, i - 1);
    let before = trail[i - 1]->machine;
    if let BuildStep::Booting { boot } = before.step {
        let (k, name, c) = lemma_wait(
            first,
            base_image,
            output_name,
            force,
            agent_title,
            replies,
            trail,
            i - 1,
        );
        let inner = choose|inner: Next<Boot, IpAddr>|
            {
                &&& #[trigger] boot.transition(replies[i - 1], inner)
                &&& before.follows_boot(trail[i], inner)
            };
        let old_part = wait_part(trail, k, i - 1);
        let part = wait_part(trail, k, i);
        let old_got = replies.subrange(k, i - 1);
        let got = replies.subrange(k, i);
        assert(inner is Ask);
        assert(inner->status is None);
        assert(part[i - k] == inner);
        assert forall|m: int| 0 <= m < got.len() implies #[trigger] goes_on_at(got, part, m) by {
            if m < old_got.len() {
                assert(goes_on_at(old_got, old_part, m));
                assert(part[m] == old_part[m] && part[m + 1] == old_part[m + 1]);
                assert(got[m] == old_got[m]);
            } else {
                assert(got[m] == replies[i - 1]);
            }
        }
        assert(part[0] == old_part[0]);
        (k, name, c)
    } else {
        let boot = trail[i]->machine.step->boot;
        assert(wait_part(trail, i, i)[0] == boot_begins(boot.vm_name, boot.config));
        (i, boot.vm_name, boot.config)
    }
}

/// While a build waits for a boot, it does what a wait for the boot of its builder does, for two
/// minutes at most. Once the builder is up the agent is installed. If it does not come up, the error
/// of the wait is what the build ends with, whatever comes of the cleaning up.
pub proof fn law_a_build_waits_for_its_builder(
    first: Next<Build, ()>,
    base_image: String,
    output_name: String,
    force: bool,
    agent_title: String,
    replies: Seq<Reply>,
    trail: Seq<Next<Build, ()>>,
    i: int,
) -> (found: (int, String, BootConfig, Seq<Next<Boot, IpAddr>>))
    requires
        build_begins(first, base_image, output_name, force, agent_title),
        is_run(first, replies, trail),
        0 <= i < replies.len(),
        trail[i] is Ask,
        is_wait(trail[i]->call),
    ensures
        ({
            let (k, name, wait, part) = found;
            &&& 0 < k <= i
            &&& trail[k - 1] is Ask
            &&& trail[k - 1]->call matches Call::Tart(TartCommand::Run { .. })
            &&& name@ == "tachikoma-builder"@
            &&& is_builder_wait(wait)
            &&& part.len() == i - k + 2
            &&& is_run(boot_begins(name, wait), replies.subrange(k, i + 1), part)
            &&& forall|m: int|
                0 <= m <= i - k ==> (#[trigger] part[m]) is Ask && trail[k + m] is Ask && trail[k
                    + m]->call == part[m]->call
            &&& match part.last() {
                Next::Ask { call, .. } => asks_quietly(trail[i + 1]) && trail[i + 1]->call == call,
                Next::Done(Ok(_)) => trail[i + 1] is Ask && trail[i + 1]->call is InstallAgent,
                Next::Done(Err(e)) => {
                    let end = if force { i + 4 } else { i + 3 };
                    &&& trail[i + 1] is Ask
                    &&& trail[i + 1]->call matches Call::Tart(TartCommand::Stop { .. })
                    &&& end <= replies.len() ==> trail[end] == Next::<Build, ()>::Done(Err(e))
                },
            }
        }),
{
    lemma_on_course(first, base_image, output_name, force, agent_title, replies, trail, i);
    assert(goes_on_at(replies, trail, i));
    let before = trail[i]->machine;
    let (k, name, wait) = lemma_wait(
        first,
        base_image,
        output_name,
        force,
        agent_title,
        replies,
        trail,
        i,
    );
    let boot = before.step->boot;
    let inner = choose|inner: Next<Boot, IpAddr>|
        {
            &&& #[trigger] boot.transition(replies[i], inner)
            &&& before.follows_boot(trail[i + 1], inner)
        };
    let asked = wait_part(trail, k, i);
    let part = asked.push(inner);
    let old_got = replies.subrange(k, i);
    let got = replies.subrange(k, i + 1);
    assert forall|m: int| 0 <= m < got.len() implies #[trigger] goes_on_at(got, part, m) by {
        if m < old_got.len() {
            assert(goes_on_at(old_got, asked, m));
            assert(part[m] == asked[m] && part[m + 1] == asked[m + 1]);
            assert(got[m] == old_got[m]);
        } else {
            assert(got[m] == replies[i]);
        }
    }
    assert(part[0] == asked[0]);
    if i + 1 < replies.len() {
        assert(goes_on_at(replies, trail, i + 1));
    }
    if i + 2 < replies.len() {
        assert(goes_on_at(replies, trail, i + 2));
    }
    if i + 3 < replies.len() {
        assert(goes_on_at(replies, trail, i + 3));
    }
    (k, name, wait, part)
}

/// A build deletes its builder, and with force the image that it builds, and no other machine.
pub proof fn law_a_build_deletes_no_other_machine(
    first: Next<Build, ()>,
    base_image: String,
    output_name: String,
    force: bool,
    agent_title: String,
    replies: Seq<Reply>,
    trail: Seq<Next<Build, ()>>,
    i: int,
)
    requires
        build_begins(first, base_image, output_name, force, agent_title),
        is_run(first, replies, trail),
        0 <= i <= replies.len(),
        trail[i] is Ask,
    ensures
        trail[i]->call matches Call::Tart(TartCommand::Delete { name }) ==> name@
            == "tachikoma-builder"@ || (force && name@ == output_name@),
        !(trail[i]->call is Subcommand),
{
    lemma_on_course(first, base_image, output_name, force, agent_title, replies, trail, i);
    if i > 0 {
        assert(goes_on_at(replies, trail, i - 1));
        lemma_on_course(first, base_image, output_name, force, agent_title, replies, trail, i - 1);
    }
}

} // verus!
