//! The wait for a boot, call by call.

use vstd::prelude::*;

use crate::effect::{goes_on_at, is_run, Call, IpAddr, Next, Reply};
use crate::error::TachikomaError;
use crate::tart::TartCommand;
use crate::vm::boot::{boot_begins, Boot, BootConfig, BootStep};

verus! {

/// The last address that came before reply `i`.
pub open spec fn address(replies: Seq<Reply>, i: int) -> Option<IpAddr>
    decreases i,
{
    if i <= 0 {
        None
    } else if let Reply::Ip(Ok(Some(ip))) = replies[i - 1] {
        Some(ip)
    } else {
        address(replies, i - 1)
    }
}

/// The last scaled delay that came before reply `i`.
pub open spec fn scaled(replies: Seq<Reply>, i: int) -> Option<u128>
    decreases i,
{
    if i <= 0 {
        None
    } else if let Reply::Delay(delay) = replies[i - 1] {
        Some(delay)
    } else {
        scaled(replies, i - 1)
    }
}

/// The last sleep that was asked for before call `i`.
pub open spec fn slept(trail: Seq<Next<Boot, IpAddr>>, i: int) -> Option<u128>
    decreases i,
{
    if i <= 0 {
        None
    } else if trail[i - 1] is Ask && trail[i - 1]->call is Sleep {
        Some(trail[i - 1]->call->Sleep_0)
    } else {
        slept(trail, i - 1)
    }
}

/// How long to sleep: the initial delay at first, and then the scaled one, within the longest
/// interval.
pub open spec fn due_sleep(config: BootConfig, replies: Seq<Reply>, i: int, delay: u128) -> bool {
    match scaled(replies, i) {
        None => delay == config.initial_delay,
        Some(grown) => {
            &&& delay <= grown
            &&& delay <= config.max_interval
            &&& delay == grown || delay == config.max_interval
        },
    }
}

/// How long `tart` may poll with so many nanoseconds left: the whole seconds among them, but ten at
/// most and one at least.
pub open spec fn due_poll(left: int, wait_secs: u64) -> bool {
    if left >= 10_000_000_000 {
        wait_secs == 10
    } else if left < 1_000_000_000 {
        wait_secs == 1
    } else {
        wait_secs * 1_000_000_000 <= left < (wait_secs + 1) * 1_000_000_000
    }
}

/// What the wait does next when it gets a reply.
pub open spec fn is_due(
    vm_name: String,
    config: BootConfig,
    replies: Seq<Reply>,
    trail: Seq<Next<Boot, IpAddr>>,
    i: int,
) -> bool {
    let next = trail[i + 1];
    let found = address(replies, i);
    match trail[i]->call {
        Call::Clock => {
            let now = replies[i]->Instant_0;
            let left = replies[0]->Instant_0 + config.timeout - now;
            &&& replies[i] is Instant
            &&& if i == 0 {
                next is Ask && next->call == Call::Clock
            } else if left <= 0 {
                &&& next matches Next::Done(Err(TachikomaError::Vm(m)))
                &&& match found {
                    None => m@ == "Timed out waiting for VM '"@ + vm_name@
                        + "' to get an IP address.\nThe VM is running but DHCP didn't assign an IP in time.\nTry:\n  tart ip --resolver arp "@
                        + vm_name@ + "\n  tart ip --wait 30 "@ + vm_name@
                        + "\n  sudo launchctl kickstart -k system/com.apple.bootpd  # restart DHCP\nIf the VM is stuck, clean it up with: tachikoma destroy "@
                        + vm_name@,
                    Some(ip) => m@ == "Timed out waiting for SSH on "@ + ip.text@,
                }
            } else {
                &&& next is Ask
                &&& match found {
                    None => next->call matches Call::Tart(
                        TartCommand::IpWaitArp { name, wait_secs },
                    ) && name == vm_name && due_poll(left, wait_secs),
                    Some(_) => next->call matches Call::Sleep(delay) && due_sleep(
                        config,
                        replies,
                        i,
                        delay,
                    ),
                }
            }
        },
        Call::Tart(TartCommand::IpWaitArp { name, wait_secs }) => {
            &&& name == vm_name
            &&& match replies[i] {
                Reply::Ip(Ok(Some(ip))) => if config.skip_ssh_check {
                    next == Next::<Boot, IpAddr>::Done(Ok(ip))
                } else {
                    next is Ask && next->call == Call::Clock
                },
                _ => next is Ask && next->call == Call::Tart(
                    TartCommand::IpWait { name: vm_name, wait_secs },
                ),
            }
        },
        Call::Tart(TartCommand::IpWait { name, .. }) => {
            &&& name == vm_name
            &&& match replies[i] {
                Reply::Ip(Ok(Some(ip))) if config.skip_ssh_check => next == Next::<
                    Boot,
                    IpAddr,
                >::Done(Ok(ip)),
                _ => next is Ask && next->call == Call::Clock,
            }
        },
        Call::Sleep(_) => {
            &&& found matches Some(ip)
            &&& next is Ask
            &&& next->call == Call::SshCheckPort { ip }
        },
        Call::SshCheckPort { ip } => if replies[i] == Reply::Flag(Ok(true)) {
            next == Next::<Boot, IpAddr>::Done(Ok(ip))
        } else {
            &&& slept(trail, i) matches Some(delay)
            &&& next is Ask
            &&& next->call == Call::ScaleDelay(delay)
        },
        Call::ScaleDelay(_) => next is Ask && next->call == Call::Clock,
        _ => false,
    }
}

/// What holds of every machine that waits in a run.
spec fn on_course(
    vm_name: String,
    config: BootConfig,
    replies: Seq<Reply>,
    trail: Seq<Next<Boot, IpAddr>>,
    i: int,
) -> bool {
    trail[i] matches Next::Ask { status, call, machine } ==> {
        let found = address(replies, i);
        &&& status is None
        &&& machine.vm_name == vm_name
        &&& machine.config == config
        &&& i > 0 ==> replies[0] is Instant
        &&& machine.step.deadline() matches Some(deadline) ==> i > 0 && (deadline
            == replies[0]->Instant_0 + config.timeout || (deadline == u128::MAX
            && replies[0]->Instant_0 + config.timeout > u128::MAX))
        &&& match machine.step {
            BootStep::Starting => i == 0 && call == Call::Clock && found is None,
            BootStep::IpClock { .. } => call == Call::Clock && found is None,
            BootStep::Arp { wait_secs, .. } => found is None && call == Call::Tart(
                TartCommand::IpWaitArp { name: vm_name, wait_secs },
            ),
            BootStep::Dhcp { .. } => found is None && (call matches Call::Tart(
                TartCommand::IpWait { name, .. },
            ) && name == vm_name),
            BootStep::PortClock { ip, delay, .. } => {
                &&& call == Call::Clock
                &&& found == Some(ip)
                &&& due_sleep(config, replies, i, delay)
            },
            BootStep::Sleeping { ip, delay, .. } => {
                &&& call == Call::Sleep(delay)
                &&& found == Some(ip)
            },
            BootStep::Port { ip, delay, .. } => {
                &&& call == Call::SshCheckPort { ip }
                &&& found == Some(ip)
                &&& slept(trail, i) == Some(delay)
            },
            BootStep::Scaling { ip, .. } => call is ScaleDelay && found == Some(ip),
        }
        &&& machine.step.ip() is None ==> scaled(replies, i) is None
    }
}

proof fn lemma_on_course(
    vm_name: String,
    config: BootConfig,
    replies: Seq<Reply>,
    trail: Seq<Next<Boot, IpAddr>>,
    i: int,
)
    requires
        is_run(boot_begins(vm_name, config), replies, trail),
        0 <= i <= replies.len(),
    ensures
        on_course(vm_name, config, replies, trail, i),
    decreases i,
{
    if i > 0 {
        lemma_on_course(vm_name, config, replies, trail, i - 1);
        assert(goes_on_at(replies, trail, i - 1));
    }
}

/// The wait begins with a look at the clock. From then on every reply is followed by what is due:
/// looks at the clock that end the wait at the deadline and no sooner, polls of the resolvers for
/// the machine, then sleeps of the due length and tries of the port at the address that was found,
/// until one succeeds.
pub proof fn law_a_wait_does_what_is_due(
    vm_name: String,
    config: BootConfig,
    replies: Seq<Reply>,
    trail: Seq<Next<Boot, IpAddr>>,
    i: int,
)
    requires
        is_run(boot_begins(vm_name, config), replies, trail),
        0 <= i < replies.len(),
    ensures
        trail[0] is Ask && trail[0]->call == Call::Clock,
        trail[i] is Ask && trail[i]->status is None,
        is_due(vm_name, config, replies, trail, i),
{
    lemma_on_course(vm_name, config, replies, trail, i);
    lemma_on_course(vm_name, config, replies, trail, 0);
    assert(goes_on_at(replies, trail, i));
    lemma_on_course(vm_name, config, replies, trail, i + 1);
}

} // verus!
