//! Waiting for a machine to boot.
//!
//! Boot is detected in two phases: `tart ip` is polled until it gives an address, then the SSH
//! port of that address until it can be reached. One deadline covers both.

use vstd::pervasive::unreached;
use vstd::prelude::*;
use vstd::string::StringExecFns;

use crate::effect::{goes_on_at, is_run, Call, IpAddr, Kind, Machine, Next, Reply};
use crate::error::TachikomaError;
use crate::tart::TartCommand;

verus! {

/// How to wait for a boot. Durations are in nanoseconds.
#[derive(Debug)]
pub struct BootConfig {
    /// How long to sleep before the SSH port is first tried.
    pub initial_delay: u128,
    /// The longest sleep between two later tries.
    pub max_interval: u128,
    /// How long the whole boot may take.
    pub timeout: u128,
    /// The user to log in as.
    pub ssh_user: String,
    /// Whether an address alone counts as booted.
    pub skip_ssh_check: bool,
}

/// Whether these are the settings of an ordinary boot.
pub open spec fn is_default(config: BootConfig) -> bool {
    &&& config.initial_delay == 500_000_000
    &&& config.max_interval == 5_000_000_000
    &&& config.timeout == 120_000_000_000
    &&& config.ssh_user@ == "admin"@
    &&& !config.skip_ssh_check
}

impl Default for BootConfig {
    fn default() -> (config: BootConfig)
        ensures
            is_default(config),
    {
        BootConfig {
            initial_delay: 500_000_000,
            max_interval: 5_000_000_000,
            timeout: 120_000_000_000,
            ssh_user: "admin".to_string(),
            skip_ssh_check: false,
        }
    }
}

/// What the wait is for at the moment.
pub enum BootStep {
    /// The time at which the wait begins.
    Starting,
    /// The time, before the address is asked for.
    IpClock { deadline: u128 },
    /// An address from the ARP resolver.
    Arp { deadline: u128, wait_secs: u64 },
    /// An address from the DHCP resolver.
    Dhcp { deadline: u128 },
    /// The time, before the port is tried.
    PortClock { deadline: u128, ip: IpAddr, delay: u128 },
    /// The end of a sleep.
    Sleeping { deadline: u128, ip: IpAddr, delay: u128 },
    /// Whether the port could be reached.
    Port { deadline: u128, ip: IpAddr, delay: u128 },
    /// The delay times the backoff factor.
    Scaling { deadline: u128, ip: IpAddr },
}

/// A wait for the boot of one machine.
pub struct Boot {
    pub vm_name: String,
    pub config: BootConfig,
    pub step: BootStep,
}

/// The end of a timeout that begins at `start`.
pub open spec fn deadline_after(start: u64, timeout: u128) -> u128 {
    if start + timeout <= u128::MAX {
        (start + timeout) as u128
    } else {
        u128::MAX
    }
}

/// For how many seconds `tart` is left to poll by itself: ten, or the whole seconds that are
/// left, but no less than one.
pub open spec fn wait_chunk(remaining: int) -> int {
    let secs = remaining / 1_000_000_000;
    if secs < 1 {
        1
    } else if secs < 10 {
        secs
    } else {
        10
    }
}

/// What a user is told when no address came in time.
pub open spec fn ip_timeout_text(vm_name: Seq<char>) -> Seq<char> {
    "Timed out waiting for VM '"@ + vm_name
        + "' to get an IP address.\nThe VM is running but DHCP didn't assign an IP in time.\nTry:\n  tart ip --resolver arp "@
        + vm_name + "\n  tart ip --wait 30 "@ + vm_name
        + "\n  sudo launchctl kickstart -k system/com.apple.bootpd  # restart DHCP\nIf the VM is stuck, clean it up with: tachikoma destroy "@
        + vm_name
}

/// What a user is told when the port did not open in time.
pub open spec fn ssh_timeout_text(ip: IpAddr) -> Seq<char> {
    "Timed out waiting for SSH on "@ + ip.text@
}

/// Whether the wait ends with the given message.
pub open spec fn gives_up(next: Next<Boot, IpAddr>, message: Seq<char>) -> bool {
    next matches Next::Done(Err(TachikomaError::Vm(m))) && m@ == message
}

impl Boot {
    /// The same wait, for something else.
    pub open spec fn waiting_for(self, step: BootStep) -> Boot {
        Boot { vm_name: self.vm_name, config: self.config, step }
    }

    /// How the wait goes on with a call.
    pub open spec fn asking(self, call: Call, step: BootStep) -> Next<Boot, IpAddr> {
        Next::Ask { status: None, call, machine: self.waiting_for(step) }
    }

    /// How the wait goes on once there is an address.
    pub open spec fn with_ip(self, deadline: u128, ip: IpAddr) -> Next<Boot, IpAddr> {
        if self.config.skip_ssh_check {
            Next::Done(Ok(ip))
        } else {
            self.asking(
                Call::Clock,
                BootStep::PortClock { deadline, ip, delay: self.config.initial_delay },
            )
        }
    }
}

fn ask(vm_name: String, config: BootConfig, call: Call, step: BootStep) -> (next: Next<Boot, IpAddr>)
    ensures
        next == (Next::<Boot, IpAddr>::Ask {
            status: None,
            call,
            machine: Boot { vm_name, config, step },
        }),
{
    Next::Ask { status: None, call, machine: Boot { vm_name, config, step } }
}

fn found(vm_name: String, config: BootConfig, deadline: u128, ip: IpAddr) -> (next: Next<Boot, IpAddr>)
    ensures
        forall|step: BootStep|
            next == #[trigger] (Boot { vm_name, config, step }).with_ip(deadline, ip),
{
    if config.skip_ssh_check {
        Next::Done(Ok(ip))
    } else {
        let delay: u128 = config.initial_delay;
        ask(vm_name, config, Call::Clock, BootStep::PortClock { deadline, ip, delay })
    }
}

fn ip_timeout(vm_name: &str) -> (message: String)
    ensures
        message@ == ip_timeout_text(vm_name@),
{
    let mut m = "Timed out waiting for VM '".to_string();
    m.append(vm_name);
    m.append(
        "' to get an IP address.\nThe VM is running but DHCP didn't assign an IP in time.\nTry:\n  tart ip --resolver arp ",
    );
    m.append(vm_name);
    m.append("\n  tart ip --wait 30 ");
    m.append(vm_name);
    m.append(
        "\n  sudo launchctl kickstart -k system/com.apple.bootpd  # restart DHCP\nIf the VM is stuck, clean it up with: tachikoma destroy ",
    );
    m.append(vm_name);
    m
}

impl Machine for Boot {
    type Output = IpAddr;

    open spec fn awaits(&self) -> Kind {
        match self.step {
            BootStep::Starting => Kind::Instant,
            BootStep::IpClock { .. } => Kind::Instant,
            BootStep::Arp { .. } => Kind::Ip,
            BootStep::Dhcp { .. } => Kind::Ip,
            BootStep::PortClock { .. } => Kind::Instant,
            BootStep::Sleeping { .. } => Kind::Slept,
            BootStep::Port { .. } => Kind::Flag,
            BootStep::Scaling { .. } => Kind::Delay,
        }
    }

    open spec fn transition(self, reply: Reply, next: Next<Boot, IpAddr>) -> bool {
        match self.step {
            BootStep::Starting => {
                let deadline = deadline_after(reply->Instant_0, self.config.timeout);
                next == self.asking(Call::Clock, BootStep::IpClock { deadline })
            },
            BootStep::IpClock { deadline } => {
                let now = reply->Instant_0;
                if now >= deadline {
                    gives_up(next, ip_timeout_text(self.vm_name@))
                } else {
                    let wait_secs = wait_chunk(deadline - now) as u64;
                    next == self.asking(
                        Call::Tart(TartCommand::IpWaitArp { name: self.vm_name, wait_secs }),
                        BootStep::Arp { deadline, wait_secs },
                    )
                }
            },
            BootStep::Arp { deadline, wait_secs } => match reply {
                Reply::Ip(Ok(Some(ip))) => next == self.with_ip(deadline, ip),
                _ => next == self.asking(
                    Call::Tart(TartCommand::IpWait { name: self.vm_name, wait_secs }),
                    BootStep::Dhcp { deadline },
                ),
            },
            BootStep::Dhcp { deadline } => match reply {
                Reply::Ip(Ok(Some(ip))) => next == self.with_ip(deadline, ip),
                _ => next == self.asking(Call::Clock, BootStep::IpClock { deadline }),
            },
            BootStep::PortClock { deadline, ip, delay } => {
                if reply->Instant_0 >= deadline {
                    gives_up(next, ssh_timeout_text(ip))
                } else {
                    next == self.asking(Call::Sleep(delay), BootStep::Sleeping { deadline, ip, delay })
                }
            },
            BootStep::Sleeping { deadline, ip, delay } => next == self.asking(
                Call::SshCheckPort { ip },
                BootStep::Port { deadline, ip, delay },
            ),
            BootStep::Port { deadline, ip, delay } => match reply {
                Reply::Flag(Ok(true)) => next == Next::<Boot, IpAddr>::Done(Ok(ip)),
                _ => next == self.asking(Call::ScaleDelay(delay), BootStep::Scaling { deadline, ip }),
            },
            BootStep::Scaling { deadline, ip } => {
                let scaled = reply->Delay_0;
                let delay = if scaled < self.config.max_interval {
                    scaled
                } else {
                    self.config.max_interval
                };
                next == self.asking(Call::Clock, BootStep::PortClock { deadline, ip, delay })
            },
        }
    }

    fn resume(self, reply: Reply) -> (next: Next<Boot, IpAddr>) {
        let Boot { vm_name, config, step } = self;
        match (step, reply) {
            (BootStep::Starting, Reply::Instant(start)) => {
                let start: u128 = start as u128;
                let deadline: u128 = if config.timeout <= u128::MAX - start {
                    start + config.timeout
                } else {
                    u128::MAX
                };
                ask(vm_name, config, Call::Clock, BootStep::IpClock { deadline })
            },
            (BootStep::IpClock { deadline }, Reply::Instant(now)) => {
                let now: u128 = now as u128;
                if now >= deadline {
                    Next::Done(Err(TachikomaError::Vm(ip_timeout(vm_name.as_str()))))
                } else {
                    let secs: u128 = (deadline - now) / 1_000_000_000;
                    let wait_secs: u64 = if secs < 1 {
                        1
                    } else if secs < 10 {
                        secs as u64
                    } else {
                        10
                    };
                    let name = vm_name.clone();
                    ask(
                        vm_name,
                        config,
                        Call::Tart(TartCommand::IpWaitArp { name, wait_secs }),
                        BootStep::Arp { deadline, wait_secs },
                    )
                }
            },
            (BootStep::Arp { deadline, wait_secs }, reply) => {
                let name = vm_name.clone();
                match reply {
                    Reply::Ip(Ok(Some(ip))) => found(vm_name, config, deadline, ip),
                    _ => ask(
                        vm_name,
                        config,
                        Call::Tart(TartCommand::IpWait { name, wait_secs }),
                        BootStep::Dhcp { deadline },
                    ),
                }
            },
            (BootStep::Dhcp { deadline }, reply) => {
                match reply {
                    Reply::Ip(Ok(Some(ip))) => found(vm_name, config, deadline, ip),
                    _ => ask(vm_name, config, Call::Clock, BootStep::IpClock { deadline }),
                }
            },
            (BootStep::PortClock { deadline, ip, delay }, Reply::Instant(now)) => {
                if (now as u128) >= deadline {
                    let mut m = "Timed out waiting for SSH on ".to_string();
                    m.append(ip.text.as_str());
                    Next::Done(Err(TachikomaError::Vm(m)))
                } else {
                    ask(vm_name, config, Call::Sleep(delay), BootStep::Sleeping { deadline, ip, delay })
                }
            },
            (BootStep::Sleeping { deadline, ip, delay }, _) => {
                ask(
                    vm_name,
                    config,
                    Call::SshCheckPort { ip: ip.duplicate() },
                    BootStep::Port { deadline, ip, delay },
                )
            },
            (BootStep::Port { deadline, ip, delay }, reply) => match reply {
                Reply::Flag(Ok(true)) => Next::Done(Ok(ip)),
                _ => {
                    ask(vm_name, config, Call::ScaleDelay(delay), BootStep::Scaling { deadline, ip })
                },
            },
            (BootStep::Scaling { deadline, ip }, Reply::Delay(scaled)) => {
                let delay: u128 = if scaled < config.max_interval {
                    scaled
                } else {
                    config.max_interval
                };
                ask(vm_name, config, Call::Clock, BootStep::PortClock { deadline, ip, delay })
            },
            _ => unreached(),
        }
    }
}

/// The beginning of a wait for the boot of a machine.
pub open spec fn boot_begins(vm_name: String, config: BootConfig) -> Next<Boot, IpAddr> {
    Next::Ask {
        status: None,
        call: Call::Clock,
        machine: Boot { vm_name, config, step: BootStep::Starting },
    }
}

/// Starts waiting for the boot of a machine.
pub fn wait_for_boot(vm_name: String, config: BootConfig) -> (next: Next<Boot, IpAddr>)
    ensures
        next == boot_begins(vm_name, config),
{
    ask(vm_name, config, Call::Clock, BootStep::Starting)
}

impl BootStep {
    /// The deadline, once it is set.
    pub open spec fn deadline(self) -> Option<u128> {
        match self {
            BootStep::Starting => None,
            BootStep::IpClock { deadline } => Some(deadline),
            BootStep::Arp { deadline, .. } => Some(deadline),
            BootStep::Dhcp { deadline } => Some(deadline),
            BootStep::PortClock { deadline, .. } => Some(deadline),
            BootStep::Sleeping { deadline, .. } => Some(deadline),
            BootStep::Port { deadline, .. } => Some(deadline),
            BootStep::Scaling { deadline, .. } => Some(deadline),
        }
    }

    /// The address, once there is one.
    pub open spec fn ip(self) -> Option<IpAddr> {
        match self {
            BootStep::PortClock { ip, .. } => Some(ip),
            BootStep::Sleeping { ip, .. } => Some(ip),
            BootStep::Port { ip, .. } => Some(ip),
            BootStep::Scaling { ip, .. } => Some(ip),
            _ => None,
        }
    }

    /// The delay that the next sleep takes, or the last one took.
    pub open spec fn delay(self) -> Option<u128> {
        match self {
            BootStep::PortClock { delay, .. } => Some(delay),
            BootStep::Sleeping { delay, .. } => Some(delay),
            BootStep::Port { delay, .. } => Some(delay),
            _ => None,
        }
    }
}

/// Whether a resolver of `tart` gave the address of the named machine by the reply of the given
/// number.
pub open spec fn polled_at(
    vm_name: String,
    replies: Seq<Reply>,
    trail: Seq<Next<Boot, IpAddr>>,
    ip: IpAddr,
    j: int,
) -> bool {
    &&& replies[j] == Reply::Ip(Ok(Some(ip)))
    &&& trail[j] is Ask
    &&& trail[j]->call matches Call::Tart(command)
    &&& {
        ||| command matches TartCommand::IpWaitArp { name, .. } && name == vm_name
        ||| command matches TartCommand::IpWait { name, .. } && name == vm_name
    }
}

/// What holds of every machine that waits in a run.
spec fn on_course(
    vm_name: String,
    config: BootConfig,
    replies: Seq<Reply>,
    trail: Seq<Next<Boot, IpAddr>>,
    i: int,
) -> bool {
    trail[i] matches Next::Ask { call, machine, .. } ==> {
        &&& machine.vm_name == vm_name
        &&& machine.config == config
        &&& machine.awaits() == call.kind()
        &&& machine.step is Starting <==> i == 0
        &&& machine.step.deadline() matches Some(deadline) ==> deadline == deadline_after(
            replies[0]->Instant_0,
            config.timeout,
        )
        &&& machine.step.ip() matches Some(ip) ==> !config.skip_ssh_check && exists|j: int|
            0 <= j < i && #[trigger] polled_at(vm_name, replies, trail, ip, j)
        &&& machine.step.delay() matches Some(delay) ==> delay == config.initial_delay || delay
            <= config.max_interval
        &&& machine.step matches BootStep::Arp { wait_secs, .. } ==> 1 <= wait_secs <= 10 && call
            == Call::Tart(TartCommand::IpWaitArp { name: vm_name, wait_secs })
        &&& machine.step is Dhcp ==> (call matches Call::Tart(
            TartCommand::IpWait { name, wait_secs },
        ) && name == vm_name && 1 <= wait_secs <= 10)
        &&& machine.step matches BootStep::Sleeping { delay, .. } ==> call == Call::Sleep(delay)
        &&& machine.step matches BootStep::Port { ip, .. } ==> call == Call::SshCheckPort { ip }
        &&& machine.step is Starting || machine.step is IpClock || machine.step is PortClock
            ==> call == Call::Clock
        &&& machine.step is Scaling ==> call is ScaleDelay
    }
}

proof fn lemma_on_course(
    vm_name: String,
    config: BootConfig,
    replies: Seq<Reply>,
    trail: Seq<Next<Boot, IpAddr>>,
    i: int,
)
    requires
        is_run(boot_begins(vm_name, config), replies, trail),
        0 <= i <= replies.len(),
    ensures
        on_course(vm_name, config, replies, trail, i),
    decreases i,
{
    if i > 0 {
        lemma_on_course(vm_name, config, replies, trail, i - 1);
        assert(goes_on_at(replies, trail, i - 1));
        let before = trail[i - 1]->machine;
        if before.step is Arp || before.step is Dhcp {
            if let Reply::Ip(Ok(Some(ip))) = replies[i - 1] {
                assert(polled_at(vm_name, replies, trail, ip, i - 1));
            }
        } else if let Some(ip) = before.step.ip() {
            let j = choose|j: int|
                0 <= j < i - 1 && #[trigger] polled_at(vm_name, replies, trail, ip, j);
            assert(polled_at(vm_name, replies, trail, ip, j));
        }
    }
}

/// A machine that counts as booted has an address that a resolver of `tart` gave for it, and its
/// SSH port was reached there last, unless that check is to be skipped.
pub proof fn law_booted_machines_were_reached(
    vm_name: String,
    config: BootConfig,
    replies: Seq<Reply>,
    trail: Seq<Next<Boot, IpAddr>>,
    ip: IpAddr,
)
    requires
        is_run(boot_begins(vm_name, config), replies, trail),
        trail.last() == Next::<Boot, IpAddr>::Done(Ok(ip)),
    ensures
        exists|j: int|
            0 <= j < replies.len() && #[trigger] polled_at(vm_name, replies, trail, ip, j),
        !config.skip_ssh_check ==> {
            &&& replies.last() == Reply::Flag(Ok(true))
            &&& trail[trail.len() - 2]->call == Call::SshCheckPort { ip }
        },
{
    let last = replies.len() - 1;
    lemma_on_course(vm_name, config, replies, trail, last);
    assert(goes_on_at(replies, trail, last));
    assert(replies[last] == replies.last());
    let before = trail[last]->machine;
    if before.step is Arp || before.step is Dhcp {
        assert(polled_at(vm_name, replies, trail, ip, last));
    }
}

/// The SSH port is tried only at an address that a resolver of `tart` gave for the machine before.
pub proof fn law_ports_are_tried_at_resolved_addresses(
    vm_name: String,
    config: BootConfig,
    replies: Seq<Reply>,
    trail: Seq<Next<Boot, IpAddr>>,
    ip: IpAddr,
    i: int,
)
    requires
        is_run(boot_begins(vm_name, config), replies, trail),
        0 <= i <= replies.len(),
        trail[i] is Ask,
        trail[i]->call == (Call::SshCheckPort { ip }),
    ensures
        !config.skip_ssh_check,
        exists|j: int| 0 <= j < i && #[trigger] polled_at(vm_name, replies, trail, ip, j),
{
    lemma_on_course(vm_name, config, replies, trail, i);
}

/// One deadline governs the whole wait: it is set by the first look at the clock, and the wait is
/// given up when a later look reaches it, and only then. No failure of a single poll ends it.
pub proof fn law_only_the_deadline_ends_a_wait(
    vm_name: String,
    config: BootConfig,
    replies: Seq<Reply>,
    trail: Seq<Next<Boot, IpAddr>>,
    i: int,
)
    requires
        is_run(boot_begins(vm_name, config), replies, trail),
        1 <= i < replies.len(),
    ensures
        (trail[i + 1] matches Next::Done(Err(_))) <==> (replies[i] matches Reply::Instant(now) && now
            >= deadline_after(replies[0]->Instant_0, config.timeout)),
{
    lemma_on_course(vm_name, config, replies, trail, i);
    assert(goes_on_at(replies, trail, i));
}

/// `tart` is never left to poll for longer than ten seconds, nor for less than one, and it is
/// asked for the machine that is waited for.
pub proof fn law_polls_are_short(
    vm_name: String,
    config: BootConfig,
    replies: Seq<Reply>,
    trail: Seq<Next<Boot, IpAddr>>,
    i: int,
    command: TartCommand,
)
    requires
        is_run(boot_begins(vm_name, config), replies, trail),
        0 <= i <= replies.len(),
        trail[i] is Ask,
        trail[i]->call == Call::Tart(command),
    ensures
        match command {
            TartCommand::IpWaitArp { name, wait_secs } => name == vm_name && 1 <= wait_secs <= 10,
            TartCommand::IpWait { name, wait_secs } => name == vm_name && 1 <= wait_secs <= 10,
            _ => false,
        },
{
    lemma_on_course(vm_name, config, replies, trail, i);
}

/// No sleep between two tries of the port is longer than the longest interval, but for the
/// initial delay.
pub proof fn law_sleeps_are_bounded(
    vm_name: String,
    config: BootConfig,
    replies: Seq<Reply>,
    trail: Seq<Next<Boot, IpAddr>>,
    i: int,
    delay: u128,
)
    requires
        is_run(boot_begins(vm_name, config), replies, trail),
        0 <= i <= replies.len(),
        trail[i] is Ask,
        trail[i]->call == Call::Sleep(delay),
    ensures
        delay == config.initial_delay || delay <= config.max_interval,
{
    lemma_on_course(vm_name, config, replies, trail, i);
}

/// `tart` is not left to poll past the deadline, but for the one second that it always gets.
pub proof fn law_polls_respect_the_deadline(
    vm_name: String,
    config: BootConfig,
    replies: Seq<Reply>,
    trail: Seq<Next<Boot, IpAddr>>,
    i: int,
    name: String,
    wait_secs: u64,
)
    requires
        is_run(boot_begins(vm_name, config), replies, trail),
        0 <= i <= replies.len(),
        trail[i] is Ask,
        trail[i]->call == Call::Tart(TartCommand::IpWaitArp { name, wait_secs }),
    ensures
        i > 0,
        replies[i - 1] matches Reply::Instant(now) && {
            let deadline = deadline_after(replies[0]->Instant_0, config.timeout);
            &&& now < deadline
            &&& wait_secs == 1 || now + wait_secs * 1_000_000_000 <= deadline
        },
{
    lemma_on_course(vm_name, config, replies, trail, i);
    lemma_on_course(vm_name, config, replies, trail, i - 1);
    assert(goes_on_at(replies, trail, i - 1));
}

/// The ARP resolver is asked first: the DHCP resolver is asked only when the other one has just
/// given no address, and for as long.
pub proof fn law_dhcp_is_the_fallback(
    vm_name: String,
    config: BootConfig,
    replies: Seq<Reply>,
    trail: Seq<Next<Boot, IpAddr>>,
    i: int,
    name: String,
    wait_secs: u64,
)
    requires
        is_run(boot_begins(vm_name, config), replies, trail),
        0 <= i <= replies.len(),
        trail[i] is Ask,
        trail[i]->call == Call::Tart(TartCommand::IpWait { name, wait_secs }),
    ensures
        i > 0,
        trail[i - 1]->call == Call::Tart(TartCommand::IpWaitArp { name, wait_secs }),
        !(replies[i - 1] matches Reply::Ip(Ok(Some(_)))),
{
    lemma_on_course(vm_name, config, replies, trail, i);
    lemma_on_course(vm_name, config, replies, trail, i - 1);
    assert(goes_on_at(replies, trail, i - 1));
}

} // verus!
