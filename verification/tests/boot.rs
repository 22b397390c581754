use tachikoma::effect::{Call, IpAddr, Machine, Next, Reply};
use tachikoma::error::TachikomaError;
use tachikoma::tart::TartCommand;
use tachikoma::vm::boot::{wait_for_boot, Boot, BootConfig};

const MILLI: u128 = 1_000_000;
const SEC: u128 = 1_000_000_000;

fn ip() -> IpAddr {
    IpAddr { text: "192.168.64.10".to_string() }
}

/// A machine that boots: what its resolvers and its SSH port answer, and a clock that moves on
/// with each look at it, each sleep and, if so said, each poll that finds nothing.
struct World {
    clock: u64,
    polls_last: bool,
    arp: Box<dyn FnMut() -> Reply>,
    dhcp: Box<dyn FnMut() -> Reply>,
    port: Box<dyn FnMut() -> Reply>,
    waits: Vec<(&'static str, u64)>,
    sleeps: Vec<u128>,
}

impl World {
    fn new() -> World {
        World {
            clock: 7_000,
            polls_last: false,
            arp: Box::new(|| Reply::Ip(Ok(Some(ip())))),
            dhcp: Box::new(|| Reply::Ip(Ok(None))),
            port: Box::new(|| Reply::Flag(Ok(true))),
            waits: Vec::new(),
            sleeps: Vec::new(),
        }
    }

    fn perform(&mut self, call: Call) -> Reply {
        match call {
            Call::Clock => {
                self.clock += 1_000_000;
                Reply::Instant(self.clock)
            }
            Call::Sleep(nanos) => {
                self.sleeps.push(nanos);
                self.clock += nanos as u64;
                Reply::Slept
            }
            Call::ScaleDelay(nanos) => Reply::Delay(nanos * 2),
            Call::Tart(TartCommand::IpWaitArp { name, wait_secs }) => {
                assert_eq!(name, "test-vm");
                self.waits.push(("arp", wait_secs));
                let reply = (self.arp)();
                if self.polls_last && !matches!(reply, Reply::Ip(Ok(Some(_)))) {
                    self.clock += wait_secs * 500_000_000;
                }
                reply
            }
            Call::Tart(TartCommand::IpWait { name, wait_secs }) => {
                assert_eq!(name, "test-vm");
                self.waits.push(("dhcp", wait_secs));
                let reply = (self.dhcp)();
                if self.polls_last && !matches!(reply, Reply::Ip(Ok(Some(_)))) {
                    self.clock += wait_secs * 500_000_000;
                }
                reply
            }
            Call::SshCheckPort { ip: asked } => {
                assert_eq!(asked.text, "192.168.64.10");
                (self.port)()
            }
            other => panic!("unexpected call: {other:?}"),
        }
    }

    fn boot(&mut self, config: BootConfig) -> Result<IpAddr, TachikomaError> {
        let mut next: Next<Boot, IpAddr> = wait_for_boot("test-vm".to_string(), config);
        loop {
            match next {
                Next::Ask { status, call, machine } => {
                    assert!(status.is_none());
                    let kind = call.kind();
                    let reply = self.perform(call);
                    assert_eq!(reply.kind(), kind);
                    next = machine.resume(reply);
                }
                Next::Done(result) => return result,
            }
        }
    }
}

#[test]
fn test_immediate_boot() {
    let config = BootConfig { timeout: 5 * SEC, ..Default::default() };
    let result = World::new().boot(config);
    assert!(result.is_ok());
    assert_eq!(result.unwrap().text, "192.168.64.10");
}

#[test]
fn test_ip_takes_a_few_polls() {
    let mut world = World::new();
    let mut count = 0;
    world.arp = Box::new(move || {
        count += 1;
        if count <= 2 {
            Reply::Ip(Ok(None))
        } else {
            Reply::Ip(Ok(Some(ip())))
        }
    });
    let config = BootConfig { timeout: 5 * SEC, ..Default::default() };
    let result = world.boot(config);
    assert!(result.is_ok());
    assert_eq!(
        world.waits,
        vec![("arp", 4), ("dhcp", 4), ("arp", 4), ("dhcp", 4), ("arp", 4)]
    );
}

#[test]
fn test_ssh_takes_a_few_polls() {
    let mut world = World::new();
    let mut count = 0;
    world.port = Box::new(move || {
        count += 1;
        Reply::Flag(Ok(count > 2))
    });
    let config = BootConfig {
        initial_delay: 10 * MILLI,
        max_interval: 20 * MILLI,
        timeout: 5 * SEC,
        ..Default::default()
    };
    let result = world.boot(config);
    assert!(result.is_ok());
    // The delay doubles, up to the longest interval.
    assert_eq!(world.sleeps, vec![10 * MILLI, 20 * MILLI, 20 * MILLI]);
}

#[test]
fn test_ip_timeout() {
    let mut world = World::new();
    world.arp = Box::new(|| Reply::Ip(Ok(None)));
    let config = BootConfig { timeout: SEC, ..Default::default() };
    let result = world.boot(config);
    assert!(result.is_err());
    let err = result.unwrap_err().message().to_string();
    assert!(err.contains("Timed out"), "Expected timeout error, got: {err}");
    assert!(
        err.contains("tart ip --resolver arp"),
        "Timeout error should name the remedies, got: {err}"
    );
    assert_eq!(
        err,
        "Timed out waiting for VM 'test-vm' to get an IP address.\n\
         The VM is running but DHCP didn't assign an IP in time.\n\
         Try:\n  tart ip --resolver arp test-vm\n  tart ip --wait 30 test-vm\n  \
         sudo launchctl kickstart -k system/com.apple.bootpd  # restart DHCP\n\
         If the VM is stuck, clean it up with: tachikoma destroy test-vm"
    );
    assert!(world.sleeps.is_empty());
}

#[test]
fn test_ssh_timeout() {
    let mut world = World::new();
    world.port = Box::new(|| Reply::Flag(Ok(false)));
    let config = BootConfig {
        initial_delay: 10 * MILLI,
        max_interval: 20 * MILLI,
        timeout: 100 * MILLI,
        ..Default::default()
    };
    let result = world.boot(config);
    assert!(result.is_err());
    let err = result.unwrap_err().message().to_string();
    assert!(err.contains("Timed out"), "Expected timeout error, got: {err}");
    assert_eq!(err, "Timed out waiting for SSH on 192.168.64.10");
}

#[test]
fn default_boot_config() {
    let config = BootConfig::default();
    assert_eq!(config.initial_delay, 500 * MILLI);
    assert_eq!(config.max_interval, 5 * SEC);
    assert_eq!(config.timeout, 120 * SEC);
    assert_eq!(config.ssh_user, "admin");
    assert!(!config.skip_ssh_check);
}

#[test]
fn failures_of_single_polls_do_not_end_the_wait() {
    let mut world = World::new();
    let mut tries = 0;
    world.arp = Box::new(|| Reply::Ip(Err(TachikomaError::Tart("no arp".to_string()))));
    world.dhcp = Box::new(move || {
        tries += 1;
        if tries < 3 {
            Reply::Ip(Err(TachikomaError::Tart("no dhcp".to_string())))
        } else {
            Reply::Ip(Ok(Some(ip())))
        }
    });
    let mut ports = 0;
    world.port = Box::new(move || {
        ports += 1;
        if ports < 2 {
            Reply::Flag(Err(TachikomaError::Other("refused".to_string())))
        } else {
            Reply::Flag(Ok(true))
        }
    });
    assert_eq!(world.boot(BootConfig::default()).unwrap().text, "192.168.64.10");
}

#[test]
fn polls_take_ten_seconds_at_most_and_one_at_least() {
    let mut world = World::new();
    world.polls_last = true;
    world.arp = Box::new(|| Reply::Ip(Ok(None)));
    let config = BootConfig { timeout: 14 * SEC + 500 * MILLI, ..Default::default() };
    assert!(world.boot(config).is_err());
    assert_eq!(
        world.waits,
        vec![("arp", 10), ("dhcp", 10), ("arp", 4), ("dhcp", 4), ("arp", 1), ("dhcp", 1)]
    );
}

#[test]
fn an_address_is_enough_when_ssh_is_skipped() {
    let mut world = World::new();
    world.port = Box::new(|| panic!("the port is not to be tried"));
    let config = BootConfig { skip_ssh_check: true, ..Default::default() };
    assert_eq!(world.boot(config).unwrap().text, "192.168.64.10");
}
