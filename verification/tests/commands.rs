use tachikoma::cmd::image::{build, list, pull, DEFAULT_GOLDEN_IMAGE};
use tachikoma::cmd::proxy::ensure_proxy_running;
use tachikoma::cmd::{exec, spawn};
use tachikoma::config::Config;
use tachikoma::effect::{Call, IpAddr, Machine, Next, Reply};
use tachikoma::error::TachikomaError;
use tachikoma::names::vm_name;
use tachikoma::state::{State, Timestamp, VmEntry, VmStatus};
use tachikoma::tart::types::{ExecOutput, TartVmInfo};
use tachikoma::tart::TartCommand;
use tachikoma::vm::SpawnResult;
use tachikoma::worktree::WorktreeInfo;

fn s(text: &str) -> String {
    text.to_string()
}

fn ip() -> IpAddr {
    IpAddr { text: s("192.168.64.10") }
}

fn test_config() -> Config {
    Config {
        base_image: s("ubuntu"),
        vm_display: s("none"),
        boot_timeout_secs: 120,
        ssh_user: s("admin"),
        agent: s("helper"),
        agent_title: s("Helper"),
        share_claude_dirs: vec![],
        worktree_dir: None,
        credential_proxy: false,
        credential_proxy_bind: s("192.168.64.1"),
        credential_proxy_port: 19280,
        prune_after_days: 30,
    }
}

fn vm_info(name: &str) -> TartVmInfo {
    TartVmInfo {
        name: s(name),
        state: s("stopped"),
        disk: 0,
        size: 0,
        source: String::new(),
        running: false,
        accessed: None,
    }
}

/// Drives a procedure, and collects what it shows on the way.
fn drive<M: Machine>(
    first: Next<M, M::Output>,
    mut world: impl FnMut(Call) -> Reply,
) -> (Result<M::Output, TachikomaError>, Vec<String>) {
    let mut statuses = Vec::new();
    let mut next = first;
    loop {
        match next {
            Next::Ask { status, call, machine } => {
                statuses.extend(status);
                let kind = call.kind();
                let reply = world(call);
                assert_eq!(reply.kind(), kind);
                next = machine.resume(reply);
            }
            Next::Done(result) => return (result, statuses),
        }
    }
}

#[test]
fn test_exec_via_tart_exec() {
    let first = exec::run(s("test-vm"), &vec![s("echo"), s("hello")], s("admin"), true);
    let (result, _) = drive(first, |call| match call {
        Call::Tart(TartCommand::Exec { name, cmd }) => {
            assert_eq!(name, "test-vm");
            assert_eq!(cmd, vec!["bash", "-c", "echo hello"]);
            Reply::Exec(Ok(ExecOutput { stdout: s("hello\n"), stderr: String::new(), exit_code: 0 }))
        }
        other => panic!("unexpected call: {other:?}"),
    });
    assert_eq!(result.unwrap(), "hello\n");
}

#[test]
fn test_exec_via_tart_exec_failure() {
    let first = exec::run(s("test-vm"), &vec![s("badcmd")], s("admin"), true);
    let (result, _) = drive(first, |_| {
        Reply::Exec(Ok(ExecOutput {
            stdout: String::new(),
            stderr: s("command not found\n"),
            exit_code: 127,
        }))
    });
    assert!(result.is_err());
    let err = result.unwrap_err().message().to_string();
    assert!(err.contains("exit 127"), "got: {err}");
    assert!(err.contains("command not found"), "got: {err}");
    assert_eq!(err, "tart exec failed (exit 127): command not found");
}

fn remembered() -> State {
    let mut state = State::new();
    state.add_vm(VmEntry {
        name: s("test-vm"),
        repo: s("repo"),
        branch: s("main"),
        worktree_path: s("/tmp/wt"),
        created_at: Timestamp { secs: 1, nanos: 0 },
        last_used: Timestamp { secs: 1, nanos: 0 },
        status: VmStatus::Running,
        ip: Some(s("192.168.64.10")),
    });
    state
}

#[test]
fn test_exec_via_ssh() {
    let first = exec::run(s("test-vm"), &vec![s("echo"), s("hello")], s("admin"), false);
    let (result, _) = drive(first, |call| match call {
        Call::LoadState => Reply::Loaded(Ok(remembered())),
        Call::ParseIp(text) => {
            assert_eq!(text.as_deref(), Some("192.168.64.10"));
            Reply::Address(Ok(ip()))
        }
        Call::SshRunCommand { ip, user, command } => {
            assert_eq!(ip.text, "192.168.64.10");
            assert_eq!(user, "admin");
            assert_eq!(command, "echo hello");
            Reply::Text(Ok(s("hello\n")))
        }
        other => panic!("unexpected call: {other:?}"),
    });
    assert_eq!(result.unwrap(), "hello\n");
}

#[test]
fn commands_go_to_known_machines_only() {
    let first = exec::run(s("no-vm"), &vec![s("ls")], s("admin"), false);
    let (result, _) = drive(first, |_| Reply::Loaded(Ok(remembered())));
    match result {
        Err(TachikomaError::Vm(m)) => assert_eq!(m, "VM 'no-vm' not found"),
        other => panic!("unexpected: {other:?}"),
    }
    let first = exec::run(s("test-vm"), &vec![s("ls")], s("admin"), false);
    let (result, _) = drive(first, |call| match call {
        Call::LoadState => Reply::Loaded(Ok(remembered())),
        _ => Reply::Address(Err(TachikomaError::Vm(s("no address")))),
    });
    assert_eq!(result.unwrap_err().message(), "no address");
}

#[test]
fn a_killed_command_has_a_code_too() {
    let output = ExecOutput { stdout: s("x"), stderr: s(" killed "), exit_code: -1 };
    let err = exec::exec_result(output).unwrap_err();
    assert_eq!(err.message(), "tart exec failed (exit -1): killed");
}

/// What becomes of a build: which step fails, and which machines are listed each time.
struct Builder {
    fails_at: &'static str,
    lists: Vec<Vec<&'static str>>,
    list_fails_at: usize,
    boots: bool,
    clock: u64,
    log: Vec<String>,
}

impl Builder {
    fn new(lists: Vec<Vec<&'static str>>) -> Builder {
        Builder { fails_at: "", lists, list_fails_at: usize::MAX, boots: true, clock: 0, log: vec![] }
    }

    fn unit(&mut self, what: String) -> Reply {
        let fails = what == self.fails_at;
        self.log.push(what);
        if fails {
            Reply::Unit(Err(TachikomaError::Tart(s("boom"))))
        } else {
            Reply::Unit(Ok(()))
        }
    }

    fn perform(&mut self, call: Call) -> Reply {
        match call {
            Call::Tart(TartCommand::List) => {
                let n = self.log.iter().filter(|l| *l == "list").count();
                self.log.push(s("list"));
                if n == self.list_fails_at {
                    return Reply::Vms(Err(TachikomaError::Tart(s("list failed"))));
                }
                let names = self.lists.get(n).cloned().unwrap_or_default();
                Reply::Vms(Ok(names.into_iter().map(vm_info).collect()))
            }
            Call::Tart(TartCommand::Clone { source, name }) => self.unit(format!("clone {source} {name}")),
            Call::Tart(TartCommand::Run { name, opts }) => {
                assert!(opts.no_graphics && opts.dirs.is_empty() && !opts.rosetta);
                self.unit(format!("run {name}"))
            }
            Call::Tart(TartCommand::Stop { name }) => self.unit(format!("stop {name}")),
            Call::Tart(TartCommand::Delete { name }) => self.unit(format!("delete {name}")),
            Call::Tart(TartCommand::IpWaitArp { .. }) => {
                self.clock += 10_000_000_000;
                Reply::Ip(Ok(if self.boots { Some(ip()) } else { None }))
            }
            Call::Tart(TartCommand::IpWait { .. }) => Reply::Ip(Ok(None)),
            Call::SshCheckPort { .. } => Reply::Flag(Ok(true)),
            Call::InstallAgent { vm_name } => self.unit(format!("install {vm_name}")),
            Call::Clock => Reply::Instant(self.clock),
            Call::Sleep(nanos) => {
                self.clock += nanos as u64;
                Reply::Slept
            }
            other => panic!("unexpected call: {other:?}"),
        }
    }

    fn build(&mut self, force: bool) -> (Result<(), TachikomaError>, Vec<String>) {
        let first = build(s("ubuntu"), s(DEFAULT_GOLDEN_IMAGE), force, s("Helper"));
        drive(first, |call| self.perform(call))
    }
}

#[test]
fn test_build_happy_path() {
    let mut builder = Builder::new(vec![]);
    let (result, statuses) = builder.build(false);
    assert!(result.is_ok(), "build failed: {result:?}");
    assert_eq!(
        builder.log,
        vec![
            "list",
            "list",
            "clone ubuntu tachikoma-builder",
            "run tachikoma-builder",
            "install tachikoma-builder",
            "stop tachikoma-builder",
            "clone tachikoma-builder tachikoma-golden",
            "delete tachikoma-builder",
        ]
    );
    assert_eq!(
        statuses,
        vec![
            "Cloning base image 'ubuntu' → tachikoma-builder...",
            "Booting builder VM...",
            "Waiting for builder VM to boot...",
            "Installing Helper in builder VM...",
            "Stopping builder VM...",
            "Cloning builder VM → 'tachikoma-golden'...",
            "Cleaning up builder VM...",
        ]
    );
}

#[test]
fn test_build_refuses_existing_without_force() {
    let mut builder = Builder::new(vec![vec![DEFAULT_GOLDEN_IMAGE]]);
    let (result, _) = builder.build(false);
    assert!(result.is_err());
    let msg = result.unwrap_err().message().to_string();
    assert!(msg.contains("already exists"), "Expected 'already exists', got: {msg}");
    assert_eq!(msg, "Image 'tachikoma-golden' already exists. Use --force to overwrite.");
    assert_eq!(builder.log, vec!["list"]);
}

#[test]
fn test_build_with_force_overwrites() {
    // The first listing is to find a builder left behind, the second to find the image.
    let mut builder = Builder::new(vec![vec![], vec![DEFAULT_GOLDEN_IMAGE]]);
    let (result, statuses) = builder.build(true);
    assert!(result.is_ok(), "build with --force failed: {result:?}");
    assert!(statuses.contains(&s("Deleting existing 'tachikoma-golden'...")));
    let deleted = builder.log.iter().position(|l| l == "delete tachikoma-golden").unwrap();
    let cloned = builder.log.iter().position(|l| l == "clone tachikoma-builder tachikoma-golden").unwrap();
    assert!(deleted < cloned);
}

#[test]
fn test_list() {
    let (images, _) = drive(list(), |call| match call {
        Call::Tart(TartCommand::List) => {
            Reply::Vms(Ok(vec![vm_info("tachikoma-golden"), vm_info("tachikoma-myapp-main")]))
        }
        other => panic!("unexpected call: {other:?}"),
    });
    assert_eq!(images.unwrap(), vec!["tachikoma-golden", "tachikoma-myapp-main"]);
}

#[test]
fn pulling_clones_to_a_local_name() {
    let (result, _) = drive(pull(s("ghcr.io/x")), |call| match call {
        Call::Tart(TartCommand::Clone { source, name }) => {
            assert_eq!(source, "ghcr.io/x");
            assert_eq!(name, "ghcr.io/x-local");
            Reply::Unit(Err(TachikomaError::Tart(s("no net"))))
        }
        other => panic!("unexpected call: {other:?}"),
    });
    assert_eq!(result.unwrap_err().message(), "no net");
}

#[test]
fn a_stale_builder_is_deleted_first() {
    let mut builder = Builder::new(vec![vec![], vec!["tachikoma-builder"]]);
    let (result, statuses) = builder.build(false);
    assert!(result.is_ok());
    assert_eq!(statuses[0], "Cleaning up stale builder VM...");
    assert_eq!(builder.log[2], "delete tachikoma-builder");
}

#[test]
fn a_base_that_cannot_be_cloned_leaves_nothing_to_clean() {
    let mut builder = Builder::new(vec![]);
    builder.fails_at = "clone ubuntu tachikoma-builder";
    let (result, _) = builder.build(true);
    assert_eq!(result.unwrap_err().message(), "Failed to clone base image: boom");
    assert_eq!(builder.log, vec!["list", "clone ubuntu tachikoma-builder"]);
}

#[test]
fn the_builder_is_cleaned_up_whatever_fails() {
    let failures = [
        ("run tachikoma-builder", "Failed to start builder VM: boom"),
        ("install tachikoma-builder", "boom"),
        ("stop tachikoma-builder", "Failed to stop builder VM: boom"),
        (
            "clone tachikoma-builder tachikoma-golden",
            "Failed to clone builder to golden image: boom",
        ),
    ];
    for (step, message) in failures {
        for force in [false, true] {
            let mut builder = Builder::new(vec![]);
            builder.fails_at = step;
            let (result, _) = builder.build(force);
            assert_eq!(result.unwrap_err().message(), message);
            let failed = builder.log.iter().position(|l| l == step).unwrap();
            assert!(builder.log[failed..].contains(&s("delete tachikoma-builder")), "{step}");
            if !force {
                assert!(!builder.log.contains(&s("delete tachikoma-golden")));
            }
        }
    }
}

#[test]
fn the_builder_is_cleaned_up_when_it_does_not_boot() {
    let mut builder = Builder::new(vec![]);
    builder.boots = false;
    let (result, _) = builder.build(true);
    assert!(result.unwrap_err().message().starts_with("Timed out waiting for VM 'tachikoma-builder'"));
    let n = builder.log.len();
    assert_eq!(
        builder.log[n - 3..],
        ["stop tachikoma-builder", "delete tachikoma-builder", "delete tachikoma-golden"]
    );
}

#[test]
fn the_builder_is_cleaned_up_when_the_images_cannot_be_listed() {
    let mut builder = Builder::new(vec![]);
    builder.list_fails_at = 1;
    let (result, _) = builder.build(true);
    assert_eq!(result.unwrap_err().message(), "list failed");
    assert_eq!(builder.log.last().unwrap(), "delete tachikoma-builder");
}

#[test]
fn a_proxy_that_answers_is_left_alone() {
    let config = test_config();
    let mut calls = 0;
    let (result, _) = drive(ensure_proxy_running(&config), |call| {
        calls += 1;
        match call {
            Call::ProxyReachable { bind, port } => {
                assert_eq!((bind.as_str(), port), ("192.168.64.1", 19280));
                Reply::Truth(true)
            }
            other => panic!("unexpected call: {other:?}"),
        }
    });
    assert!(result.is_ok());
    assert_eq!(calls, 1);
}

fn start_proxy(comes_up_after: usize) -> (Result<(), TachikomaError>, usize, u64) {
    let config = test_config();
    let mut clock = 5_000u64;
    let mut looks = 0;
    let mut starts = 0;
    let (result, _) = drive(ensure_proxy_running(&config), |call| match call {
        Call::ProxyReachable { .. } => {
            looks += 1;
            Reply::Truth(looks > comes_up_after)
        }
        Call::CurrentExe => Reply::OsText(Ok(s("/bin/tachikoma"))),
        Call::SpawnDetached { program, args } => {
            starts += 1;
            assert_eq!(program, "/bin/tachikoma");
            assert_eq!(args, vec!["proxy", "start", "--port", "19280", "--bind", "192.168.64.1"]);
            Reply::OsUnit(Ok(()))
        }
        Call::Clock => Reply::Instant(clock),
        Call::Sleep(nanos) => {
            assert_eq!(nanos, 100_000_000);
            clock += nanos as u64;
            Reply::Slept
        }
        other => panic!("unexpected call: {other:?}"),
    });
    assert_eq!(starts, 1);
    (result, looks, clock - 5_000)
}

#[test]
fn a_proxy_is_started_and_waited_for() {
    let (result, looks, waited) = start_proxy(3);
    assert!(result.is_ok());
    assert_eq!(looks, 4);
    assert_eq!(waited, 200_000_000);
}

#[test]
fn a_proxy_that_does_not_come_up_is_no_failure() {
    let (result, looks, waited) = start_proxy(usize::MAX);
    assert!(result.is_ok());
    assert_eq!(waited, 2_000_000_000);
    assert_eq!(looks, 22);
}

#[test]
fn a_proxy_that_cannot_be_started_is_a_failure() {
    let config = test_config();
    let (result, _) = drive(ensure_proxy_running(&config), |call| match call {
        Call::ProxyReachable { .. } => Reply::Truth(false),
        _ => Reply::OsText(Err(s("gone"))),
    });
    match result {
        Err(TachikomaError::Proxy(m)) => assert_eq!(m, "Cannot resolve own executable path: gone"),
        other => panic!("unexpected: {other:?}"),
    }
    let (result, _) = drive(ensure_proxy_running(&config), |call| match call {
        Call::ProxyReachable { .. } => Reply::Truth(false),
        Call::CurrentExe => Reply::OsText(Ok(s("/bin/t"))),
        _ => Reply::OsUnit(Err(s("denied"))),
    });
    match result {
        Err(TachikomaError::Proxy(m)) => assert_eq!(m, "Failed to spawn credential proxy: denied"),
        other => panic!("unexpected: {other:?}"),
    }
}

/// A host on which a machine is spawned from a directory, with a log of what was done.
struct Host {
    state: &'static str,
    proxy_up: bool,
    provision_fails: bool,
    clock: u64,
    log: Vec<String>,
}

impl Host {
    fn new(state: &'static str) -> Host {
        Host { state, proxy_up: true, provision_fails: false, clock: 0, log: vec![] }
    }

    fn perform(&mut self, call: Call) -> Reply {
        match call {
            Call::GitCurrentBranch { cwd } => {
                self.log.push(format!("branch of {cwd}"));
                Reply::Text(Ok(s("main")))
            }
            Call::GitFindRepoRoot { cwd } => {
                self.log.push(format!("root of {cwd}"));
                Reply::Text(Ok(s("/tmp/myrepo")))
            }
            Call::GitListWorktrees { repo_root } => {
                self.log.push(format!("worktrees of {repo_root}"));
                Reply::Worktrees(Ok(vec![
                    WorktreeInfo { path: s("/tmp/myrepo"), branch: Some(s("main")), is_main: true },
                    WorktreeInfo { path: s("/tmp/myrepo-main"), branch: Some(s("main")), is_main: false },
                ]))
            }
            Call::ProxyReachable { .. } => {
                self.log.push(s("proxy"));
                Reply::Truth(self.proxy_up)
            }
            Call::CurrentExe => Reply::OsText(Err(s("gone"))),
            Call::Tart(TartCommand::List) => {
                let mut info = vm_info(&vm_name("myrepo", "main"));
                info.state = s(self.state);
                Reply::Vms(Ok(if self.state.is_empty() { vec![] } else { vec![info] }))
            }
            Call::Tart(TartCommand::Ip { .. }) => Reply::Ip(Ok(Some(ip()))),
            Call::Tart(TartCommand::IpWaitArp { .. }) => Reply::Ip(Ok(Some(ip()))),
            Call::Tart(_) => Reply::Unit(Ok(())),
            Call::PathsExist(paths) => Reply::Presence(vec![false; paths.len()]),
            Call::SshCheckConnection { .. } => Reply::Flag(Ok(true)),
            Call::SshCheckPort { .. } => Reply::Flag(Ok(true)),
            Call::Clock => Reply::Instant(self.clock),
            Call::Sleep(nanos) => {
                self.clock += nanos as u64;
                Reply::Slept
            }
            Call::LoadState => Reply::Loaded(Ok(State::new())),
            Call::SaveState(_) => Reply::Unit(Ok(())),
            Call::Provision { ip, vm_name, branch, repo_root, config } => {
                assert_eq!(config.base_image, "ubuntu");
                assert_eq!(config.credential_proxy_port, 19280);
                self.log.push(format!("provision {vm_name} {} {branch} {repo_root}", ip.text));
                if self.provision_fails {
                    Reply::Unit(Err(TachikomaError::Other(s("no setup"))))
                } else {
                    Reply::Unit(Ok(()))
                }
            }
            Call::SshConnect { ip, user } => {
                self.log.push(format!("connect {user}@{}", ip.text));
                Reply::Unit(Ok(()))
            }
            other => panic!("unexpected call: {other:?}"),
        }
    }

    fn run(&mut self, branch: Option<&str>, config: &Config, interactive: bool) -> (Result<SpawnResult, TachikomaError>, Vec<String>) {
        let first = spawn::run(branch.map(s), s("/tmp/myrepo"), config, interactive);
        drive(first, |call| self.perform(call))
    }
}

#[test]
fn test_spawn_reconnects_running() {
    let mut host = Host::new("running");
    let (result, statuses) = host.run(None, &test_config(), false);
    assert!(matches!(result.unwrap(), SpawnResult::Reconnected { .. }));
    assert_eq!(
        host.log,
        vec!["branch of /tmp/myrepo", "root of /tmp/myrepo", "worktrees of /tmp/myrepo"]
    );
    assert_eq!(
        statuses,
        vec![
            "Resolving branch...",
            "Preparing worktree...",
            "Spawning VM...",
            "Connecting to running VM...",
        ]
    );
}

#[test]
fn new_machines_are_set_up_before_the_session() {
    let mut host = Host::new("");
    let (result, statuses) = host.run(None, &test_config(), true);
    assert!(matches!(result.unwrap(), SpawnResult::Created { .. }));
    let n = host.log.len();
    assert_eq!(
        host.log[n - 2..],
        [
            "provision tachikoma-myrepo-main 192.168.64.10 main /tmp/myrepo",
            "connect admin@192.168.64.10",
        ]
    );
    assert_eq!(statuses.last().unwrap(), "Provisioning VM...");
}

#[test]
fn a_setup_that_fails_ends_it_all() {
    let mut host = Host::new("");
    host.provision_fails = true;
    let (result, _) = host.run(None, &test_config(), true);
    assert_eq!(result.unwrap_err().message(), "no setup");
    assert!(!host.log.iter().any(|l| l.starts_with("connect")));
}

#[test]
fn old_machines_are_not_set_up_again() {
    let mut host = Host::new("stopped");
    let (result, _) = host.run(None, &test_config(), true);
    assert!(matches!(result.unwrap(), SpawnResult::Started { .. }));
    assert!(!host.log.iter().any(|l| l.starts_with("provision")));
    assert_eq!(host.log.last().unwrap(), "connect admin@192.168.64.10");
}

#[test]
fn an_explicit_branch_is_not_asked_for() {
    let mut host = Host::new("running");
    let (result, statuses) = host.run(Some("main"), &test_config(), false);
    assert!(matches!(result.unwrap(), SpawnResult::Reconnected { .. }));
    assert_eq!(host.log, vec!["root of /tmp/myrepo", "worktrees of /tmp/myrepo"]);
    assert_eq!(statuses[0], "Resolving branch...");
}

#[test]
fn the_proxy_comes_before_the_worktree() {
    let mut config = test_config();
    config.credential_proxy = true;
    let mut host = Host::new("running");
    let (result, statuses) = host.run(None, &config, false);
    assert!(result.is_ok());
    assert_eq!(
        host.log,
        vec!["branch of /tmp/myrepo", "root of /tmp/myrepo", "proxy", "worktrees of /tmp/myrepo"]
    );
    assert_eq!(statuses[1], "Ensuring credential proxy is running...");

    let mut host = Host::new("running");
    host.proxy_up = false;
    let (result, _) = host.run(None, &config, false);
    assert_eq!(result.unwrap_err().message(), "Cannot resolve own executable path: gone");
    assert_eq!(host.log.last().unwrap(), "proxy");
}
