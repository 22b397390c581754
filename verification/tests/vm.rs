use tachikoma::config::Config;
use tachikoma::effect::{Call, IpAddr, Machine, Next, Reply};
use tachikoma::error::TachikomaError;
use tachikoma::names::vm_name;
use tachikoma::state::{Sighting, State, Timestamp, VmEntry, VmStatus};
use tachikoma::tart::types::TartVmInfo;
use tachikoma::tart::TartCommand;
use tachikoma::vm::mounts::{build_run_opts, candidate_mounts};
use tachikoma::vm::{SpawnResult, VmOrchestrator};
use tachikoma::worktree::WorktreeInfo;

fn s(text: &str) -> String {
    text.to_string()
}

fn test_config() -> Config {
    Config {
        base_image: s("ubuntu"),
        vm_display: s("none"),
        boot_timeout_secs: 120,
        ssh_user: s("admin"),
        agent: s("helper"),
        agent_title: s("Helper"),
        share_claude_dirs: vec![s("rules"), s("agents")],
        worktree_dir: None,
        credential_proxy: false,
        credential_proxy_bind: s("192.168.64.1"),
        credential_proxy_port: 19280,
        prune_after_days: 30,
    }
}

fn vm_info(name: &str, state: &str) -> TartVmInfo {
    TartVmInfo {
        name: s(name),
        state: s(state),
        disk: 50,
        size: 31,
        source: s("local"),
        running: state == "running",
        accessed: None,
    }
}

fn ip() -> IpAddr {
    IpAddr { text: s("192.168.64.10") }
}

/// A host with the given machines, on which every call succeeds unless it is told otherwise.
struct World {
    vms: Vec<(String, &'static str)>,
    clock: u64,
    address: Option<&'static str>,
    resolves: bool,
    logs_in: bool,
    present: bool,
    loaded: Vec<VmEntry>,
    stop_fails: bool,
    calls: Vec<String>,
    paths: Vec<String>,
    mounts: Vec<String>,
    saved: Option<State>,
    statuses: Vec<String>,
}

impl World {
    fn with(vms: Vec<(String, &'static str)>) -> World {
        World {
            vms,
            clock: 0,
            address: Some("192.168.64.10"),
            resolves: true,
            logs_in: true,
            present: true,
            loaded: Vec::new(),
            stop_fails: false,
            calls: Vec::new(),
            paths: Vec::new(),
            mounts: Vec::new(),
            saved: None,
            statuses: Vec::new(),
        }
    }

    fn perform(&mut self, call: Call) -> Reply {
        match call {
            Call::Tart(TartCommand::List) => {
                self.calls.push(s("list"));
                Reply::Vms(Ok(self.vms.iter().map(|(n, st)| vm_info(n, st)).collect()))
            }
            Call::Tart(TartCommand::Clone { source, name }) => {
                self.calls.push(format!("clone {source} {name}"));
                Reply::Unit(Ok(()))
            }
            Call::Tart(TartCommand::Run { name, opts }) => {
                self.calls.push(format!("run {name}"));
                assert!(opts.no_graphics);
                assert!(!opts.rosetta);
                self.mounts = opts.dirs.iter().map(|d| d.to_tart_arg()).collect();
                Reply::Unit(Ok(()))
            }
            Call::Tart(TartCommand::Stop { name }) => {
                self.calls.push(format!("stop {name}"));
                if self.stop_fails {
                    Reply::Unit(Err(TachikomaError::Tart(s("tart stop failed: busy"))))
                } else {
                    Reply::Unit(Ok(()))
                }
            }
            Call::Tart(TartCommand::Ip { name }) => {
                self.calls.push(format!("ip {name}"));
                Reply::Ip(Ok(self.address.map(|a| IpAddr { text: s(a) })))
            }
            Call::Tart(TartCommand::IpWaitArp { name, .. }) => {
                self.calls.push(format!("arp {name}"));
                self.clock += 2_000_000_000;
                Reply::Ip(Ok(if self.resolves { Some(ip()) } else { None }))
            }
            Call::Tart(TartCommand::IpWait { .. }) => Reply::Ip(Ok(None)),
            Call::SshCheckConnection { ip, user } => {
                self.calls.push(format!("login {user}@{}", ip.text));
                Reply::Flag(Ok(self.logs_in))
            }
            Call::SshCheckPort { ip } => {
                self.calls.push(format!("port {}", ip.text));
                Reply::Flag(Ok(true))
            }
            Call::PathsExist(paths) => {
                let present = vec![self.present; paths.len()];
                self.paths = paths;
                Reply::Presence(present)
            }
            Call::Clock => Reply::Instant(self.clock),
            Call::Sleep(nanos) => {
                self.clock += nanos as u64;
                Reply::Slept
            }
            Call::ScaleDelay(nanos) => Reply::Delay(nanos * 2),
            Call::LoadState => {
                let vms = std::mem::take(&mut self.loaded);
                Reply::Loaded(Ok(State { vms }))
            }
            Call::SaveState(state) => {
                self.calls.push(s("save"));
                self.saved = Some(state);
                Reply::Unit(Ok(()))
            }
            other => panic!("unexpected call: {other:?}"),
        }
    }

    fn drive<M: Machine>(&mut self, first: Next<M, M::Output>) -> Result<M::Output, TachikomaError> {
        let mut next = first;
        loop {
            match next {
                Next::Ask { status, call, machine } => {
                    self.statuses.extend(status);
                    let kind = call.kind();
                    let reply = self.perform(call);
                    assert_eq!(reply.kind(), kind);
                    next = machine.resume(reply);
                }
                Next::Done(result) => return result,
            }
        }
    }

    fn spawn(&mut self, config: &Config, interactive: bool, branch: &str) -> Result<SpawnResult, TachikomaError> {
        let orch = VmOrchestrator::new(config, interactive);
        let first = orch.spawn(s(branch), s("myrepo"), s("/tmp/wt"), s("/tmp/repo"));
        self.drive(first)
    }
}

fn entry(name: &str) -> VmEntry {
    VmEntry {
        name: s(name),
        repo: s("repo"),
        branch: s("old"),
        worktree_path: s("/old/wt"),
        created_at: Timestamp { secs: 5, nanos: 6 },
        last_used: Timestamp { secs: 7, nanos: 8 },
        status: VmStatus::Stopped,
        ip: None,
    }
}

#[test]
fn test_reconnect_running_vm() {
    let name = vm_name("myrepo", "main");
    let mut world = World::with(vec![(name.clone(), "running")]);
    let result = world.spawn(&test_config(), true, "main").unwrap();
    assert!(matches!(result, SpawnResult::Reconnected { .. }));
    assert_eq!(result.name(), name);
    assert_eq!(result.ip().text, "192.168.64.10");
    assert_eq!(
        world.calls,
        vec!["list", "ip tachikoma-myrepo-main", "login admin@192.168.64.10", "save"]
    );
    assert_eq!(world.statuses, vec!["Connecting to running VM..."]);
}

#[test]
fn test_create_new_vm() {
    let mut world = World::with(vec![]);
    let result = world.spawn(&test_config(), true, "main").unwrap();
    assert!(matches!(result, SpawnResult::Created { .. }));
    assert_eq!(
        world.calls,
        vec![
            "list",
            "clone ubuntu tachikoma-myrepo-main",
            "run tachikoma-myrepo-main",
            "arp tachikoma-myrepo-main",
            "port 192.168.64.10",
            "save",
        ]
    );
    assert_eq!(
        world.statuses,
        vec!["Cloning base image 'ubuntu'...", "Starting VM...", "Waiting for boot..."]
    );
}

#[test]
fn test_resume_suspended_vm() {
    let mut world = World::with(vec![(vm_name("myrepo", "feat"), "suspended")]);
    let result = world.spawn(&test_config(), true, "feat").unwrap();
    assert!(matches!(result, SpawnResult::Resumed { .. }));
    assert_eq!(world.statuses, vec!["Resuming suspended VM...", "Waiting for boot..."]);
    assert!(!world.calls.iter().any(|c| c.starts_with("clone")));
}

#[test]
fn test_start_stopped_vm() {
    let mut world = World::with(vec![(vm_name("myrepo", "dev"), "stopped")]);
    let result = world.spawn(&test_config(), true, "dev").unwrap();
    assert!(matches!(result, SpawnResult::Started { .. }));
    assert_eq!(world.statuses, vec!["Starting stopped VM...", "Waiting for boot..."]);
    assert!(!world.calls.iter().any(|c| c.starts_with("clone")));
}

#[test]
fn test_resolve_explicit_branch() {
    let config = test_config();
    let orch = VmOrchestrator::new(&config, true);
    let branch = World::with(vec![]).drive(orch.resolve_branch(Some(s("feature/x")), s("/tmp"))).unwrap();
    assert_eq!(branch, "feature/x");
}

#[test]
fn test_resolve_branch_auto_detect() {
    let config = test_config();
    let orch = VmOrchestrator::new(&config, true);
    match orch.resolve_branch(None, s("/tmp")) {
        Next::Ask { call: Call::GitCurrentBranch { cwd }, machine, .. } => {
            assert_eq!(cwd, "/tmp");
            match machine.resume(Reply::Text(Ok(s("main")))) {
                Next::Done(branch) => assert_eq!(branch.unwrap(), "main"),
                Next::Ask { .. } => panic!("asked again"),
            }
        }
        _ => panic!("did not ask git"),
    }
}

#[test]
fn test_state_updated_on_create() {
    let mut world = World::with(vec![]);
    let result = world.spawn(&test_config(), true, "main");
    assert!(result.is_ok());
    let saved = world.saved.unwrap();
    assert_eq!(saved.vms.len(), 1);
    assert_eq!(saved.vms[0].status, VmStatus::Running);
    assert_eq!(saved.vms[0].name, "tachikoma-myrepo-main");
    assert_eq!(saved.vms[0].repo, "myrepo");
    assert_eq!(saved.vms[0].branch, "main");
    assert_eq!(saved.vms[0].worktree_path, "/tmp/wt");
    assert_eq!(saved.vms[0].ip.as_deref(), Some("192.168.64.10"));
    // The clock of the host is past the year 2020, and goes on.
    assert!(saved.vms[0].created_at.secs > 1_577_836_800);
    assert!(saved.vms[0].last_used.secs >= saved.vms[0].created_at.secs);
}

#[test]
fn test_create_stops_ghost_vm_on_boot_failure() {
    let mut world = World::with(vec![]);
    world.resolves = false;
    let mut config = test_config();
    config.boot_timeout_secs = 1;
    let result = world.spawn(&config, true, "main");
    assert!(result.is_err());
    let err = result.unwrap_err().message().to_string();
    assert!(err.contains("Timed out"), "should timeout, got: {err}");
    assert_eq!(world.calls.last().unwrap(), "stop tachikoma-myrepo-main");
    assert!(world.saved.is_none());
}

#[test]
fn the_boot_error_stands_though_the_stop_fails() {
    let mut world = World::with(vec![]);
    world.resolves = false;
    world.stop_fails = true;
    let mut config = test_config();
    config.boot_timeout_secs = 1;
    let err = world.spawn(&config, true, "main").unwrap_err();
    assert!(err.message().starts_with("Timed out waiting for VM 'tachikoma-myrepo-main'"));
}

#[test]
fn an_old_machine_that_does_not_boot_is_left_as_it_is() {
    let mut world = World::with(vec![(vm_name("myrepo", "main"), "stopped")]);
    world.resolves = false;
    let mut config = test_config();
    config.boot_timeout_secs = 1;
    assert!(world.spawn(&config, true, "main").is_err());
    assert!(!world.calls.iter().any(|c| c.starts_with("stop")));
}

#[test]
fn a_running_machine_that_does_not_answer_is_waited_for() {
    let mut world = World::with(vec![(vm_name("myrepo", "main"), "running")]);
    world.logs_in = false;
    let result = world.spawn(&test_config(), true, "main").unwrap();
    assert!(matches!(result, SpawnResult::Reconnected { .. }));
    assert!(world.calls.contains(&s("port 192.168.64.10")));

    let mut world = World::with(vec![(vm_name("myrepo", "main"), "running")]);
    world.address = None;
    let result = world.spawn(&test_config(), true, "main").unwrap();
    assert!(matches!(result, SpawnResult::Reconnected { .. }));
    assert!(world.calls.contains(&s("arp tachikoma-myrepo-main")));
}

#[test]
fn nobody_waits_for_a_new_machine_without_a_user() {
    let mut world = World::with(vec![(vm_name("myrepo", "other"), "running")]);
    let result = world.spawn(&test_config(), false, "main").unwrap();
    assert!(matches!(result, SpawnResult::Created { .. }));
    assert_eq!(result.ip().text, "127.0.0.1");
    assert!(world.saved.is_none());
    assert_eq!(
        world.calls,
        vec!["list", "clone ubuntu tachikoma-myrepo-main", "run tachikoma-myrepo-main"]
    );
}

#[test]
fn without_a_user_an_address_is_enough() {
    let mut world = World::with(vec![(vm_name("myrepo", "main"), "suspended")]);
    let result = world.spawn(&test_config(), false, "main").unwrap();
    assert!(matches!(result, SpawnResult::Resumed { .. }));
    assert!(!world.calls.iter().any(|c| c.starts_with("port")));
    assert!(world.saved.is_some());
}

#[test]
fn a_machine_in_an_unknown_state_is_made_anew() {
    let mut world = World::with(vec![(vm_name("myrepo", "main"), "paused")]);
    let result = world.spawn(&test_config(), true, "main").unwrap();
    assert!(matches!(result, SpawnResult::Created { .. }));
}

#[test]
fn a_known_machine_keeps_its_origin() {
    let name = vm_name("myrepo", "main");
    let mut world = World::with(vec![(name.clone(), "running")]);
    world.loaded = vec![entry("another"), entry(&name)];
    world.spawn(&test_config(), true, "main").unwrap();
    let saved = world.saved.unwrap();
    assert_eq!(saved.vms.len(), 2);
    assert_eq!(saved.vms[0].status, VmStatus::Stopped);
    assert_eq!(saved.vms[0].last_used, Timestamp { secs: 7, nanos: 8 });
    assert_eq!(saved.vms[1].status, VmStatus::Running);
    assert_eq!(saved.vms[1].ip.as_deref(), Some("192.168.64.10"));
    assert_eq!(saved.vms[1].branch, "old");
    assert_eq!(saved.vms[1].worktree_path, "/old/wt");
    assert_eq!(saved.vms[1].created_at, Timestamp { secs: 5, nanos: 6 });
    assert!(saved.vms[1].last_used.secs > 1_577_836_800);
}

#[test]
fn the_home_directory_of_the_host_is_looked_into() {
    let mut world = World::with(vec![]);
    world.spawn(&test_config(), false, "main").unwrap();
    assert_eq!(world.paths[0], "/tmp/repo/.git");
    assert_eq!(world.mounts[0], "code:/tmp/wt");
    assert_eq!(world.mounts[1], "dotgit:/tmp/repo/.git");
    match dirs::home_dir() {
        Some(home) => {
            let hidden = home.join(".helper");
            assert_eq!(world.paths[1], hidden.join("rules").to_string_lossy());
            assert_eq!(world.paths[2], hidden.join("agents").to_string_lossy());
            assert_eq!(
                world.paths[3],
                hidden.join("projects").join("-tmp-repo").join("memory").to_string_lossy()
            );
            assert_eq!(world.mounts.len(), 5);
        }
        None => assert_eq!(world.mounts.len(), 2),
    }
}

#[test]
fn test_build_run_opts_code_mount_is_writable() {
    let config = test_config();
    let candidates = candidate_mounts(&config, "/scratch/repo", &None);
    let opts = build_run_opts(&config, "/scratch/worktree", &candidates, &vec![false]);
    let code_mount = opts.dirs.iter().find(|d| d.name.as_deref() == Some("code")).unwrap();
    assert!(!code_mount.read_only, "code mount must be writable");
    assert_eq!(code_mount.host_path, "/scratch/worktree");
}

#[test]
fn test_build_run_opts_dotgit_mount_is_writable() {
    let config = test_config();
    let candidates = candidate_mounts(&config, "/scratch/repo", &None);
    let opts = build_run_opts(&config, "/scratch/worktree", &candidates, &vec![true]);
    let dotgit = opts.dirs.iter().find(|d| d.name.as_deref() == Some("dotgit")).unwrap();
    assert!(!dotgit.read_only, "dotgit mount must be writable for git access in VM");
    assert_eq!(dotgit.host_path, "/scratch/repo/.git");
}

#[test]
fn shared_directories_are_mounted_read_only() {
    let mut config = test_config();
    config.vm_display = s("window");
    let candidates = candidate_mounts(&config, "/r", &Some(s("/home/u")));
    let opts = build_run_opts(&config, "/w", &candidates, &vec![false, true, false, true]);
    let args: Vec<String> = opts.dirs.iter().map(|d| d.to_tart_arg()).collect();
    assert_eq!(
        args,
        vec![
            "code:/w",
            "helper-rules:/home/u/.helper/rules:ro",
            "helper-memory:/home/u/.helper/projects/-r/memory:ro",
        ]
    );
    assert!(!opts.no_graphics);
}

fn worktree(path: &str, branch: &str, is_main: bool) -> WorktreeInfo {
    WorktreeInfo { path: s(path), branch: Some(s(branch)), is_main }
}

#[test]
fn test_ensure_worktree_skips_main_worktree() {
    let config = test_config();
    let orch = VmOrchestrator::new(&config, true);
    let machine = match orch.ensure_worktree(s("/tmp/repo"), s("main"), s("myrepo")) {
        Next::Ask { call: Call::GitListWorktrees { repo_root }, machine, .. } => {
            assert_eq!(repo_root, "/tmp/repo");
            machine
        }
        _ => panic!("did not list the worktrees"),
    };
    let found = vec![worktree("/tmp/repo", "main", true)];
    let (target, machine) = match machine.resume(Reply::Worktrees(Ok(found))) {
        Next::Ask { call: Call::GitCreateWorktree { repo_root, branch, target }, machine, .. } => {
            assert_eq!(repo_root, "/tmp/repo");
            assert_eq!(branch, "main");
            assert!(target.contains("myrepo-main"));
            (target, machine)
        }
        _ => panic!("did not create a worktree"),
    };
    match machine.resume(Reply::Text(Ok(target))) {
        Next::Done(result) => {
            let result = result.unwrap();
            assert_ne!(result, "/tmp/repo");
            assert!(result.contains("myrepo-main"));
            assert_eq!(result, "/tmp/myrepo-main");
        }
        Next::Ask { .. } => panic!("asked again"),
    }
}

#[test]
fn test_ensure_worktree_reuses_existing_linked_worktree() {
    let config = test_config();
    let orch = VmOrchestrator::new(&config, true);
    let machine = match orch.ensure_worktree(s("/tmp/repo"), s("feature-x"), s("myrepo")) {
        Next::Ask { machine, .. } => machine,
        Next::Done(_) => panic!("did not list the worktrees"),
    };
    let found = vec![
        worktree("/tmp/repo", "main", true),
        worktree("/tmp/repo-feature-x", "feature-x", false),
    ];
    match machine.resume(Reply::Worktrees(Ok(found))) {
        Next::Done(result) => assert_eq!(result.unwrap(), "/tmp/repo-feature-x"),
        Next::Ask { .. } => panic!("created a worktree"),
    }
}

#[test]
fn worktrees_go_where_the_settings_say() {
    let mut config = test_config();
    config.worktree_dir = Some(s("/worktrees"));
    assert_eq!(
        tachikoma::vm::worktree::worktree_target(&config, "/tmp/repo", "repo", "feat/a"),
        "/worktrees/repo-feat/a"
    );
    config.worktree_dir = None;
    assert_eq!(tachikoma::vm::worktree::worktree_target(&config, "/", "r", "b"), "/r-b");
}

#[test]
fn a_repository_is_named_after_its_root() {
    let config = test_config();
    let orch = VmOrchestrator::new(&config, true);
    let ask = |root: &str| match orch.resolve_repo(s("/x")) {
        Next::Ask { call: Call::GitFindRepoRoot { .. }, machine, .. } => {
            match machine.resume(Reply::Text(Ok(s(root)))) {
                Next::Done(found) => found.unwrap(),
                Next::Ask { .. } => panic!("asked again"),
            }
        }
        _ => panic!("did not ask git"),
    };
    assert_eq!(ask("/tmp/myrepo"), (s("myrepo"), s("/tmp/myrepo")));
    assert_eq!(ask("/"), (s("unknown"), s("/")));
}

#[test]
fn sightings_are_recorded_once() {
    let sighting = |name: &str, ip: &str| Sighting {
        name: s(name),
        repo: s("r"),
        branch: s("b"),
        worktree_path: s("/w"),
        status: VmStatus::Running,
        ip: Some(s(ip)),
    };
    let mut state = State::new();
    let at = |secs: i64| Timestamp { secs, nanos: 0 };
    state.record(sighting("a", "1.1.1.1"), at(1), at(2));
    state.record(sighting("b", "2.2.2.2"), at(3), at(4));
    state.record(sighting("a", "3.3.3.3"), at(5), at(6));
    assert_eq!(state.vms.len(), 2);
    let a = state.find_vm(&s("a")).unwrap();
    assert_eq!(a.ip.as_deref(), Some("3.3.3.3"));
    assert_eq!(a.created_at, at(1));
    assert_eq!(a.last_used, at(6));
    assert_eq!(state.find_vm(&s("b")).unwrap().ip.as_deref(), Some("2.2.2.2"));
    assert!(state.find_vm(&s("c")).is_none());
}

#[test]
fn failures_on_the_way_are_handed_on() {
    let config = test_config();
    let orch = VmOrchestrator::new(&config, true);
    let first = orch.spawn(s("main"), s("myrepo"), s("/tmp/wt"), s("/tmp/repo"));
    let machine = match first {
        Next::Ask { machine, .. } => machine,
        Next::Done(_) => panic!("did not list the machines"),
    };
    match machine.resume(Reply::Vms(Err(TachikomaError::Tart(s("tart list failed: x"))))) {
        Next::Done(Err(TachikomaError::Tart(m))) => assert_eq!(m, "tart list failed: x"),
        _ => panic!("went on"),
    }
}

#[test]
fn a_home_directory_that_is_no_text_is_shared_all_the_same() {
    let config = test_config();
    let home = tachikoma::os_path::path_text(&b"/home/\xff".to_vec());
    let candidates = candidate_mounts(&config, "/r", &Some(home));
    assert_eq!(
        tachikoma::os_path::path_bytes(&candidates[1].host_path),
        b"/home/\xff/.helper/rules"
    );
    assert_eq!(candidates[1].to_tart_arg(), "helper-rules:/home/\u{fffd}/.helper/rules:ro");
}

#[test]
fn given_times_are_written_down() {
    let job = tachikoma::vm::spawning::Job {
        vm_name: s("vm"),
        repo_name: s("r"),
        branch: s("b"),
        worktree_path: s("/w"),
        repo_root: s("/r"),
    };
    let at = |secs: i64| Timestamp { secs, nanos: 9 };
    let saved = tachikoma::vm::spawning::remember_at(&job, &ip(), at(1), at(2), State::new());
    assert_eq!(saved.vms[0].created_at, at(1));
    assert_eq!(saved.vms[0].last_used, at(2));
    assert_eq!(saved.vms[0].worktree_path, "/w");
}

#[test]
fn a_given_home_directory_is_looked_into() {
    let config = test_config();
    let orch = VmOrchestrator::new(&config, true);
    let job = tachikoma::vm::spawning::Job {
        vm_name: s("vm"),
        repo_name: s("r"),
        branch: s("b"),
        worktree_path: s("/w"),
        repo_root: s("/r"),
    };
    let fate = tachikoma::vm::spawning::Fate::Start;
    match tachikoma::vm::spawning::ask_for_paths_in(orch, job, None, fate, Some(s("/home/u"))) {
        Next::Ask { call: Call::PathsExist(paths), .. } => assert_eq!(
            paths,
            vec![
                "/r/.git",
                "/home/u/.helper/rules",
                "/home/u/.helper/agents",
                "/home/u/.helper/projects/-r/memory",
            ]
        ),
        _ => panic!("did not look"),
    }
}
