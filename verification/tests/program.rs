use tachikoma::cli::output::OutputMode;
use tachikoma::cli::{command_needs_tart, Cli, Command, ImageAction, ProxyAction, Shell, SshAction};
use tachikoma::config::Config;
use tachikoma::effect::{Call, IpAddr, Machine, Next, PruneResult, Reply, Subcommand};
use tachikoma::error::TachikomaError;
use tachikoma::program::dispatch::{dispatch, start, Start};
use tachikoma::program::report::{is_confirmed, Report};
use tachikoma::program::{setup, tart_missing_lines, Readiness, Surroundings};
use tachikoma::state::{State, Timestamp, VmEntry, VmStatus};
use tachikoma::tart::types::TartVmInfo;
use tachikoma::tart::TartCommand;
use tachikoma::worktree::WorktreeInfo;

fn s(text: &str) -> String {
    text.to_string()
}

fn test_config() -> Config {
    Config {
        base_image: s("ubuntu"),
        vm_display: s("none"),
        boot_timeout_secs: 120,
        ssh_user: s("admin"),
        agent: s("helper"),
        agent_title: s("Helper"),
        share_claude_dirs: vec![],
        worktree_dir: None,
        credential_proxy: false,
        credential_proxy_bind: s("192.168.64.1"),
        credential_proxy_port: 19280,
        prune_after_days: 30,
    }
}

fn here() -> Surroundings {
    Surroundings { cwd: s("/src/app/sub"), repo_root: Some(s("/src/app")), config: test_config() }
}

fn cli(command: Option<Command>) -> Cli {
    Cli { command, branch: None, json: false, verbose: false }
}

/// A host that answers every call, with a log of those that change anything.
struct Host {
    answer: Result<&'static str, &'static str>,
    pruned: Vec<&'static str>,
    fails: bool,
    log: Vec<String>,
}

impl Host {
    fn new() -> Host {
        Host { answer: Ok("n\n"), pruned: vec![], fails: false, log: vec![] }
    }

    fn perform(&mut self, call: Call) -> Reply {
        match call {
            Call::GitCurrentBranch { cwd } => {
                assert_eq!(cwd, "/src/app/sub");
                Reply::Text(Ok(s("feat/a")))
            }
            Call::GitFindRepoRoot { .. } => Reply::Text(Ok(s("/src/app"))),
            Call::Subcommand(subcommand) => {
                self.log.push(format!("{subcommand:?}"));
                if self.fails {
                    Reply::Unit(Err(TachikomaError::Other(s("failed"))))
                } else {
                    Reply::Unit(Ok(()))
                }
            }
            Call::ReadLine { prompt } => {
                self.log.push(prompt);
                Reply::OsText(match self.answer {
                    Ok(line) => Ok(s(line)),
                    Err(e) => Err(s(e)),
                })
            }
            Call::LoadState => {
                let at = Timestamp { secs: 1, nanos: 0 };
                Reply::Loaded(Ok(State {
                    vms: vec![VmEntry {
                        name: s("tachikoma-app-feat-a"),
                        repo: s("app"),
                        branch: s("feat/a"),
                        worktree_path: s("/src/app-feat-a"),
                        created_at: at,
                        last_used: at,
                        status: VmStatus::Running,
                        ip: Some(s("10.0.0.2")),
                    }],
                }))
            }
            Call::ParseIp(text) => Reply::Address(Ok(IpAddr { text: text.unwrap() })),
            Call::SshRunCommand { ip, user, command } => {
                self.log.push(format!("{user}@{} {command}", ip.text));
                Reply::Text(Ok(s("out\n")))
            }
            Call::OpenPr { vm_name } => Reply::Text(Ok(format!("https://pr/{vm_name}"))),
            Call::Prune { days, dry_run } => {
                self.log.push(format!("prune {days}"));
                let pruned = self.pruned.iter().map(|n| s(n)).collect();
                Reply::Pruned(Ok(PruneResult { pruned, dry_run }))
            }
            Call::Tart(TartCommand::List) => Reply::Vms(Ok(vec![TartVmInfo {
                name: s("tachikoma-app-feat-a"),
                state: s("running"),
                disk: 0,
                size: 0,
                source: s("local"),
                running: true,
                accessed: None,
            }])),
            Call::Tart(TartCommand::Clone { source, name }) => {
                self.log.push(format!("clone {source} {name}"));
                Reply::Unit(Ok(()))
            }
            Call::Tart(TartCommand::Ip { .. }) => Reply::Ip(Ok(Some(IpAddr { text: s("10.0.0.2") }))),
            Call::Tart(TartCommand::IpWaitArp { .. }) => {
                Reply::Ip(Ok(Some(IpAddr { text: s("10.0.0.3") })))
            }
            Call::Tart(command) => {
                assert!(command.kind() == tachikoma::effect::Kind::Unit);
                Reply::Unit(Ok(()))
            }
            Call::GitListWorktrees { .. } => Reply::Worktrees(Ok(vec![WorktreeInfo {
                path: s("/src/app-feat-a"),
                branch: Some(s("feat/a")),
                is_main: false,
            }])),
            Call::SshCheckConnection { .. } => Reply::Flag(Ok(true)),
            Call::SshCheckPort { .. } => Reply::Flag(Ok(true)),
            Call::SaveState(_) => Reply::Unit(Ok(())),
            Call::SshConnect { .. } => {
                self.log.push(s("connect"));
                Reply::Unit(Ok(()))
            }
            Call::InstallAgent { .. } => Reply::Unit(Ok(())),
            Call::Clock => Reply::Instant(0),
            Call::Sleep(_) => Reply::Slept,
            other => panic!("unexpected call: {other:?}"),
        }
    }

    fn run(&mut self, cli: Cli) -> Result<Report, TachikomaError> {
        let here = here();
        let mut next = dispatch(cli, &here);
        loop {
            match next {
                Next::Ask { status: _, call, machine } => {
                    let kind = call.kind();
                    let reply = self.perform(call);
                    assert_eq!(reply.kind(), kind);
                    next = machine.resume(reply);
                }
                Next::Done(result) => return result,
            }
        }
    }

    fn success(&mut self, command: Command) -> String {
        match self.run(cli(Some(command))) {
            Ok(Report::Success(text)) => text,
            other => panic!("no success: {other:?}"),
        }
    }

    fn lines(&mut self, command: Command) -> Vec<String> {
        match self.run(cli(Some(command))) {
            Ok(Report::Lines(lines)) => lines,
            other => panic!("no lines: {other:?}"),
        }
    }

    fn nothing(&mut self, command: Command) {
        match self.run(cli(Some(command))) {
            Ok(Report::Nothing) => {}
            other => panic!("something: {other:?}"),
        }
    }
}

#[test]
fn commands_that_need_tart() {
    assert!(command_needs_tart(&None));
    assert!(command_needs_tart(&Some(Command::List { repo: None })));
    assert!(command_needs_tart(&Some(Command::Image { action: ImageAction::List })));
    assert!(!command_needs_tart(&Some(Command::Doctor)));
    assert!(!command_needs_tart(&Some(Command::Completions { shell: Shell::Bash })));
    assert!(!command_needs_tart(&Some(Command::Mcp)));
    assert!(!command_needs_tart(&Some(Command::Config { edit: true })));
    assert!(!command_needs_tart(&Some(Command::Pr { name: None })));
    assert!(!command_needs_tart(&Some(Command::Proxy { action: Some(ProxyAction::Stop) })));
}

#[test]
fn without_tart_nothing_is_done() {
    match setup(&None) {
        Next::Ask { call: Call::TartAvailable, machine, .. } => {
            assert!(matches!(
                machine.resume(Reply::Truth(false)),
                Next::Done(Ok(Readiness::TartMissing))
            ));
        }
        _ => panic!("did not look for tart"),
    }
    assert_eq!(
        tart_missing_lines(),
        vec![
            "error: tart is not installed. Install it with:",
            "  brew install cirruslabs/cli/tart",
            "",
            "Run 'tachikoma doctor' for a full system check.",
        ]
    );
}

fn prepare(command: Option<Command>, cwd: Result<String, String>, root: Result<String, TachikomaError>) -> (Result<Readiness, TachikomaError>, Vec<Option<String>>) {
    let mut roots = Vec::new();
    let mut cwd = Some(cwd);
    let mut root = Some(root);
    let mut next = setup(&command);
    loop {
        match next {
            Next::Ask { call, machine, .. } => {
                let reply = match call {
                    Call::TartAvailable => Reply::Truth(true),
                    Call::CurrentDir => Reply::OsText(cwd.take().unwrap()),
                    Call::GitFindRepoRoot { .. } => Reply::Text(root.take().unwrap()),
                    Call::LoadConfig { repo_root } => {
                        roots.push(repo_root);
                        Reply::Settings(Ok(test_config()))
                    }
                    other => panic!("unexpected call: {other:?}"),
                };
                next = machine.resume(reply);
            }
            Next::Done(result) => return (result, roots),
        }
    }
}

#[test]
fn preparing_a_command() {
    let (result, roots) = prepare(None, Ok(s("/x/y")), Ok(s("/x")));
    assert_eq!(roots, vec![Some(s("/x"))]);
    match result {
        Ok(Readiness::Ready(here)) => {
            assert_eq!(here.cwd, "/x/y");
            assert_eq!(here.repo_root.as_deref(), Some("/x"));
            assert_eq!(here.config.base_image, "ubuntu");
        }
        other => panic!("not ready: {other:?}"),
    }
    let (result, roots) =
        prepare(Some(Command::Doctor), Ok(s("/x")), Err(TachikomaError::Other(s("no repository"))));
    assert_eq!(roots, vec![None]);
    assert!(matches!(result, Ok(Readiness::Ready(_))));
    let (result, _) = prepare(None, Err(s("gone")), Ok(s("/x")));
    match result {
        Err(TachikomaError::Other(m)) => assert_eq!(m, "Failed to get current directory: gone"),
        other => panic!("unexpected: {other:?}"),
    }
}

#[test]
fn a_bare_command_line_spawns() {
    let mut host = Host::new();
    match host.run(cli(None)) {
        Ok(Report::Success(text)) => assert_eq!(text, "Reconnected to tachikoma-app-feat-a (10.0.0.2)"),
        other => panic!("no success: {other:?}"),
    }
    assert_eq!(host.log, vec!["connect"]);
}

#[test]
fn a_spawn_tells_where_the_machine_is() {
    let mut host = Host::new();
    let text = host.success(Command::Spawn { branch: Some(s("feat/a")), no_interactive: true });
    assert_eq!(text, "VM tachikoma-app-feat-a ready at 10.0.0.2");
    assert!(host.log.is_empty());
}

#[test]
fn machines_are_named_or_found() {
    let mut host = Host::new();
    assert_eq!(host.success(Command::Halt { name: Some(s("mine")) }), "Stopped mine");
    assert_eq!(host.success(Command::Halt { name: None }), "Stopped tachikoma-app-feat-a");
    assert_eq!(host.success(Command::Suspend { name: Some(s("mine")) }), "Stopped mine");
    host.nothing(Command::Enter { name: None });
    host.nothing(Command::Status { name: Some(s("mine")) });
    assert_eq!(
        host.log,
        vec![
            "Halt { vm_name: \"mine\" }",
            "Halt { vm_name: \"tachikoma-app-feat-a\" }",
            "Suspend { vm_name: \"mine\" }",
            "Enter { vm_name: \"tachikoma-app-feat-a\", ssh_user: \"admin\" }",
            "Status { vm_name: \"mine\", mode: Human }",
        ]
    );
}

#[test]
fn destroying_takes_a_yes() {
    let destroy = |force: bool| Command::Destroy { name: Some(s("mine")), force };
    let mut host = Host::new();
    assert_eq!(host.success(destroy(false)), "Aborted");
    assert_eq!(host.log, vec!["Destroy VM 'mine'? This cannot be undone. [y/N] "]);

    let mut host = Host::new();
    host.answer = Ok(" Y \n");
    assert_eq!(host.success(destroy(false)), "Destroyed mine");
    assert_eq!(host.log[1], "Destroy { vm_name: \"mine\" }");

    let mut host = Host::new();
    assert_eq!(host.success(destroy(true)), "Destroyed mine");
    assert_eq!(host.log, vec!["Destroy { vm_name: \"mine\" }"]);

    let mut host = Host::new();
    host.answer = Err("closed");
    match host.run(cli(Some(destroy(false)))) {
        Err(TachikomaError::Other(m)) => assert_eq!(m, "Failed to read input: closed"),
        other => panic!("unexpected: {other:?}"),
    }
    assert_eq!(host.log.len(), 1);
}

#[test]
fn what_counts_as_a_yes() {
    for (text, yes) in [("y", true), ("Y\n", true), ("  y\t", true), ("yes", false), ("", false), ("n", false)] {
        assert_eq!(is_confirmed(text), yes, "{text:?}");
        assert_eq!(is_confirmed(text), text.trim().eq_ignore_ascii_case("y"));
    }
}

#[test]
fn exec_prints_what_the_command_printed() {
    let mut host = Host::new();
    let command = Command::Exec { cmd: vec![s("ls"), s("-l")] };
    match host.run(cli(Some(command))) {
        Ok(Report::Raw(text)) => assert_eq!(text, "out\n"),
        other => panic!("unexpected: {other:?}"),
    }
    assert_eq!(host.log, vec!["admin@10.0.0.2 ls -l"]);
}

#[test]
fn cd_prints_the_worktree() {
    let mut host = Host::new();
    assert_eq!(host.lines(Command::Cd { name: None }), vec!["/src/app-feat-a"]);
    match host.run(cli(Some(Command::Cd { name: Some(s("other")) }))) {
        Err(TachikomaError::Vm(m)) => assert_eq!(m, "VM 'other' not found"),
        other => panic!("unexpected: {other:?}"),
    }
}

#[test]
fn pull_requests_are_told_of() {
    let mut host = Host::new();
    assert_eq!(host.success(Command::Pr { name: Some(s("vm")) }), "PR created: https://pr/vm");
}

#[test]
fn pruning() {
    let mut host = Host::new();
    assert_eq!(host.success(Command::Prune { days: None, dry_run: false }), "No VMs to prune");
    assert_eq!(host.log, vec!["prune 30"]);
    host.pruned = vec!["a", "b"];
    assert_eq!(host.lines(Command::Prune { days: Some(3), dry_run: false }), vec!["Pruned: a", "Pruned: b"]);
    assert_eq!(host.log[1], "prune 3");
    assert_eq!(host.lines(Command::Prune { days: None, dry_run: true })[1], "Would prune: b");
}

#[test]
fn images() {
    let mut host = Host::new();
    let image = |action: ImageAction| Command::Image { action };
    assert_eq!(host.success(image(ImageAction::Pull { name: None })), "Pulled image 'ubuntu'");
    assert_eq!(host.success(image(ImageAction::Pull { name: Some(s("x")) })), "Pulled image 'x'");
    assert_eq!(host.log, vec!["clone ubuntu ubuntu-local", "clone x x-local"]);
    assert_eq!(
        host.success(image(ImageAction::Push { name: None })),
        "Push not yet implemented for 'ubuntu'"
    );
    assert_eq!(host.lines(image(ImageAction::List)), vec!["tachikoma-app-feat-a"]);
    assert_eq!(
        host.success(image(ImageAction::Build { name: None, force: false })),
        "Built golden image 'tachikoma-golden'"
    );
    assert_eq!(host.log.last().unwrap(), "clone tachikoma-builder tachikoma-golden");
    assert_eq!(
        host.success(image(ImageAction::Build { name: Some(s("g")), force: true })),
        "Built golden image 'g'"
    );
}

#[test]
fn other_subcommands_are_carried_out_as_a_whole() {
    let mut host = Host::new();
    host.nothing(Command::List { repo: Some(s("app")) });
    host.nothing(Command::Doctor);
    host.nothing(Command::Config { edit: true });
    host.nothing(Command::Completions { shell: Shell::Zsh });
    host.nothing(Command::Mcp);
    host.nothing(Command::Proxy { action: None });
    assert_eq!(host.success(Command::Ssh { action: SshAction::Install }), "SSH config installed");
    assert_eq!(host.success(Command::Ssh { action: SshAction::Uninstall }), "SSH config removed");
    assert_eq!(host.success(Command::Ssh { action: SshAction::Refresh }), "SSH config refreshed");
    assert_eq!(host.log[0], "List { repo: Some(\"app\"), mode: Human }");
    assert_eq!(host.log[1], "Doctor { mode: Human }");
    assert_eq!(host.log[2], "ShowConfig { edit: true, repo_root: Some(\"/src/app\"), mode: Human }");
    assert_eq!(
        host.log[6],
        format!("{:?}", Subcommand::SshConfig { action: SshAction::Install, ssh_user: s("admin") })
    );
}

#[test]
fn failures_are_handed_on() {
    let mut host = Host::new();
    host.fails = true;
    let result = host.run(cli(Some(Command::Halt { name: Some(s("mine")) })));
    assert_eq!(result.unwrap_err().message(), "failed");
}

#[test]
fn commands_that_do_without_tart_do_not_look_for_it() {
    assert!(matches!(setup(&Some(Command::Doctor)), Next::Ask { call: Call::CurrentDir, .. }));
}

#[test]
fn a_bare_branch_is_shorthand_for_the_spawn_of_it() {
    let here = here();
    let bare = Cli { command: None, branch: Some(s("feat/a")), json: false, verbose: false };
    let spelled = cli(Some(Command::Spawn { branch: Some(s("feat/a")), no_interactive: false }));
    let calls = |cli: Cli| {
        let mut host = Host::new();
        let mut calls = Vec::new();
        let mut next = dispatch(cli, &here);
        loop {
            match next {
                Next::Ask { status, call, machine } => {
                    // What is written down holds the time of day.
                    if !matches!(call, Call::SaveState(_)) {
                        calls.push(format!("{status:?} {call:?}"));
                    }
                    next = machine.resume(host.perform(call));
                }
                Next::Done(result) => {
                    assert!(result.is_ok());
                    return calls;
                }
            }
        }
    };
    let done = calls(bare);
    assert_eq!(done, calls(spelled));
    assert!(done.last().unwrap().contains("SshConnect"));
}

#[test]
fn the_output_mode_is_handed_on() {
    assert_eq!(OutputMode::from_flags(false, false), OutputMode::Human);
    assert_eq!(OutputMode::from_flags(false, true), OutputMode::Verbose);
    assert_eq!(OutputMode::from_flags(true, false), OutputMode::Json);
    let mut host = Host::new();
    let commands = vec![
        Command::List { repo: None },
        Command::Status { name: Some(s("mine")) },
        Command::Doctor,
        Command::Config { edit: false },
    ];
    for command in commands {
        let line = Cli { command: Some(command), branch: None, json: true, verbose: false };
        assert!(matches!(host.run(line), Ok(Report::Nothing)));
        assert!(host.log.last().unwrap().contains("mode: Json"));
    }
    let line = Cli { command: Some(Command::Doctor), branch: None, json: false, verbose: true };
    assert!(host.run(line).is_ok());
    assert_eq!(host.log.last().unwrap(), "Doctor { mode: Verbose }");
}

#[test]
fn the_proxy_gets_the_settings() {
    let here = here();
    match dispatch(cli(Some(Command::Proxy { action: Some(ProxyAction::Status) })), &here) {
        Next::Ask { call: Call::Subcommand(Subcommand::Proxy { action, config }), .. } => {
            assert!(matches!(action, Some(ProxyAction::Status)));
            assert_eq!(format!("{config:?}"), format!("{:?}", test_config()));
        }
        _ => panic!("no proxy"),
    }
}

#[test]
fn settings_are_copied_whole() {
    let mut config = test_config();
    config.share_claude_dirs = vec![s("rules"), s("agents")];
    config.worktree_dir = Some(s("/w"));
    assert_eq!(format!("{:?}", config.duplicate()), format!("{config:?}"));
}

#[test]
fn a_command_is_begun_or_refused() {
    match start(cli(None), &Readiness::TartMissing) {
        Start::Refused(lines) => assert_eq!(lines, tart_missing_lines()),
        Start::Begun(_) => panic!("begun without tart"),
    }
    let ready = Readiness::Ready(here());
    assert!(matches!(
        start(cli(Some(Command::Mcp)), &ready),
        Start::Begun(Next::Ask { call: Call::Subcommand(Subcommand::Mcp), .. })
    ));
}

#[test]
fn a_machine_that_is_not_named_is_that_of_the_branch() {
    let mut host = Host::new();
    host.answer = Ok("y\n");
    let text = host.success(Command::Destroy { name: None, force: false });
    assert_eq!(text, "Destroyed tachikoma-app-feat-a");
    assert_eq!(
        host.log,
        vec![
            "Destroy VM 'tachikoma-app-feat-a'? This cannot be undone. [y/N] ",
            "Destroy { vm_name: \"tachikoma-app-feat-a\" }",
        ]
    );
}
