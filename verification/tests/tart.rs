use tachikoma::effect::{IpAddr, Kind, Reply};
use tachikoma::error::TachikomaError;
use tachikoma::tart::types::{DirMount, RunOpts, TartVmInfo, TartVmState};
use tachikoma::tart::{ProcessOutput, RealTartRunner, TartCommand, TartOutcome};

fn s(text: &str) -> String {
    text.to_string()
}

fn ran(success: bool, code: Option<i32>, stdout: &[u8], stderr: &[u8]) -> Result<ProcessOutput, String> {
    Ok(ProcessOutput { success, code, stdout: stdout.to_vec(), stderr: stderr.to_vec() })
}

fn vm(name: &str, state: &str) -> TartVmInfo {
    TartVmInfo {
        name: s(name),
        state: s(state),
        disk: 50,
        size: 31,
        source: s("local"),
        running: state == "running",
        accessed: None,
    }
}

fn error_of(outcome: TartOutcome) -> String {
    match outcome {
        TartOutcome::Replied(Reply::Vms(Err(TachikomaError::Tart(m))))
        | TartOutcome::Replied(Reply::Unit(Err(TachikomaError::Tart(m))))
        | TartOutcome::Replied(Reply::Ip(Err(TachikomaError::Tart(m))))
        | TartOutcome::Replied(Reply::Exec(Err(TachikomaError::Tart(m)))) => m,
        other => panic!("no failure of tart: {other:?}"),
    }
}

#[test]
fn runners_are_alike() {
    let _ = RealTartRunner::new();
    let _ = RealTartRunner::default();
}

#[test]
fn command_lines() {
    let runner = RealTartRunner::new();
    let args = |command: TartCommand| runner.args(&command);
    assert_eq!(args(TartCommand::List), vec!["list", "--format", "json"]);
    assert_eq!(
        args(TartCommand::Clone { source: s("base"), name: s("vm") }),
        vec!["clone", "base", "vm"]
    );
    assert_eq!(args(TartCommand::Stop { name: s("vm") }), vec!["stop", "vm"]);
    assert_eq!(args(TartCommand::Suspend { name: s("vm") }), vec!["suspend", "vm"]);
    assert_eq!(args(TartCommand::Delete { name: s("vm") }), vec!["delete", "vm"]);
    assert_eq!(args(TartCommand::Ip { name: s("vm") }), vec!["ip", "vm"]);
    assert_eq!(
        args(TartCommand::IpWait { name: s("vm"), wait_secs: 10 }),
        vec!["ip", "--wait", "10", "vm"]
    );
    assert_eq!(
        args(TartCommand::IpWaitArp { name: s("vm"), wait_secs: 7 }),
        vec!["ip", "--wait", "7", "--resolver", "arp", "vm"]
    );
    assert_eq!(
        args(TartCommand::Exec { name: s("vm"), cmd: vec![s("bash"), s("-c"), s("ls /")] }),
        vec!["exec", "vm", "bash", "-c", "ls /"]
    );
}

#[test]
fn run_options_come_before_the_name() {
    let runner = RealTartRunner::new();
    let opts = RunOpts {
        no_graphics: true,
        dirs: vec![
            DirMount { name: Some(s("code")), host_path: s("/wt"), read_only: false },
            DirMount { name: None, host_path: s("/x"), read_only: true },
        ],
        rosetta: true,
    };
    assert_eq!(
        runner.args(&TartCommand::Run { name: s("vm"), opts }),
        vec!["run", "--no-graphics", "--dir", "code:/wt", "--dir", "/x:ro", "--rosetta", "vm"]
    );
    let bare = RunOpts { no_graphics: false, dirs: vec![], rosetta: false };
    assert_eq!(runner.args(&TartCommand::Run { name: s("vm"), opts: bare }), vec!["run", "vm"]);
}

#[test]
fn a_listing_is_handed_on_to_be_parsed() {
    let runner = RealTartRunner::new();
    let outcome = runner.outcome(&TartCommand::List, ran(true, Some(0), b"[]", b""));
    assert!(matches!(outcome, TartOutcome::VmsIn(ref json) if json == b"[]"));
    let reply = runner.vms_reply(Err(s("eof")));
    assert!(matches!(
        reply,
        Reply::Vms(Err(TachikomaError::Tart(ref m))) if m == "Failed to parse tart list output: eof"
    ));
    let reply = runner.vms_reply(Ok(vec![vm("a", "running")]));
    assert!(matches!(reply, Reply::Vms(Ok(ref vms)) if vms.len() == 1 && vms[0].name == "a"));
}

#[test]
fn failures_tell_why() {
    let runner = RealTartRunner::new();
    let stop = TartCommand::Stop { name: s("vm") };
    assert_eq!(
        error_of(runner.outcome(&stop, Err(s("not found")))),
        "Failed to run tart stop: not found"
    );
    assert_eq!(
        error_of(runner.outcome(&stop, ran(false, Some(2), b"", b"no such VM\n"))),
        "tart stop failed: no such VM\n"
    );
    assert_eq!(
        error_of(runner.outcome(&TartCommand::List, ran(false, Some(1), b"", b"broken"))),
        "tart list failed: broken"
    );
    let opts = RunOpts { no_graphics: true, dirs: vec![], rosetta: false };
    assert_eq!(
        error_of(runner.outcome(&TartCommand::Run { name: s("vm"), opts }, Err(s("denied")))),
        "Failed to spawn tart run: denied"
    );
    let wait = TartCommand::IpWait { name: s("vm"), wait_secs: 3 };
    assert_eq!(error_of(runner.outcome(&wait, Err(s("gone")))), "Failed to run tart ip: gone");
    let command = TartCommand::Exec { name: s("vm"), cmd: vec![] };
    assert_eq!(error_of(runner.outcome(&command, Err(s("gone")))), "Failed to run tart exec: gone");
}

#[test]
fn bytes_that_are_no_text_are_replaced() {
    let runner = RealTartRunner::new();
    let delete = TartCommand::Delete { name: s("vm") };
    assert_eq!(
        error_of(runner.outcome(&delete, ran(false, Some(1), b"", b"bad \xff byte"))),
        "tart delete failed: bad \u{fffd} byte"
    );
    assert_eq!(
        error_of(runner.outcome(&delete, ran(false, Some(1), b"", "caf\u{e9}".as_bytes()))),
        "tart delete failed: caf\u{e9}"
    );
}

#[test]
fn addresses_are_trimmed_and_failures_are_none() {
    let runner = RealTartRunner::new();
    let query = TartCommand::Ip { name: s("vm") };
    let outcome = runner.outcome(&query, ran(true, Some(0), b" 192.168.64.10\n", b""));
    assert!(matches!(outcome, TartOutcome::IpIn(ref text) if text == "192.168.64.10"));
    let outcome = runner.outcome(&query, ran(false, Some(1), b"192.168.64.10", b"no ip"));
    assert!(matches!(outcome, TartOutcome::Replied(Reply::Ip(Ok(None)))));
    assert!(matches!(runner.ip_reply(None), Reply::Ip(Ok(None))));
    let ip = IpAddr { text: s("10.0.0.1") };
    assert!(matches!(runner.ip_reply(Some(ip)), Reply::Ip(Ok(Some(ref ip))) if ip.text == "10.0.0.1"));
}

#[test]
fn exec_keeps_output_and_code() {
    let runner = RealTartRunner::new();
    let command = TartCommand::Exec { name: s("vm"), cmd: vec![s("false")] };
    match runner.outcome(&command, ran(false, Some(127), b"out", b"err")) {
        TartOutcome::Replied(Reply::Exec(Ok(output))) => {
            assert_eq!(output.stdout, "out");
            assert_eq!(output.stderr, "err");
            assert_eq!(output.exit_code, 127);
        }
        other => panic!("unexpected: {other:?}"),
    }
    match runner.outcome(&command, ran(false, None, b"", b"")) {
        TartOutcome::Replied(Reply::Exec(Ok(output))) => assert_eq!(output.exit_code, -1),
        other => panic!("unexpected: {other:?}"),
    }
}

#[test]
fn states_by_their_words() {
    assert_eq!(vm("a", "running").state_enum(), TartVmState::Running);
    assert_eq!(vm("a", "suspended").state_enum(), TartVmState::Suspended);
    assert_eq!(vm("a", "stopped").state_enum(), TartVmState::Stopped);
    assert_eq!(vm("a", "paused").state_enum(), TartVmState::Unknown);
}

#[test]
fn the_first_machine_of_a_name_counts() {
    let vms = vec![vm("a", "stopped"), vm("b", "running"), vm("b", "stopped")];
    assert!(tachikoma::tart::types::is_listed(&vms, &s("b")));
    assert!(!tachikoma::tart::types::is_listed(&vms, &s("c")));
    assert_eq!(tachikoma::tart::types::find_state(&vms, &s("b")), Some(TartVmState::Running));
    assert_eq!(tachikoma::tart::types::find_state(&vms, &s("c")), None);
}

#[test]
fn kinds_of_replies() {
    assert_eq!(TartCommand::List.kind(), Kind::Vms);
    assert_eq!(TartCommand::Ip { name: s("vm") }.kind(), Kind::Ip);
    assert_eq!(TartCommand::Exec { name: s("vm"), cmd: vec![] }.kind(), Kind::Exec);
    assert_eq!(TartCommand::Stop { name: s("vm") }.kind(), Kind::Unit);
}
