//! Driving `tart`: the command line of each operation, and how its outcome is read.

pub mod types;

use vstd::prelude::*;
use vstd::string::StringExecFns;

use crate::effect::{IpAddr, Kind, Reply};
use crate::error::TachikomaError;
use crate::text::{decimal, decimal_text, push_text, text_of_bytes, texts, trim, trimmed, utf8_lossy};
use types::{DirMount, ExecOutput, RunOpts, TartVmInfo};

verus! {

/// One operation of `tart`.
#[derive(Debug)]
pub enum TartCommand {
    List,
    Clone { source: String, name: String },
    Run { name: String, opts: RunOpts },
    Stop { name: String },
    Suspend { name: String },
    Delete { name: String },
    Ip { name: String },
    IpWait { name: String, wait_secs: u64 },
    IpWaitArp { name: String, wait_secs: u64 },
    Exec { name: String, cmd: Vec<String> },
}

impl TartCommand {
    /// The kind of reply that the operation gets.
    pub open spec fn spec_kind(&self) -> Kind {
        match self {
            TartCommand::List => Kind::Vms,
            TartCommand::Ip { .. } => Kind::Ip,
            TartCommand::IpWait { .. } => Kind::Ip,
            TartCommand::IpWaitArp { .. } => Kind::Ip,
            TartCommand::Exec { .. } => Kind::Exec,
            _ => Kind::Unit,
        }
    }

    /// The kind of reply that the operation gets.
    #[verifier::when_used_as_spec(spec_kind)]
    pub fn kind(&self) -> (kind: Kind)
        ensures
            kind == self.spec_kind(),
    {
        match self {
            TartCommand::List => Kind::Vms,
            TartCommand::Ip { .. } => Kind::Ip,
            TartCommand::IpWait { .. } => Kind::Ip,
            TartCommand::IpWaitArp { .. } => Kind::Ip,
            TartCommand::Exec { .. } => Kind::Exec,
            _ => Kind::Unit,
        }
    }

    /// The word behind `tart` that names the operation.
    pub open spec fn verb_text(&self) -> Seq<char> {
        match self {
            TartCommand::List => "list"@,
            TartCommand::Clone { .. } => "clone"@,
            TartCommand::Run { .. } => "run"@,
            TartCommand::Stop { .. } => "stop"@,
            TartCommand::Suspend { .. } => "suspend"@,
            TartCommand::Delete { .. } => "delete"@,
            TartCommand::Ip { .. } => "ip"@,
            TartCommand::IpWait { .. } => "ip"@,
            TartCommand::IpWaitArp { .. } => "ip"@,
            TartCommand::Exec { .. } => "exec"@,
        }
    }

    fn verb(&self) -> (word: &'static str)
        ensures
            word@ == self.verb_text(),
    {
        match self {
            TartCommand::List => "list",
            TartCommand::Clone { .. } => "clone",
            TartCommand::Run { .. } => "run",
            TartCommand::Stop { .. } => "stop",
            TartCommand::Suspend { .. } => "suspend",
            TartCommand::Delete { .. } => "delete",
            TartCommand::Ip { .. } => "ip",
            TartCommand::IpWait { .. } => "ip",
            TartCommand::IpWaitArp { .. } => "ip",
            TartCommand::Exec { .. } => "exec",
        }
    }

    /// The arguments behind the verb.
    pub open spec fn operands(&self) -> Seq<Seq<char>> {
        match self {
            TartCommand::List => seq!["--format"@, "json"@],
            TartCommand::Clone { source, name } => seq![source@, name@],
            TartCommand::Run { name, opts } => run_options(*opts).push(name@),
            TartCommand::Stop { name } => seq![name@],
            TartCommand::Suspend { name } => seq![name@],
            TartCommand::Delete { name } => seq![name@],
            TartCommand::Ip { name } => seq![name@],
            TartCommand::IpWait { name, wait_secs } => seq![
                "--wait"@,
                decimal(*wait_secs as nat),
                name@,
            ],
            TartCommand::IpWaitArp { name, wait_secs } => seq![
                "--wait"@,
                decimal(*wait_secs as nat),
                "--resolver"@,
                "arp"@,
                name@,
            ],
            TartCommand::Exec { name, cmd } => seq![name@] + texts(cmd@),
        }
    }

    /// The arguments of the `tart` invocation.
    pub open spec fn arguments(&self) -> Seq<Seq<char>> {
        seq![self.verb_text()] + self.operands()
    }
}

/// One `--dir` option for each directory, in order.
pub open spec fn dir_options(dirs: Seq<DirMount>) -> Seq<Seq<char>>
    decreases dirs.len(),
{
    if dirs.len() == 0 {
        Seq::empty()
    } else {
        dir_options(dirs.drop_last()).push("--dir"@).push(dirs.last().tart_arg())
    }
}

/// The options of `tart run`.
pub open spec fn run_options(opts: RunOpts) -> Seq<Seq<char>> {
    (if opts.no_graphics {
        seq!["--no-graphics"@]
    } else {
        Seq::empty()
    }) + dir_options(opts.dirs@) + (if opts.rosetta {
        seq!["--rosetta"@]
    } else {
        Seq::empty()
    })
}

/// What a process left behind.
#[derive(Debug)]
pub struct ProcessOutput {
    /// Whether it reported success.
    pub success: bool,
    /// The code that it exited with, unless a signal ended it.
    pub code: Option<i32>,
    pub stdout: Vec<u8>,
    pub stderr: Vec<u8>,
}

/// How far the outcome of an operation has been read.
#[derive(Debug)]
pub enum TartOutcome {
    /// The reply is known.
    Replied(Reply),
    /// The reply is in this JSON text.
    VmsIn(Vec<u8>),
    /// The reply is the address that this text spells, if it spells one.
    IpIn(String),
}

/// Why an operation failed whose process could not be started, or did not succeed.
pub open spec fn failure_text(command: TartCommand, output: Result<ProcessOutput, String>) -> Seq<
    char,
> {
    match output {
        Err(e) => if command is Run {
            "Failed to spawn tart run: "@ + e@
        } else {
            "Failed to run tart "@ + command.verb_text() + ": "@ + e@
        },
        Ok(out) => "tart "@ + command.verb_text() + " failed: "@ + utf8_lossy(out.stderr@),
    }
}

/// Whether the error tells that the operation failed, and why.
pub open spec fn tart_failure(
    error: TachikomaError,
    command: TartCommand,
    output: Result<ProcessOutput, String>,
) -> bool {
    error matches TachikomaError::Tart(m) && m@ == failure_text(command, output)
}

/// Whether `outcome` is the right reading of what the process left behind.
pub open spec fn outcome_of(
    command: TartCommand,
    output: Result<ProcessOutput, String>,
    outcome: TartOutcome,
) -> bool {
    match command {
        TartCommand::List => match output {
            Ok(out) if out.success => outcome == TartOutcome::VmsIn(out.stdout),
            _ => outcome matches TartOutcome::Replied(Reply::Vms(Err(e))) && tart_failure(
                e,
                command,
                output,
            ),
        },
        TartCommand::Exec { .. } => match output {
            Ok(out) => outcome matches TartOutcome::Replied(Reply::Exec(Ok(left))) && {
                &&& left.stdout@ == utf8_lossy(out.stdout@)
                &&& left.stderr@ == utf8_lossy(out.stderr@)
                &&& left.exit_code == match out.code {
                    Some(code) => code,
                    None => -1i32,
                }
            },
            Err(_) => outcome matches TartOutcome::Replied(Reply::Exec(Err(e))) && tart_failure(
                e,
                command,
                output,
            ),
        },
        // A detached process leaves nothing to look at once it runs.
        TartCommand::Run { .. } => match output {
            Ok(_) => outcome == TartOutcome::Replied(Reply::Unit(Ok(()))),
            Err(_) => outcome matches TartOutcome::Replied(Reply::Unit(Err(e))) && tart_failure(
                e,
                command,
                output,
            ),
        },
        TartCommand::Ip { .. }
        | TartCommand::IpWait { .. }
        | TartCommand::IpWaitArp { .. } => match output {
            Ok(out) => if out.success {
                outcome matches TartOutcome::IpIn(text) && text@ == trimmed(utf8_lossy(out.stdout@))
            } else {
                outcome == TartOutcome::Replied(Reply::Ip(Ok(None)))
            },
            Err(_) => outcome matches TartOutcome::Replied(Reply::Ip(Err(e))) && tart_failure(
                e,
                command,
                output,
            ),
        },
        _ => match output {
            Ok(out) if out.success => outcome == TartOutcome::Replied(Reply::Unit(Ok(()))),
            _ => outcome matches TartOutcome::Replied(Reply::Unit(Err(e))) && tart_failure(
                e,
                command,
                output,
            ),
        },
    }
}

fn failure(command: &TartCommand, output: &Result<ProcessOutput, String>) -> (error: TachikomaError)
    ensures
        tart_failure(error, *command, *output),
{
    match output {
        Err(e) => {
            if let TartCommand::Run { .. } = command {
                let mut m = "Failed to spawn tart run: ".to_string();
                m.append(e.as_str());
                TachikomaError::Tart(m)
            } else {
                let mut m = "Failed to run tart ".to_string();
                m.append(command.verb());
                m.append(": ");
                m.append(e.as_str());
                TachikomaError::Tart(m)
            }
        },
        Ok(out) => {
            let mut m = "tart ".to_string();
            m.append(command.verb());
            m.append(" failed: ");
            m.append(text_of_bytes(out.stderr.as_slice()).as_str());
            TachikomaError::Tart(m)
        },
    }
}

/// Works `tart` through its command line.
#[derive(Debug, Clone, Copy)]
pub struct RealTartRunner;

impl Default for RealTartRunner {
    fn default() -> (runner: RealTartRunner)
        ensures
            runner == RealTartRunner,
    {
        RealTartRunner
    }
}

impl RealTartRunner {
    /// A runner. Any two are alike.
    pub fn new() -> (runner: RealTartRunner)
        ensures
            runner == RealTartRunner,
    {
        RealTartRunner
    }

    /// The arguments to run `tart` with.
    pub fn args(&self, command: &TartCommand) -> (args: Vec<String>)
        ensures
            texts(args@) == command.arguments(),
    {
        let mut args: Vec<String> = Vec::new();
        assert(texts(args@) =~= Seq::empty());
        push_text(&mut args, command.verb().to_string());
        match command {
            TartCommand::List => {
                push_text(&mut args, "--format".to_string());
                push_text(&mut args, "json".to_string());
            },
            TartCommand::Clone { source, name } => {
                push_text(&mut args, source.clone());
                push_text(&mut args, name.clone());
            },
            TartCommand::Run { name, opts } => {
                push_run_options(&mut args, opts);
                push_text(&mut args, name.clone());
            },
            TartCommand::Stop { name } => {
                push_text(&mut args, name.clone());
            },
            TartCommand::Suspend { name } => {
                push_text(&mut args, name.clone());
            },
            TartCommand::Delete { name } => {
                push_text(&mut args, name.clone());
            },
            TartCommand::Ip { name } => {
                push_text(&mut args, name.clone());
            },
            TartCommand::IpWait { name, wait_secs } => {
                push_text(&mut args, "--wait".to_string());
                push_text(&mut args, decimal_text(*wait_secs));
                push_text(&mut args, name.clone());
            },
            TartCommand::IpWaitArp { name, wait_secs } => {
                push_text(&mut args, "--wait".to_string());
                push_text(&mut args, decimal_text(*wait_secs));
                push_text(&mut args, "--resolver".to_string());
                push_text(&mut args, "arp".to_string());
                push_text(&mut args, name.clone());
            },
            TartCommand::Exec { name, cmd } => {
                push_text(&mut args, name.clone());
                let ghost start = texts(args@);
                let mut i: usize = 0;
                assert(texts(cmd@).take(0) =~= Seq::empty());
                while i < cmd.len()
                    invariant
                        i <= cmd.len(),
                        texts(args@) =~= start + texts(cmd@).take(i as int),
                    decreases cmd.len() - i,
                {
                    push_text(&mut args, cmd[i].clone());
                    i += 1;
                }
                assert(texts(cmd@).take(cmd@.len() as int) =~= texts(cmd@));
            },
        }
        assert(texts(args@) =~= command.arguments());
        args
    }

    /// Reads the outcome of an operation off its process, or off the error that kept the process
    /// from starting.
    pub fn outcome(&self, command: &TartCommand, output: Result<ProcessOutput, String>) -> (outcome:
        TartOutcome)
        ensures
            outcome_of(*command, output, outcome),
    {
        match command {
            TartCommand::List => match output {
                Ok(out) if out.success => TartOutcome::VmsIn(out.stdout),
                _ => TartOutcome::Replied(Reply::Vms(Err(failure(command, &output)))),
            },
            TartCommand::Exec { .. } => match output {
                Ok(out) => TartOutcome::Replied(
                    Reply::Exec(
                        Ok(
                            ExecOutput {
                                stdout: text_of_bytes(out.stdout.as_slice()),
                                stderr: text_of_bytes(out.stderr.as_slice()),
                                exit_code: match out.code {
                                    Some(code) => code,
                                    None => -1,
                                },
                            },
                        ),
                    ),
                ),
                Err(_) => TartOutcome::Replied(Reply::Exec(Err(failure(command, &output)))),
            },
            TartCommand::Run { .. } => match output {
                Ok(_) => TartOutcome::Replied(Reply::Unit(Ok(()))),
                Err(_) => TartOutcome::Replied(Reply::Unit(Err(failure(command, &output)))),
            },
            TartCommand::Ip { .. }
            | TartCommand::IpWait { .. }
            | TartCommand::IpWaitArp { .. } => match output {
                Ok(out) => {
                    if out.success {
                        let text = text_of_bytes(out.stdout.as_slice());
                        TartOutcome::IpIn(trim(text.as_str()).to_string())
                    } else {
                        TartOutcome::Replied(Reply::Ip(Ok(None)))
                    }
                },
                Err(_) => TartOutcome::Replied(Reply::Ip(Err(failure(command, &output)))),
            },
            _ => match output {
                Ok(out) if out.success => TartOutcome::Replied(Reply::Unit(Ok(()))),
                _ => TartOutcome::Replied(Reply::Unit(Err(failure(command, &output)))),
            },
        }
    }

    /// The reply to a listing, once its JSON text has been parsed.
    pub fn vms_reply(&self, parsed: Result<Vec<TartVmInfo>, String>) -> (reply: Reply)
        ensures
            match parsed {
                Ok(vms) => reply == Reply::Vms(Ok(vms)),
                Err(e) => reply matches Reply::Vms(Err(TachikomaError::Tart(m))) && m@
                    == "Failed to parse tart list output: "@ + e@,
            },
    {
        match parsed {
            Ok(vms) => Reply::Vms(Ok(vms)),
            Err(e) => {
                let mut m = "Failed to parse tart list output: ".to_string();
                m.append(e.as_str());
                Reply::Vms(Err(TachikomaError::Tart(m)))
            },
        }
    }

    /// The reply to a query for an address, once its text has been parsed. A text that spells no
    /// address counts as none.
    pub fn ip_reply(&self, parsed: Option<IpAddr>) -> (reply: Reply)
        ensures
            reply == Reply::Ip(Ok(parsed)),
    {
        Reply::Ip(Ok(parsed))
    }
}

fn push_run_options(args: &mut Vec<String>, opts: &RunOpts)
    ensures
        texts(final(args)@) == texts(old(args)@) + run_options(*opts),
{
    if opts.no_graphics {
        push_text(args, "--no-graphics".to_string());
    }
    let ghost start = texts(args@);
    let mut i: usize = 0;
    assert(opts.dirs@.take(0) =~= Seq::empty());
    while i < opts.dirs.len()
        invariant
            i <= opts.dirs.len(),
            texts(args@) =~= start + dir_options(opts.dirs@.take(i as int)),
        decreases opts.dirs.len() - i,
    {
        push_text(args, "--dir".to_string());
        push_text(args, opts.dirs[i].to_tart_arg());
        assert(opts.dirs@.take(i + 1).drop_last() =~= opts.dirs@.take(i as int));
        i += 1;
    }
    assert(opts.dirs@.take(opts.dirs@.len() as int) =~= opts.dirs@);
    if opts.rosetta {
        push_text(args, "--rosetta".to_string());
    }
    assert(texts(args@) =~= texts(old(args)@) + run_options(*opts));
}

} // verus!
