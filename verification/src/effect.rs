//! How the program deals with the world.
//!
//! Every procedure of the program is a machine that computes and decides, but changes nothing. It
//! asks for one call at a time, and goes on when it gets the reply. Whoever drives it performs the
//! calls. All that a machine reads off the host by itself, without a call, are the user's home
//! directory and the time of day; a spawn does so, through `system`.

use vstd::prelude::*;

use crate::cli::output::OutputMode;
use crate::cli::{ProxyAction, Shell, SshAction};
use crate::config::Config;
use crate::error::TachikomaError;
use crate::state::State;
use crate::tart::types::{ExecOutput, TartVmInfo};
use crate::tart::TartCommand;
use crate::worktree::WorktreeInfo;

verus! {

/// The address of a host, in the text form that the standard library gives to it.
#[derive(Debug)]
pub struct IpAddr {
    pub text: String,
}

impl IpAddr {
    /// The same address once more.
    pub fn duplicate(&self) -> (ip: IpAddr)
        ensures
            ip == *self,
    {
        IpAddr { text: self.text.clone() }
    }
}

/// What pruning did, or would do.
#[derive(Debug)]
pub struct PruneResult {
    pub pruned: Vec<String>,
    pub dry_run: bool,
}

/// A subcommand that is carried out as a whole.
#[derive(Debug)]
#[allow(inconsistent_fields)]
pub enum Subcommand {
    Enter { vm_name: String, ssh_user: String },
    Halt { vm_name: String },
    Suspend { vm_name: String },
    Destroy { vm_name: String },
    List { repo: Option<String>, mode: OutputMode },
    Status { vm_name: String, mode: OutputMode },
    Doctor { mode: OutputMode },
    ShowConfig { edit: bool, repo_root: Option<String>, mode: OutputMode },
    SshConfig { action: SshAction, ssh_user: String },
    Completions { shell: Shell },
    Mcp,
    Proxy { action: Option<ProxyAction>, config: Config },
}

/// Something to do in the world.
#[derive(Debug)]
#[allow(inconsistent_fields)]
pub enum Call {
    /// Run `tart`.
    Tart(TartCommand),
    /// Try to log in.
    SshCheckConnection { ip: IpAddr, user: String },
    /// Try to reach the SSH port.
    SshCheckPort { ip: IpAddr },
    /// Run a command over SSH.
    SshRunCommand { ip: IpAddr, user: String, command: String },
    /// Hand the terminal over to an SSH session.
    SshConnect { ip: IpAddr, user: String },
    /// Ask git for the branch that a directory is on.
    GitCurrentBranch { cwd: String },
    /// Ask git for the root of the repository that a directory is in.
    GitFindRepoRoot { cwd: String },
    /// Ask git for the worktrees of a repository.
    GitListWorktrees { repo_root: String },
    /// Have git create a worktree.
    GitCreateWorktree { repo_root: String, branch: String, target: String },
    /// Read the remembered machines.
    LoadState,
    /// Write the remembered machines.
    SaveState(State),
    /// Read the address out of an entry of the remembered machines.
    ParseIp(Option<String>),
    /// See which of some paths exist.
    PathsExist(Vec<String>),
    /// Read a clock that never goes back, in nanoseconds.
    Clock,
    /// Sleep for some nanoseconds.
    Sleep(u128),
    /// Multiply a delay in nanoseconds by the backoff factor.
    ScaleDelay(u128),
    /// See whether the credential proxy answers.
    ProxyReachable { bind: String, port: u16 },
    /// Find the path of the running program.
    CurrentExe,
    /// Start a program that outlives this one.
    SpawnDetached { program: String, args: Vec<String> },
    /// Set up a new machine.
    Provision {
        ip: IpAddr,
        vm_name: String,
        branch: String,
        repo_root: String,
        config: Config,
    },
    /// Install the agent in a machine.
    InstallAgent { vm_name: String },
    /// See whether `tart` can be run at all.
    TartAvailable,
    /// Find the directory that the program was started in.
    CurrentDir,
    /// Load the settings.
    LoadConfig { repo_root: Option<String> },
    /// Show a prompt and read a line.
    ReadLine { prompt: String },
    /// Commit a machine's changes and open a pull request.
    OpenPr { vm_name: String },
    /// Prune machines.
    Prune { days: u64, dry_run: bool },
    /// Carry out some other subcommand.
    Subcommand(Subcommand),
}

/// What came of a call.
#[derive(Debug)]
pub enum Reply {
    Vms(Result<Vec<TartVmInfo>, TachikomaError>),
    Unit(Result<(), TachikomaError>),
    Ip(Result<Option<IpAddr>, TachikomaError>),
    Exec(Result<ExecOutput, TachikomaError>),
    Flag(Result<bool, TachikomaError>),
    Text(Result<String, TachikomaError>),
    Worktrees(Result<Vec<WorktreeInfo>, TachikomaError>),
    Loaded(Result<State, TachikomaError>),
    Address(Result<IpAddr, TachikomaError>),
    Settings(Result<Config, TachikomaError>),
    Pruned(Result<PruneResult, TachikomaError>),
    /// For each path whether it exists.
    Presence(Vec<bool>),
    /// What the clock shows.
    Instant(u64),
    Slept,
    /// A scaled delay, in nanoseconds.
    Delay(u128),
    Truth(bool),
    /// A text from the operating system, or the text of its error.
    OsText(Result<String, String>),
    /// Success as the operating system has it, or the text of its error.
    OsUnit(Result<(), String>),
}

/// The kinds of reply.
#[derive(Debug, Clone, Copy, PartialEq, Eq, Structural)]
pub enum Kind {
    Vms,
    Unit,
    Ip,
    Exec,
    Flag,
    Text,
    Worktrees,
    Loaded,
    Address,
    Settings,
    Pruned,
    /// With the number of paths that were asked for.
    Presence(usize),
    Instant,
    Slept,
    Delay,
    Truth,
    OsText,
    OsUnit,
}

impl Call {
    /// The kind of reply that the call gets.
    pub open spec fn spec_kind(&self) -> Kind {
        match self {
            Call::Tart(command) => command.spec_kind(),
            Call::SshCheckConnection { .. } => Kind::Flag,
            Call::SshCheckPort { .. } => Kind::Flag,
            Call::SshRunCommand { .. } => Kind::Text,
            Call::SshConnect { .. } => Kind::Unit,
            Call::GitCurrentBranch { .. } => Kind::Text,
            Call::GitFindRepoRoot { .. } => Kind::Text,
            Call::GitListWorktrees { .. } => Kind::Worktrees,
            Call::GitCreateWorktree { .. } => Kind::Text,
            Call::LoadState => Kind::Loaded,
            Call::SaveState(_) => Kind::Unit,
            Call::ParseIp(_) => Kind::Address,
            Call::PathsExist(paths) => Kind::Presence(paths.len()),
            Call::Clock => Kind::Instant,
            Call::Sleep(_) => Kind::Slept,
            Call::ScaleDelay(_) => Kind::Delay,
            Call::ProxyReachable { .. } => Kind::Truth,
            Call::CurrentExe => Kind::OsText,
            Call::SpawnDetached { .. } => Kind::OsUnit,
            Call::Provision { .. } => Kind::Unit,
            Call::InstallAgent { .. } => Kind::Unit,
            Call::TartAvailable => Kind::Truth,
            Call::CurrentDir => Kind::OsText,
            Call::LoadConfig { .. } => Kind::Settings,
            Call::ReadLine { .. } => Kind::OsText,
            Call::OpenPr { .. } => Kind::Text,
            Call::Prune { .. } => Kind::Pruned,
            Call::Subcommand(_) => Kind::Unit,
        }
    }

    /// The kind of reply that the call gets.
    #[verifier::when_used_as_spec(spec_kind)]
    pub fn kind(&self) -> (kind: Kind)
        ensures
            kind == self.spec_kind(),
    {
        match self {
            Call::Tart(command) => command.kind(),
            Call::SshCheckConnection { .. } => Kind::Flag,
            Call::SshCheckPort { .. } => Kind::Flag,
            Call::SshRunCommand { .. } => Kind::Text,
            Call::SshConnect { .. } => Kind::Unit,
            Call::GitCurrentBranch { .. } => Kind::Text,
            Call::GitFindRepoRoot { .. } => Kind::Text,
            Call::GitListWorktrees { .. } => Kind::Worktrees,
            Call::GitCreateWorktree { .. } => Kind::Text,
            Call::LoadState => Kind::Loaded,
            Call::SaveState(_) => Kind::Unit,
            Call::ParseIp(_) => Kind::Address,
            Call::PathsExist(paths) => Kind::Presence(paths.len()),
            Call::Clock => Kind::Instant,
            Call::Sleep(_) => Kind::Slept,
            Call::ScaleDelay(_) => Kind::Delay,
            Call::ProxyReachable { .. } => Kind::Truth,
            Call::CurrentExe => Kind::OsText,
            Call::SpawnDetached { .. } => Kind::OsUnit,
            Call::Provision { .. } => Kind::Unit,
            Call::InstallAgent { .. } => Kind::Unit,
            Call::TartAvailable => Kind::Truth,
            Call::CurrentDir => Kind::OsText,
            Call::LoadConfig { .. } => Kind::Settings,
            Call::ReadLine { .. } => Kind::OsText,
            Call::OpenPr { .. } => Kind::Text,
            Call::Prune { .. } => Kind::Pruned,
            Call::Subcommand(_) => Kind::Unit,
        }
    }
}

impl Reply {
    /// The reply's kind.
    pub open spec fn spec_kind(&self) -> Kind {
        match self {
            Reply::Vms(_) => Kind::Vms,
            Reply::Unit(_) => Kind::Unit,
            Reply::Ip(_) => Kind::Ip,
            Reply::Exec(_) => Kind::Exec,
            Reply::Flag(_) => Kind::Flag,
            Reply::Text(_) => Kind::Text,
            Reply::Worktrees(_) => Kind::Worktrees,
            Reply::Loaded(_) => Kind::Loaded,
            Reply::Address(_) => Kind::Address,
            Reply::Settings(_) => Kind::Settings,
            Reply::Pruned(_) => Kind::Pruned,
            Reply::Presence(present) => Kind::Presence(present.len()),
            Reply::Instant(_) => Kind::Instant,
            Reply::Slept => Kind::Slept,
            Reply::Delay(_) => Kind::Delay,
            Reply::Truth(_) => Kind::Truth,
            Reply::OsText(_) => Kind::OsText,
            Reply::OsUnit(_) => Kind::OsUnit,
        }
    }

    /// The reply's kind.
    #[verifier::when_used_as_spec(spec_kind)]
    pub fn kind(&self) -> (kind: Kind)
        ensures
            kind == self.spec_kind(),
    {
        match self {
            Reply::Vms(_) => Kind::Vms,
            Reply::Unit(_) => Kind::Unit,
            Reply::Ip(_) => Kind::Ip,
            Reply::Exec(_) => Kind::Exec,
            Reply::Flag(_) => Kind::Flag,
            Reply::Text(_) => Kind::Text,
            Reply::Worktrees(_) => Kind::Worktrees,
            Reply::Loaded(_) => Kind::Loaded,
            Reply::Address(_) => Kind::Address,
            Reply::Settings(_) => Kind::Settings,
            Reply::Pruned(_) => Kind::Pruned,
            Reply::Presence(present) => Kind::Presence(present.len()),
            Reply::Instant(_) => Kind::Instant,
            Reply::Slept => Kind::Slept,
            Reply::Delay(_) => Kind::Delay,
            Reply::Truth(_) => Kind::Truth,
            Reply::OsText(_) => Kind::OsText,
            Reply::OsUnit(_) => Kind::OsUnit,
        }
    }
}

/// How a machine goes on: it asks for a call, or it is done.
pub enum Next<M, T> {
    /// Show the status, if there is one, perform the call, and give its reply to the machine.
    Ask { status: Option<String>, call: Call, machine: M },
    /// The procedure has come to its end.
    Done(Result<T, TachikomaError>),
}

/// Whether a status is shown with the given text.
pub open spec fn shows(status: Option<String>, text: Seq<char>) -> bool {
    status matches Some(shown) && shown@ == text
}

/// A procedure that waits for the reply to a call.
pub trait Machine: Sized {
    /// What the procedure gives in the end.
    type Output;

    /// The kind of reply that the machine waits for.
    spec fn awaits(&self) -> Kind;

    /// Whether the machine may go on with `next` when it gets `reply`.
    spec fn transition(self, reply: Reply, next: Next<Self, Self::Output>) -> bool;

    /// Goes on with the reply. A machine that asks again waits for the kind of reply that its
    /// call gets.
    fn resume(self, reply: Reply) -> (next: Next<Self, Self::Output>)
        requires
            reply.kind() == self.awaits(),
        ensures
            self.transition(reply, next),
            next matches Next::Ask { call, machine, .. } ==> machine.awaits() == call.kind(),
    ;
}

/// Whether a machine that asked may go on with `next` when it gets `reply`.
pub open spec fn goes_on<M: Machine>(
    point: Next<M, M::Output>,
    reply: Reply,
    next: Next<M, M::Output>,
) -> bool {
    &&& point is Ask
    &&& point->machine.awaits() == reply.kind()
    &&& point->machine.transition(reply, next)
}

/// Whether a trail goes on from point `i` with the reply of that number.
pub open spec fn goes_on_at<M: Machine>(
    replies: Seq<Reply>,
    trail: Seq<Next<M, M::Output>>,
    i: int,
) -> bool {
    goes_on(trail[i], replies[i], trail[i + 1])
}

/// Whether `trail` is what a procedure does that begins with `first` and gets `replies`: each
/// point of the trail but the last one asks, and goes on to the next one with its reply.
pub open spec fn is_run<M: Machine>(
    first: Next<M, M::Output>,
    replies: Seq<Reply>,
    trail: Seq<Next<M, M::Output>>,
) -> bool {
    &&& trail.len() == replies.len() + 1
    &&& trail[0] == first
    &&& forall|i: int| 0 <= i < replies.len() ==> #[trigger] goes_on_at(replies, trail, i)
}

} // verus!
