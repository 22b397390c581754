//! The program as a whole: what it does before any command, and which command does what.

pub mod dispatch;
pub mod naming;
pub mod report;

use vstd::pervasive::unreached;
use vstd::prelude::*;
use vstd::string::StringExecFns;

use crate::cli::{command_needs_tart, needs_tart, Command};
use crate::config::Config;
use crate::effect::{goes_on_at, is_run, Call, Kind, Machine, Next, Reply};
use crate::error::TachikomaError;
use crate::text::{push_text, texts};

verus! {

/// Where a command is run, and with which settings.
#[derive(Debug)]
pub struct Surroundings {
    pub cwd: String,
    /// The root of the repository that the directory is in, if it is in one.
    pub repo_root: Option<String>,
    pub config: Config,
}

/// What comes of the preparation of a command.
#[derive(Debug)]
pub enum Readiness {
    Ready(Surroundings),
    /// The command needs `tart`, and it is not installed.
    TartMissing,
}

/// What a user is told who has no `tart`.
pub open spec fn tart_missing_text() -> Seq<Seq<char>> {
    seq![
        "error: tart is not installed. Install it with:"@,
        "  brew install cirruslabs/cli/tart"@,
        ""@,
        "Run 'tachikoma doctor' for a full system check."@,
    ]
}

/// What a user is told who has no `tart`, line by line.
pub fn tart_missing_lines() -> (lines: Vec<String>)
    ensures
        texts(lines@) == tart_missing_text(),
{
    let mut lines: Vec<String> = Vec::new();
    assert(texts(lines@) =~= seq![]);
    push_text(&mut lines, "error: tart is not installed. Install it with:".to_string());
    push_text(&mut lines, "  brew install cirruslabs/cli/tart".to_string());
    push_text(&mut lines, "".to_string());
    push_text(&mut lines, "Run 'tachikoma doctor' for a full system check.".to_string());
    assert(texts(lines@) =~= tart_missing_text());
    lines
}

/// The preparation of a command.
pub enum Setup {
    /// Waits to see whether `tart` can be run.
    Tart,
    /// Waits for the current directory.
    Cwd,
    /// Waits for the repository.
    Root { cwd: String },
    /// Waits for the settings.
    Settings { cwd: String, repo_root: Option<String> },
}

impl Machine for Setup {
    type Output = Readiness;

    open spec fn awaits(&self) -> Kind {
        match self {
            Setup::Tart => Kind::Truth,
            Setup::Cwd => Kind::OsText,
            Setup::Root { .. } => Kind::Text,
            Setup::Settings { .. } => Kind::Settings,
        }
    }

    open spec fn transition(self, reply: Reply, next: Next<Self, Readiness>) -> bool {
        match self {
            Setup::Tart => if reply->Truth_0 {
                next == (Next::<Self, Readiness>::Ask {
                    status: None,
                    call: Call::CurrentDir,
                    machine: Setup::Cwd,
                })
            } else {
                next == Next::<Self, Readiness>::Done(Ok(Readiness::TartMissing))
            },
            Setup::Cwd => match reply->OsText_0 {
                Ok(cwd) => next == (Next::<Self, Readiness>::Ask {
                    status: None,
                    call: Call::GitFindRepoRoot { cwd },
                    machine: Setup::Root { cwd },
                }),
                Err(e) => next matches Next::Done(Err(TachikomaError::Other(m))) && m@
                    == "Failed to get current directory: "@ + e@,
            },
            Setup::Root { cwd } => {
                let repo_root = match reply->Text_0 {
                    Ok(root) => Some(root),
                    Err(_) => None,
                };
                next == (Next::<Self, Readiness>::Ask {
                    status: None,
                    call: Call::LoadConfig { repo_root },
                    machine: Setup::Settings { cwd, repo_root },
                })
            },
            Setup::Settings { cwd, repo_root } => match reply->Settings_0 {
                Ok(config) => next == Next::<Self, Readiness>::Done(
                    Ok(Readiness::Ready(Surroundings { cwd, repo_root, config })),
                ),
                Err(e) => next == Next::<Self, Readiness>::Done(Err(e)),
            },
        }
    }

    fn resume(self, reply: Reply) -> (next: Next<Self, Readiness>) {
        match (self, reply) {
            (Setup::Tart, Reply::Truth(available)) => {
                if available {
                    Next::Ask { status: None, call: Call::CurrentDir, machine: Setup::Cwd }
                } else {
                    Next::Done(Ok(Readiness::TartMissing))
                }
            },
            (Setup::Cwd, Reply::OsText(cwd)) => match cwd {
                Ok(cwd) => Next::Ask {
                    status: None,
                    call: Call::GitFindRepoRoot { cwd: cwd.clone() },
                    machine: Setup::Root { cwd },
                },
                Err(e) => {
                    let mut m = "Failed to get current directory: ".to_string();
                    m.append(e.as_str());
                    Next::Done(Err(TachikomaError::Other(m)))
                },
            },
            (Setup::Root { cwd }, Reply::Text(root)) => {
                let repo_root = match root {
                    Ok(root) => Some(root),
                    Err(_) => None,
                };
                Next::Ask {
                    status: None,
                    call: Call::LoadConfig { repo_root: repo_root.clone() },
                    machine: Setup::Settings { cwd, repo_root },
                }
            },
            (Setup::Settings { cwd, repo_root }, Reply::Settings(config)) => match config {
                Ok(config) => Next::Done(
                    Ok(Readiness::Ready(Surroundings { cwd, repo_root, config })),
                ),
                Err(e) => Next::Done(Err(e)),
            },
            _ => unreached(),
        }
    }
}

/// The beginning of the preparation of a command.
pub open spec fn setup_begins(command: Option<Command>) -> Next<Setup, Readiness> {
    if needs_tart(command) {
        Next::Ask { status: None, call: Call::TartAvailable, machine: Setup::Tart }
    } else {
        Next::Ask { status: None, call: Call::CurrentDir, machine: Setup::Cwd }
    }
}

/// Starts to prepare a command.
pub fn setup(command: &Option<Command>) -> (next: Next<Setup, Readiness>)
    ensures
        next == setup_begins(*command),
{
    if command_needs_tart(command) {
        Next::Ask { status: None, call: Call::TartAvailable, machine: Setup::Tart }
    } else {
        Next::Ask { status: None, call: Call::CurrentDir, machine: Setup::Cwd }
    }
}

/// A command that needs `tart` does nothing without it: that it is missing is the only thing found
/// out, and the only thing told.
pub proof fn law_nothing_is_done_without_tart(
    command: Option<Command>,
    replies: Seq<Reply>,
    trail: Seq<Next<Setup, Readiness>>,
)
    requires
        needs_tart(command),
        is_run(setup_begins(command), replies, trail),
        replies.len() > 0,
        replies[0] == Reply::Truth(false),
    ensures
        replies.len() == 1,
        trail[0]->call == Call::TartAvailable,
        trail[1] == Next::<Setup, Readiness>::Done(Ok(Readiness::TartMissing)),
{
    assert(goes_on_at(replies, trail, 0));
    if replies.len() > 1 {
        assert(goes_on_at(replies, trail, 1));
    }
}

/// A command that needs `tart` is begun only after `tart` was found: a preparation that ends in
/// readiness began with the question for it, and the answer was yes.
pub proof fn law_commands_wait_for_tart(
    command: Option<Command>,
    replies: Seq<Reply>,
    trail: Seq<Next<Setup, Readiness>>,
    here: Surroundings,
)
    requires
        needs_tart(command),
        is_run(setup_begins(command), replies, trail),
        trail.last() == Next::<Setup, Readiness>::Done(Ok(Readiness::Ready(here))),
    ensures
        replies.len() > 0,
        trail[0]->call == Call::TartAvailable,
        replies[0] == Reply::Truth(true),
{
    assert(trail[replies.len() as int] == trail.last());
    if replies.len() > 0 {
        assert(goes_on_at(replies, trail, 0));
        if replies[0] == Reply::Truth(false) {
            law_nothing_is_done_without_tart(command, replies, trail);
        }
    }
}

/// A command that does not need `tart` does not look for it, and is not refused for want of it.
pub proof fn law_some_commands_do_without_tart(
    command: Option<Command>,
    replies: Seq<Reply>,
    trail: Seq<Next<Setup, Readiness>>,
    i: int,
)
    requires
        !needs_tart(command),
        is_run(setup_begins(command), replies, trail),
        0 <= i <= replies.len(),
    ensures
        trail[i] is Ask ==> !(trail[i]->call is TartAvailable) && !(trail[i]->machine is Tart),
        trail[i] != Next::<Setup, Readiness>::Done(Ok(Readiness::TartMissing)),
    decreases i,
{
    if i > 0 {
        law_some_commands_do_without_tart(command, replies, trail, i - 1);
        assert(goes_on_at(replies, trail, i - 1));
    }
}

/// A directory outside of any repository is no hindrance: the settings are loaded all the same.
pub proof fn law_a_repository_is_not_needed(cwd: String, reply: Reply, next: Next<Setup, Readiness>)
    requires
        reply.kind() == Kind::Text,
        (Setup::Root { cwd }).transition(reply, next),
    ensures
        next is Ask,
        reply matches Reply::Text(Err(_)) ==> next->call == (Call::LoadConfig { repo_root: None }),
{
}

} // verus!
