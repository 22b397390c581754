//! What comes before every command, call by call.

use vstd::prelude::*;

use crate::cli::Command;
use crate::effect::{goes_on_at, is_run, Call, Next, Reply};
use crate::error::TachikomaError;
use crate::program::{setup_begins, tart_missing_text, Readiness, Setup};

verus! {

/// Whether a command concerns the host alone.
pub open spec fn is_of_the_host(command: Option<Command>) -> bool {
    ||| command matches Some(Command::Doctor)
    ||| command matches Some(Command::Completions { .. })
    ||| command matches Some(Command::Mcp)
    ||| command matches Some(Command::Config { .. })
    ||| command matches Some(Command::Pr { .. })
    ||| command matches Some(Command::Proxy { .. })
}

/// The call at which the current directory is asked for.
pub open spec fn cwd_call(command: Option<Command>) -> int {
    if is_of_the_host(command) {
        0
    } else {
        1
    }
}

/// Whether a preparation asks for a call, and says nothing.
pub open spec fn asks(next: Next<Setup, Readiness>, call: Call) -> bool {
    next is Ask && next->status is None && next->call == call
}

/// A command that does not concern the host alone begins with the question whether `tart` is there,
/// and is not ready without it. After that the current directory is asked for, the repository that
/// it is in, and the settings: those of the repository, if there is one. A command is ready with
/// what came of the three questions, and with nothing else.
pub proof fn law_commands_are_prepared(
    command: Option<Command>,
    replies: Seq<Reply>,
    trail: Seq<Next<Setup, Readiness>>,
)
    requires
        is_run(setup_begins(command), replies, trail),
    ensures
        !is_of_the_host(command) ==> {
            &&& asks(trail[0], Call::TartAvailable)
            &&& replies.len() > 0 ==> match replies[0] {
                Reply::Truth(true) => asks(trail[1], Call::CurrentDir),
                Reply::Truth(false) => trail[1] == Next::<Setup, Readiness>::Done(
                    Ok(Readiness::TartMissing),
                ),
                _ => false,
            }
        },
        is_of_the_host(command) ==> asks(trail[0], Call::CurrentDir),
        ({
            let c = cwd_call(command);
            &&& replies.len() > c ==> match replies[c] {
                Reply::OsText(Ok(cwd)) => asks(trail[c + 1], Call::GitFindRepoRoot { cwd }),
                Reply::OsText(Err(e)) => trail[c + 1] matches Next::Done(
                    Err(TachikomaError::Other(m)),
                ) && m@ == "Failed to get current directory: "@ + e@,
                _ => false,
            }
            &&& replies.len() > c + 1 ==> match replies[c + 1] {
                Reply::Text(Ok(root)) => asks(
                    trail[c + 2],
                    Call::LoadConfig { repo_root: Some(root) },
                ),
                Reply::Text(Err(_)) => asks(trail[c + 2], Call::LoadConfig { repo_root: None }),
                _ => false,
            }
            &&& replies.len() > c + 2 ==> match replies[c + 2] {
                Reply::Settings(Ok(config)) => {
                    &&& trail[c + 3] matches Next::Done(Ok(Readiness::Ready(here)))
                    &&& replies[c] == Reply::OsText(Ok(here.cwd))
                    &&& match here.repo_root {
                        Some(root) => replies[c + 1] == Reply::Text(Ok(root)),
                        None => replies[c + 1] matches Reply::Text(Err(_)),
                    }
                    &&& here.config == config
                },
                Reply::Settings(Err(e)) => trail[c + 3] == Next::<Setup, Readiness>::Done(Err(e)),
                _ => false,
            }
            &&& replies.len() <= c + 3
        }),
{
    if replies.len() > 0 {
        assert(goes_on_at(replies, trail, 0));
    }
    if replies.len() > 1 {
        assert(goes_on_at(replies, trail, 1));
    }
    if replies.len() > 2 {
        assert(goes_on_at(replies, trail, 2));
    }
    if replies.len() > 3 {
        assert(goes_on_at(replies, trail, 3));
    }
    if replies.len() > 4 {
        assert(goes_on_at(replies, trail, 4));
    }
}

/// A user without `tart` is told how to get it, and where to look further.
pub proof fn law_users_are_told_of_tart()
    ensures
        tart_missing_text().len() == 4,
        tart_missing_text()[0] == "error: tart is not installed. Install it with:"@,
        tart_missing_text()[1] == "  brew install cirruslabs/cli/tart"@,
        tart_missing_text()[2] == ""@,
        tart_missing_text()[3] == "Run 'tachikoma doctor' for a full system check."@,
{
}

} // verus!
