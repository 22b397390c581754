//! What `tart` lists, and what it is told.

use vstd::prelude::*;

use super::text::{law_numbers_come_back_from_their_texts, value};
use crate::effect::{Kind, Reply};
use crate::error::TachikomaError;
use crate::os_path::shown_of;
use crate::tart::types::{listed_state, DirMount, RunOpts, TartVmInfo, TartVmState};
use crate::tart::{dir_options, outcome_of, run_options, ProcessOutput, TartCommand, TartOutcome};
use crate::text::{texts, trimmed, utf8_lossy};

verus! {

/// Whether the first listed machine of the given name is at place `p`, in the state of the given
/// word.
pub open spec fn stands_at(
    vms: Seq<TartVmInfo>,
    name: Seq<char>,
    word: Seq<char>,
    p: int,
) -> bool {
    &&& 0 <= p < vms.len()
    &&& vms[p].name@ == name
    &&& vms[p].state@ == word
    &&& forall|q: int| 0 <= q < p ==> (#[trigger] vms[q]).name@ != name
}

/// Whether the first listed machine of the given name is in the state of the given word.
pub open spec fn stands(vms: Seq<TartVmInfo>, name: Seq<char>, word: Seq<char>) -> bool {
    exists|p: int| stands_at(vms, name, word, p)
}

/// The state of a machine is told by the word at its first place in the list. A machine that is not
/// in the list has none.
pub proof fn law_states_are_told_by_words(vms: Seq<TartVmInfo>, name: Seq<char>)
    ensures
        listed_state(vms, name) == Some(TartVmState::Running) <==> stands(vms, name, "running"@),
        listed_state(vms, name) == Some(TartVmState::Suspended) <==> stands(
            vms,
            name,
            "suspended"@,
        ),
        listed_state(vms, name) == Some(TartVmState::Stopped) <==> stands(vms, name, "stopped"@),
        listed_state(vms, name) is None <==> forall|p: int|
            0 <= p < vms.len() ==> (#[trigger] vms[p]).name@ != name,
    decreases vms.len(),
{
    reveal_strlit("running");
    reveal_strlit("suspended");
    reveal_strlit("stopped");
    assert("running"@.len() == 7 && "stopped"@.len() == 7 && "suspended"@.len() == 9);
    assert("running"@[0] == 'r' && "stopped"@[0] == 's');
    if vms.len() > 0 {
        if vms[0].name@ == name {
            assert(stands_at(vms, name, vms[0].state@, 0));
            assert forall|word: Seq<char>, p: int| #[trigger] stands_at(vms, name, word, p) implies p
                == 0 by {}
        } else {
            let rest = vms.drop_first();
            law_states_are_told_by_words(rest, name);
            assert forall|word: Seq<char>, p: int| #[trigger] stands_at(vms, name, word, p) implies
                stands_at(rest, name, word, p - 1) by {
                assert(forall|q: int| 0 <= q < p - 1 ==> (#[trigger] rest[q]) == vms[q + 1]);
            }
            assert forall|word: Seq<char>, p: int| #[trigger] stands_at(rest, name, word, p) implies
                stands_at(vms, name, word, p + 1) by {
                assert forall|q: int| 0 <= q < p + 1 implies (#[trigger] vms[q]).name@ != name by {
                    if q > 0 {
                        assert(vms[q] == rest[q - 1]);
                    }
                }
            }
            assert(forall|p: int| 0 < p < vms.len() ==> (#[trigger] vms[p]) == rest[p - 1]);
            assert(forall|p: int| 0 <= p < rest.len() ==> (#[trigger] rest[p]) == vms[p + 1]);
        }
    }
}

/// How a directory is told to `tart`: the name and a colon, if it has a name, the path, and `:ro` if
/// it may only be read.
pub open spec fn is_dir_text(mount: DirMount, text: Seq<char>) -> bool {
    let path = shown_of(mount.host_path@);
    match (mount.name, mount.read_only) {
        (Some(name), false) => text == name@ + ":"@ + path,
        (Some(name), true) => text == name@ + ":"@ + path + ":ro"@,
        (None, false) => text == path,
        (None, true) => text == path + ":ro"@,
    }
}

/// Whether the directory of the given number is told to `tart` by two arguments.
pub open spec fn is_told(args: Seq<Seq<char>>, from: int, dirs: Seq<DirMount>, p: int) -> bool {
    args[from + 2 * p] == "--dir"@ && is_dir_text(dirs[p], args[from + 2 * p + 1])
}

/// How many arguments of `tart run` stand before the first directory.
pub open spec fn dirs_from(opts: RunOpts) -> int {
    if opts.no_graphics {
        2
    } else {
        1
    }
}

/// Whether these are the arguments of `tart run`: the options that are set, each directory behind an
/// option of its own, in order, and the machine's name at the end.
pub open spec fn are_run_arguments(name: Seq<char>, opts: RunOpts, args: Seq<Seq<char>>) -> bool {
    let from = dirs_from(opts);
    let to = from + 2 * opts.dirs@.len();
    &&& args[0] == "run"@
    &&& opts.no_graphics ==> args[1] == "--no-graphics"@
    &&& forall|p: int|
        0 <= p < opts.dirs@.len() ==> #[trigger] is_told(args, from, opts.dirs@, p)
    &&& opts.rosetta ==> args[to] == "--rosetta"@
    &&& args.len() == to + if opts.rosetta {
        2int
    } else {
        1int
    }
    &&& args[args.len() - 1] == name
}

/// Whether these are the arguments of an operation of `tart`.
pub open spec fn are_arguments(command: TartCommand, args: Seq<Seq<char>>) -> bool {
    match command {
        TartCommand::List => args =~= seq!["list"@, "--format"@, "json"@],
        TartCommand::Clone { source, name } => args =~= seq!["clone"@, source@, name@],
        TartCommand::Run { name, opts } => are_run_arguments(name@, opts, args),
        TartCommand::Stop { name } => args =~= seq!["stop"@, name@],
        TartCommand::Suspend { name } => args =~= seq!["suspend"@, name@],
        TartCommand::Delete { name } => args =~= seq!["delete"@, name@],
        TartCommand::Ip { name } => args =~= seq!["ip"@, name@],
        TartCommand::IpWait { name, wait_secs } => {
            &&& args.len() == 4
            &&& args[0] == "ip"@
            &&& args[1] == "--wait"@
            &&& value(args[2]) == wait_secs
            &&& args[3] == name@
        },
        TartCommand::IpWaitArp { name, wait_secs } => {
            &&& args.len() == 6
            &&& args[0] == "ip"@
            &&& args[1] == "--wait"@
            &&& value(args[2]) == wait_secs
            &&& args[3] == "--resolver"@
            &&& args[4] == "arp"@
            &&& args[5] == name@
        },
        TartCommand::Exec { name, cmd } => {
            &&& args.len() == cmd@.len() + 2
            &&& args[0] == "exec"@
            &&& args[1] == name@
            &&& forall|p: int| 0 <= p < cmd@.len() ==> args[p + 2] == (#[trigger] cmd@[p])@
        },
    }
}

proof fn lemma_dirs(dirs: Seq<DirMount>)
    ensures
        dir_options(dirs).len() == 2 * dirs.len(),
        forall|p: int| 0 <= p < dirs.len() ==> #[trigger] is_told(dir_options(dirs), 0, dirs, p),
    decreases dirs.len(),
{
    if dirs.len() > 0 {
        let rest = dirs.drop_last();
        lemma_dirs(rest);
        assert forall|p: int| 0 <= p < dirs.len() implies #[trigger] is_told(
            dir_options(dirs),
            0,
            dirs,
            p,
        ) by {
            if p < rest.len() {
                assert(is_told(dir_options(rest), 0, rest, p));
                assert(rest[p] == dirs[p]);
            }
        }
    }
}

/// Every operation of `tart` has the arguments that it should have.
pub proof fn law_arguments_say_what_to_do(command: TartCommand)
    ensures
        are_arguments(command, command.arguments()),
{
    let args = command.arguments();
    match command {
        TartCommand::Run { name, opts } => {
            lemma_dirs(opts.dirs@);
            let from = dirs_from(opts);
            let options = dir_options(opts.dirs@);
            let to = from + options.len();
            assert(opts.no_graphics ==> args[1] == run_options(opts)[0]);
            assert(opts.rosetta ==> args[to] == run_options(opts)[to - 1]);
            assert forall|p: int| 0 <= p < opts.dirs@.len() implies #[trigger] is_told(
                args,
                from,
                opts.dirs@,
                p,
            ) by {
                assert(is_told(options, 0, opts.dirs@, p));
                assert(args[from + 2 * p] == options[2 * p]);
                assert(args[from + 2 * p + 1] == options[2 * p + 1]);
            }
        },
        TartCommand::IpWait { wait_secs, .. } => {
            law_numbers_come_back_from_their_texts(wait_secs as nat);
        },
        TartCommand::IpWaitArp { wait_secs, .. } => {
            law_numbers_come_back_from_their_texts(wait_secs as nat);
        },
        TartCommand::Exec { name, cmd } => {
            assert(texts(cmd@).len() == cmd@.len());
            assert forall|p: int| 0 <= p < cmd@.len() implies args[p + 2] == (#[trigger] cmd@[p])@ by {
                assert(texts(cmd@)[p] == cmd@[p]@);
            }
        },
        _ => {},
    }
}

/// The error of an operation, by its first argument.
pub open spec fn is_complaint(
    verb: Seq<char>,
    output: Result<ProcessOutput, String>,
    error: TachikomaError,
) -> bool {
    error matches TachikomaError::Tart(m) && match output {
        Err(e) => if verb == "run"@ {
            m@ == "Failed to spawn tart run: "@ + e@
        } else {
            m@ == "Failed to run tart "@ + verb + ": "@ + e@
        },
        Ok(out) => m@ == "tart "@ + verb + " failed: "@ + utf8_lossy(out.stderr@),
    }
}

/// What comes of an operation of `tart`, by what its process left behind. A process that could not
/// be started is an error. So is one that reports failure, but for three kinds: an address that is
/// asked for is then not there; a command in a machine is left to tell how it went; and a machine
/// that was started runs on its own.
pub open spec fn is_right_outcome(
    command: TartCommand,
    output: Result<ProcessOutput, String>,
    outcome: TartOutcome,
) -> bool {
    let verb = command.arguments()[0];
    let succeeded = output matches Ok(out) && out.success;
    match command {
        TartCommand::List => if succeeded {
            outcome == TartOutcome::VmsIn(output->Ok_0.stdout)
        } else {
            outcome matches TartOutcome::Replied(Reply::Vms(Err(e))) && is_complaint(
                verb,
                output,
                e,
            )
        },
        TartCommand::Ip { .. }
        | TartCommand::IpWait { .. }
        | TartCommand::IpWaitArp { .. } => if output is Err {
            outcome matches TartOutcome::Replied(Reply::Ip(Err(e))) && is_complaint(verb, output, e)
        } else if succeeded {
            outcome matches TartOutcome::IpIn(text) && text@ == trimmed(
                utf8_lossy(output->Ok_0.stdout@),
            )
        } else {
            outcome == TartOutcome::Replied(Reply::Ip(Ok(None)))
        },
        TartCommand::Exec { .. } => match output {
            Err(_) => outcome matches TartOutcome::Replied(Reply::Exec(Err(e))) && is_complaint(
                verb,
                output,
                e,
            ),
            Ok(out) => outcome matches TartOutcome::Replied(Reply::Exec(Ok(left))) && {
                &&& left.stdout@ == utf8_lossy(out.stdout@)
                &&& left.stderr@ == utf8_lossy(out.stderr@)
                &&& out.code matches Some(code) ==> left.exit_code == code
                &&& out.code is None ==> left.exit_code == -1
            },
        },
        _ => if succeeded || (verb == "run"@ && output is Ok) {
            outcome == TartOutcome::Replied(Reply::Unit(Ok(())))
        } else {
            outcome matches TartOutcome::Replied(Reply::Unit(Err(e))) && is_complaint(
                verb,
                output,
                e,
            )
        },
    }
}

/// Outcomes are read as they should be.
pub proof fn law_outcomes_are_read_right(
    command: TartCommand,
    output: Result<ProcessOutput, String>,
    outcome: TartOutcome,
)
    requires
        outcome_of(command, output, outcome),
    ensures
        is_right_outcome(command, output, outcome),
{
    law_arguments_say_what_to_do(command);
    reveal_strlit("run");
    reveal_strlit("list");
    reveal_strlit("clone");
    reveal_strlit("stop");
    reveal_strlit("suspend");
    reveal_strlit("delete");
    reveal_strlit("ip");
    reveal_strlit("exec");
    assert("run"@.len() == 3 && "list"@.len() == 4 && "clone"@.len() == 5 && "stop"@.len() == 4
        && "suspend"@.len() == 7 && "delete"@.len() == 6 && "ip"@.len() == 2 && "exec"@.len() == 4);
}

/// A reply that is read off an outcome is of the kind that the operation gets: a listing gets a list
/// of machines, a query an address, a command in a machine what it left behind, and any other one
/// success or an error.
pub proof fn law_replies_fit_their_operations(
    command: TartCommand,
    output: Result<ProcessOutput, String>,
    outcome: TartOutcome,
)
    requires
        outcome_of(command, output, outcome),
    ensures
        match outcome {
            TartOutcome::Replied(reply) => reply.kind() == command.kind(),
            TartOutcome::VmsIn(_) => command.kind() == Kind::Vms,
            TartOutcome::IpIn(_) => command.kind() == Kind::Ip,
        },
        command.kind() == Kind::Vms <==> command is List,
        command.kind() == Kind::Exec <==> command is Exec,
        command.kind() == Kind::Ip <==> command is Ip || command is IpWait || command is IpWaitArp,
{
}

} // verus!
