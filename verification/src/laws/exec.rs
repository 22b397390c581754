//! Commands in machines, call by call.

use vstd::prelude::*;

use super::state::{is_remembered, law_known_machines_have_entries, remembered_at};
use crate::cmd::exec::{exec_begins, Exec};
use crate::effect::{goes_on_at, is_run, Call, Next, Reply};
use crate::error::TachikomaError;
use crate::state::first_named;
use crate::tart::TartCommand;
use crate::text::{joined, signed_decimal, texts, trimmed};

verus! {

/// Under `tart exec` a command is one call: a shell in the wanted machine gets the words, joined by
/// blanks. What it printed is given if it succeeded, and otherwise an error tells its code and what
/// it complained of.
pub proof fn law_commands_under_tart(
    first: Next<Exec, String>,
    vm_name: String,
    cmd: Seq<String>,
    ssh_user: String,
    replies: Seq<Reply>,
    trail: Seq<Next<Exec, String>>,
)
    requires
        exec_begins(first, vm_name, cmd, ssh_user, true),
        is_run(first, replies, trail),
        replies.len() > 0,
    ensures
        replies.len() == 1,
        trail[0] is Ask,
        trail[0]->call matches Call::Tart(TartCommand::Exec { name, cmd: words }) && {
            &&& name == vm_name
            &&& words@.len() == 3
            &&& words@[0]@ == "bash"@
            &&& words@[1]@ == "-c"@
            &&& words@[2]@ == joined(texts(cmd), " "@)
        },
        match replies[0] {
            Reply::Exec(Ok(output)) => if output.exit_code == 0 {
                trail[1] == Next::<Exec, String>::Done(Ok(output.stdout))
            } else {
                trail[1] matches Next::Done(Err(TachikomaError::Tart(m))) && m@
                    == "tart exec failed (exit "@ + signed_decimal(output.exit_code as int)
                    + "): "@ + trimmed(output.stderr@)
            },
            Reply::Exec(Err(e)) => trail[1] == Next::<Exec, String>::Done(Err(e)),
            _ => false,
        },
{
    assert(goes_on_at(replies, trail, 0));
    if replies.len() > 1 {
        assert(goes_on_at(replies, trail, 1));
    }
    let words = trail[0]->call->Tart_0->cmd@;
    assert(texts(words).len() == words.len());
    assert(texts(words)[0] == words[0]@);
    assert(texts(words)[1] == words[1]@);
    assert(texts(words)[2] == words[2]@);
}

/// Over SSH a command takes three calls. What is remembered is read; the address of the first entry
/// that bears the name of the wanted machine is parsed, and that of no other; and the words, joined
/// by blanks, are run as the given user at the address that came of it. What they printed is given.
/// Without an entry of that name the machine is said not to be found. Failures are handed on.
pub proof fn law_commands_over_ssh(
    first: Next<Exec, String>,
    vm_name: String,
    cmd: Seq<String>,
    ssh_user: String,
    replies: Seq<Reply>,
    trail: Seq<Next<Exec, String>>,
)
    requires
        exec_begins(first, vm_name, cmd, ssh_user, false),
        is_run(first, replies, trail),
        replies.len() > 0,
    ensures
        replies.len() <= 3,
        trail[0] is Ask && trail[0]->call == Call::LoadState,
        match replies[0] {
            Reply::Loaded(Err(e)) => trail[1] == Next::<Exec, String>::Done(Err(e)),
            Reply::Loaded(Ok(state)) => if is_remembered(state.vms@, vm_name@) {
                &&& trail[1] is Ask
                &&& trail[1]->call is ParseIp
                &&& forall|p: int| #[trigger]
                    remembered_at(state.vms@, vm_name@, p) ==> trail[1]->call == Call::ParseIp(
                        state.vms@[p].ip,
                    )
            } else {
                trail[1] matches Next::Done(Err(TachikomaError::Vm(m))) && m@ == "VM '"@ + vm_name@
                    + "' not found"@
            },
            _ => false,
        },
        replies.len() > 1 ==> match replies[1] {
            Reply::Address(Err(e)) => trail[2] == Next::<Exec, String>::Done(Err(e)),
            Reply::Address(Ok(ip)) => {
                &&& trail[2] is Ask
                &&& trail[2]->call matches Call::SshRunCommand { ip: at, user, command }
                &&& at == ip
                &&& user == ssh_user
                &&& command@ == joined(texts(cmd), " "@)
            },
            _ => false,
        },
        replies.len() > 2 ==> replies[2] is Text && trail[3] == Next::<Exec, String>::Done(
            replies[2]->Text_0,
        ),
{
    assert(goes_on_at(replies, trail, 0));
    if replies.len() > 1 {
        assert(goes_on_at(replies, trail, 1));
    }
    if replies.len() > 2 {
        assert(goes_on_at(replies, trail, 2));
    }
    if replies.len() > 3 {
        assert(goes_on_at(replies, trail, 3));
    }
    if let Reply::Loaded(Ok(state)) = replies[0] {
        law_known_machines_have_entries(state.vms@, vm_name@);
        if is_remembered(state.vms@, vm_name@) {
            let i = choose|i: int| #[trigger]
                first_named(state.vms@, vm_name@, i) && trail[1] is Ask && trail[1]->call
                    == Call::ParseIp(state.vms@[i].ip);
            assert forall|p: int| #[trigger] remembered_at(state.vms@, vm_name@, p) implies p == i by {
                if p < i {
                    assert(state.vms@[p].name@ != vm_name@);
                } else if i < p {
                    assert(state.vms@[i].name@ != vm_name@);
                }
            }
        }
    }
}

} // verus!
