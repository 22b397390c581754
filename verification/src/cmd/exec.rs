//! Running a command in a machine.

use vstd::pervasive::unreached;
use vstd::prelude::*;
use vstd::string::StringExecFns;

use crate::effect::{goes_on_at, is_run, Call, Kind, Machine, Next, Reply};
use crate::error::TachikomaError;
use crate::state::{first_named, known};
use crate::tart::types::ExecOutput;
use crate::tart::TartCommand;
use crate::text::{
    join, joined, push_text, signed_decimal, signed_decimal_text, texts, trim, trimmed,
};

verus! {

/// A command on its way.
pub enum Exec {
    /// Waits for the end of `tart exec`.
    TartExec,
    /// Waits for the remembered machines.
    Loading { vm_name: String, ssh_user: String, command: String },
    /// Waits for the address of the machine.
    Address { ssh_user: String, command: String },
    /// Waits for the end of the command over SSH.
    Ssh,
}

/// What is said of a command that failed under `tart exec`.
pub open spec fn exec_failure_text(output: ExecOutput) -> Seq<char> {
    "tart exec failed (exit "@ + signed_decimal(output.exit_code as int) + "): "@ + trimmed(
        output.stderr@,
    )
}

/// What `tart exec` comes to: what the command printed, if it succeeded.
pub open spec fn is_exec_result(
    output: ExecOutput,
    result: Result<String, TachikomaError>,
) -> bool {
    if output.exit_code == 0 {
        result == Ok::<String, TachikomaError>(output.stdout)
    } else {
        result matches Err(TachikomaError::Tart(m)) && m@ == exec_failure_text(output)
    }
}

/// Reads what came of `tart exec`.
pub fn exec_result(output: ExecOutput) -> (result: Result<String, TachikomaError>)
    ensures
        is_exec_result(output, result),
{
    if output.exit_code != 0 {
        let mut m = "tart exec failed (exit ".to_string();
        m.append(signed_decimal_text(output.exit_code).as_str());
        m.append("): ");
        m.append(trim(output.stderr.as_str()));
        Err(TachikomaError::Tart(m))
    } else {
        Ok(output.stdout)
    }
}

impl Machine for Exec {
    type Output = String;

    open spec fn awaits(&self) -> Kind {
        match self {
            Exec::TartExec => Kind::Exec,
            Exec::Loading { .. } => Kind::Loaded,
            Exec::Address { .. } => Kind::Address,
            Exec::Ssh => Kind::Text,
        }
    }

    open spec fn transition(self, reply: Reply, next: Next<Self, String>) -> bool {
        match self {
            Exec::TartExec => match reply->Exec_0 {
                Ok(output) => next matches Next::Done(result) && is_exec_result(output, result),
                Err(e) => next == Next::<Self, String>::Done(Err(e)),
            },
            Exec::Loading { vm_name, ssh_user, command } => match reply->Loaded_0 {
                Ok(state) => if known(state.vms@, vm_name@) {
                    exists|i: int| #[trigger]
                        first_named(state.vms@, vm_name@, i) && next == (Next::<Self, String>::Ask {
                            status: None,
                            call: Call::ParseIp(state.vms@[i].ip),
                            machine: Exec::Address { ssh_user, command },
                        })
                } else {
                    next matches Next::Done(Err(TachikomaError::Vm(m))) && m@ == "VM '"@ + vm_name@
                        + "' not found"@
                },
                Err(e) => next == Next::<Self, String>::Done(Err(e)),
            },
            Exec::Address { ssh_user, command } => match reply->Address_0 {
                Ok(ip) => next == (Next::<Self, String>::Ask {
                    status: None,
                    call: Call::SshRunCommand { ip, user: ssh_user, command },
                    machine: Exec::Ssh,
                }),
                Err(e) => next == Next::<Self, String>::Done(Err(e)),
            },
            Exec::Ssh => next == Next::<Self, String>::Done(reply->Text_0),
        }
    }

    fn resume(self, reply: Reply) -> (next: Next<Self, String>) {
        match (self, reply) {
            (Exec::TartExec, Reply::Exec(output)) => match output {
                Ok(output) => Next::Done(exec_result(output)),
                Err(e) => Next::Done(Err(e)),
            },
            (Exec::Loading { vm_name, ssh_user, command }, Reply::Loaded(state)) => match state {
                Ok(state) => match state.find_vm(&vm_name) {
                    Some(entry) => Next::Ask {
                        status: None,
                        call: Call::ParseIp(entry.ip.clone()),
                        machine: Exec::Address { ssh_user, command },
                    },
                    None => {
                        let mut m = "VM '".to_string();
                        m.append(vm_name.as_str());
                        m.append("' not found");
                        Next::Done(Err(TachikomaError::Vm(m)))
                    },
                },
                Err(e) => Next::Done(Err(e)),
            },
            (Exec::Address { ssh_user, command }, Reply::Address(ip)) => match ip {
                Ok(ip) => Next::Ask {
                    status: None,
                    call: Call::SshRunCommand { ip, user: ssh_user, command },
                    machine: Exec::Ssh,
                },
                Err(e) => Next::Done(Err(e)),
            },
            (Exec::Ssh, Reply::Text(printed)) => Next::Done(printed),
            _ => unreached(),
        }
    }
}

/// Whether `next` is the beginning of a command: the words of the command are joined by blanks,
/// and go to a shell under `tart exec`, or wait until the machine is looked up.
pub open spec fn exec_begins(
    next: Next<Exec, String>,
    vm_name: String,
    cmd: Seq<String>,
    ssh_user: String,
    use_tart_exec: bool,
) -> bool {
    let full = joined(texts(cmd), " "@);
    if use_tart_exec {
        &&& next matches Next::Ask {
            status: None,
            call: Call::Tart(TartCommand::Exec { name, cmd: words }),
            machine: Exec::TartExec,
        }
        &&& name == vm_name
        &&& texts(words@) == seq!["bash"@, "-c"@, full]
    } else {
        &&& next matches Next::Ask {
            status: None,
            call: Call::LoadState,
            machine: Exec::Loading { vm_name: name, ssh_user: user, command },
        }
        &&& name == vm_name
        &&& user == ssh_user
        &&& command@ == full
    }
}

/// Starts to run a command in a machine.
pub fn run(vm_name: String, cmd: &Vec<String>, ssh_user: String, use_tart_exec: bool) -> (next:
    Next<Exec, String>)
    ensures
        exec_begins(next, vm_name, cmd@, ssh_user, use_tart_exec),
{
    let command = join(cmd, " ");
    if use_tart_exec {
        let mut words: Vec<String> = Vec::new();
        assert(texts(words@) =~= seq![]);
        push_text(&mut words, "bash".to_string());
        push_text(&mut words, "-c".to_string());
        push_text(&mut words, command);
        assert(texts(words@) =~= seq!["bash"@, "-c"@, joined(texts(cmd@), " "@)]);
        Next::Ask {
            status: None,
            call: Call::Tart(TartCommand::Exec { name: vm_name, cmd: words }),
            machine: Exec::TartExec,
        }
    } else {
        Next::Ask {
            status: None,
            call: Call::LoadState,
            machine: Exec::Loading { vm_name, ssh_user, command },
        }
    }
}

/// One command is run at most, and by the one way that was asked for: under `tart exec` nothing is
/// looked up and SSH is not used, and over SSH `tart` is not used. It is run as the given user.
pub proof fn law_a_command_goes_one_way(
    first: Next<Exec, String>,
    vm_name: String,
    cmd: Seq<String>,
    ssh_user: String,
    use_tart_exec: bool,
    replies: Seq<Reply>,
    trail: Seq<Next<Exec, String>>,
    i: int,
)
    requires
        exec_begins(first, vm_name, cmd, ssh_user, use_tart_exec),
        is_run(first, replies, trail),
        0 <= i <= replies.len(),
        trail[i] is Ask,
    ensures
        use_tart_exec ==> i == 0 && trail[i]->call is Tart,
        !use_tart_exec ==> {
            &&& i == 0 ==> trail[i]->call is LoadState
            &&& i == 1 ==> trail[i]->call is ParseIp
            &&& i == 2 ==> (trail[i]->call matches Call::SshRunCommand { user, command, .. } && user
                == ssh_user && command@ == joined(texts(cmd), " "@))
            &&& i <= 2
        },
{
    if i > 0 {
        assert(goes_on_at(replies, trail, 0));
    }
    if i > 1 {
        assert(goes_on_at(replies, trail, 1));
    }
    if i > 2 {
        assert(goes_on_at(replies, trail, 2));
    }
    if i > 3 {
        assert(goes_on_at(replies, trail, 3));
    }
}

} // verus!
