//! What `tart` is told, and what it tells.

use vstd::prelude::*;
use vstd::string::StringExecFns;

use crate::os_path::{shown, shown_of};

verus! {

/// A directory of the host that a machine sees.
#[derive(Debug)]
pub struct DirMount {
    /// The name under which the machine sees it.
    pub name: Option<String>,
    /// Where it is on the host.
    pub host_path: String,
    /// Whether the machine may only read it.
    pub read_only: bool,
}

/// A mount, with the texts of its parts.
pub struct MountView {
    pub name: Option<Seq<char>>,
    pub host_path: Seq<char>,
    pub read_only: bool,
}

impl View for DirMount {
    type V = MountView;

    open spec fn view(&self) -> MountView {
        MountView {
            name: match self.name {
                Some(name) => Some(name@),
                None => None,
            },
            host_path: self.host_path@,
            read_only: self.read_only,
        }
    }
}

/// The mounts of a list, with the texts of their parts.
pub open spec fn mounts_view(mounts: Seq<DirMount>) -> Seq<MountView> {
    mounts.map_values(|m: DirMount| m@)
}

impl DirMount {
    /// The same mount once more.
    pub fn duplicate(&self) -> (mount: DirMount)
        ensures
            mount == *self,
    {
        DirMount {
            name: match &self.name {
                Some(name) => Some(name.clone()),
                None => None,
            },
            host_path: self.host_path.clone(),
            read_only: self.read_only,
        }
    }

    /// The value of a `--dir` option: `[name:]path[:ro]`.
    pub open spec fn tart_arg(self) -> Seq<char> {
        let named = match self.name {
            Some(name) => name@ + ":"@ + shown_of(self.host_path@),
            None => shown_of(self.host_path@),
        };
        if self.read_only {
            named + ":ro"@
        } else {
            named
        }
    }

    /// Writes the mount as the value of a `--dir` option.
    pub fn to_tart_arg(&self) -> (arg: String)
        ensures
            arg@ == self.tart_arg(),
    {
        let mut arg = String::new();
        if let Some(name) = &self.name {
            arg.append(name.as_str());
            arg.append(":");
        }
        arg.append(shown(self.host_path.as_str()).as_str());
        if self.read_only {
            arg.append(":ro");
        }
        proof {
            match &self.name {
                Some(name) => assert(Seq::<char>::empty() + name@ =~= name@),
                None => assert(Seq::<char>::empty() + shown_of(self.host_path@) =~= shown_of(
                    self.host_path@,
                )),
            }
        }
        arg
    }
}

/// How a machine is started.
#[derive(Debug)]
pub struct RunOpts {
    /// Whether to start it without a window.
    pub no_graphics: bool,
    /// The directories that it sees.
    pub dirs: Vec<DirMount>,
    /// Whether to offer Rosetta to it.
    pub rosetta: bool,
}

/// What a command that ran inside a machine left behind.
#[derive(Debug)]
pub struct ExecOutput {
    pub stdout: String,
    pub stderr: String,
    pub exit_code: i32,
}

/// The states of a machine that the program tells apart.
#[derive(Debug, Clone, Copy, PartialEq, Eq, Structural)]
pub enum TartVmState {
    Running,
    Suspended,
    Stopped,
    Unknown,
}

/// One line of `tart list`.
#[derive(Debug)]
pub struct TartVmInfo {
    pub name: String,
    pub state: String,
    pub disk: u64,
    pub size: u64,
    pub source: String,
    pub running: bool,
    pub accessed: Option<String>,
}

/// The state that `tart list` calls by the given word.
pub open spec fn state_called(word: Seq<char>) -> TartVmState {
    if word == "running"@ {
        TartVmState::Running
    } else if word == "suspended"@ {
        TartVmState::Suspended
    } else if word == "stopped"@ {
        TartVmState::Stopped
    } else {
        TartVmState::Unknown
    }
}

impl TartVmInfo {
    /// The machine's state.
    pub fn state_enum(&self) -> (state: TartVmState)
        ensures
            state == state_called(self.state@),
    {
        if self.state == "running".to_string() {
            TartVmState::Running
        } else if self.state == "suspended".to_string() {
            TartVmState::Suspended
        } else if self.state == "stopped".to_string() {
            TartVmState::Stopped
        } else {
            TartVmState::Unknown
        }
    }
}

/// Whether a machine of the given name is listed.
pub open spec fn listed(vms: Seq<TartVmInfo>, name: Seq<char>) -> bool {
    exists|i: int| 0 <= i < vms.len() && (#[trigger] vms[i]).name@ == name
}

/// The state of the first listed machine of the given name, if there is one.
pub open spec fn listed_state(vms: Seq<TartVmInfo>, name: Seq<char>) -> Option<TartVmState>
    decreases vms.len(),
{
    if vms.len() == 0 {
        None
    } else if vms[0].name@ == name {
        Some(state_called(vms[0].state@))
    } else {
        listed_state(vms.drop_first(), name)
    }
}

/// Whether a machine of the given name is listed.
pub fn is_listed(vms: &Vec<TartVmInfo>, name: &String) -> (found: bool)
    ensures
        found == listed(vms@, name@),
{
    let mut i: usize = 0;
    while i < vms.len()
        invariant
            i <= vms.len(),
            forall|j: int| 0 <= j < i ==> (#[trigger] vms@[j]).name@ != name@,
        decreases vms.len() - i,
    {
        if vms[i].name == *name {
            assert(vms@[i as int].name@ == name@);
            return true;
        }
        i += 1;
    }
    false
}

/// The state of the first listed machine of the given name, if there is one.
pub fn find_state(vms: &Vec<TartVmInfo>, name: &String) -> (state: Option<TartVmState>)
    ensures
        state == listed_state(vms@, name@),
{
    let mut i: usize = 0;
    assert(vms@.skip(0) =~= vms@);
    while i < vms.len()
        invariant
            i <= vms.len(),
            listed_state(vms@, name@) == listed_state(vms@.skip(i as int), name@),
        decreases vms.len() - i,
    {
        assert(vms@.skip(i as int)[0] == vms@[i as int]);
        assert(vms@.skip(i as int).drop_first() =~= vms@.skip(i + 1));
        if vms[i].name == *name {
            return Some(vms[i].state_enum());
        }
        i += 1;
    }
    None
}

/// A state is found for the machines that are listed, and for no other.
pub proof fn law_a_state_is_found_iff_listed(vms: Seq<TartVmInfo>, name: Seq<char>)
    ensures
        listed_state(vms, name) is Some <==> listed(vms, name),
    decreases vms.len(),
{
    if vms.len() > 0 {
        let rest = vms.drop_first();
        law_a_state_is_found_iff_listed(rest, name);
        if vms[0].name@ != name {
            assert(listed(vms, name) <==> listed(rest, name)) by {
                if listed(vms, name) {
                    let i = choose|i: int| 0 <= i < vms.len() && (#[trigger] vms[i]).name@ == name;
                    assert(rest[i - 1] == vms[i]);
                }
                if listed(rest, name) {
                    let i = choose|i: int| 0 <= i < rest.len() && (#[trigger] rest[i]).name@ == name;
                    assert(vms[i + 1] == rest[i]);
                }
            }
        }
    }
}

} // verus!
