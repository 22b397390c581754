//! The machines that the program remembers from one run to the next.

use vstd::prelude::*;

verus! {

/// A point in time: seconds since 1970 in UTC, and the nanoseconds behind them.
#[derive(Debug, Clone, Copy, PartialEq, Eq, Structural)]
pub struct Timestamp {
    pub secs: i64,
    pub nanos: u32,
}

/// Whether a clock can show the time: it is not before 1970, and the nanoseconds are less than a
/// second.
pub open spec fn is_clock_time(time: Timestamp) -> bool {
    time.secs >= 0 && time.nanos < 1_000_000_000
}

/// What a machine was last known to do.
#[derive(Debug, Clone, Copy, PartialEq, Eq, Structural)]
pub enum VmStatus {
    Running,
    Suspended,
    Stopped,
}

/// One remembered machine.
#[derive(Debug)]
pub struct VmEntry {
    pub name: String,
    pub repo: String,
    pub branch: String,
    pub worktree_path: String,
    pub created_at: Timestamp,
    pub last_used: Timestamp,
    pub status: VmStatus,
    /// The address that the machine was last reached at.
    pub ip: Option<String>,
}

/// All remembered machines, in the order in which they were first seen.
#[derive(Debug)]
pub struct State {
    pub vms: Vec<VmEntry>,
}

/// Whether entry `i` is the first one of the given name.
pub open spec fn first_named(vms: Seq<VmEntry>, name: Seq<char>, i: int) -> bool {
    &&& 0 <= i < vms.len()
    &&& vms[i].name@ == name
    &&& forall|j: int| 0 <= j < i ==> (#[trigger] vms[j]).name@ != name
}

/// Whether an entry has the given name.
pub open spec fn known(vms: Seq<VmEntry>, name: Seq<char>) -> bool {
    exists|i: int| first_named(vms, name, i)
}

/// Whether no two entries share a name.
pub open spec fn names_differ(vms: Seq<VmEntry>) -> bool {
    forall|i: int, j: int|
        0 <= i < j < vms.len() ==> (#[trigger] vms[i]).name@ != (#[trigger] vms[j]).name@
}

/// What a spawn learns of a machine.
pub struct Sighting {
    pub name: String,
    pub repo: String,
    pub branch: String,
    pub worktree_path: String,
    pub status: VmStatus,
    pub ip: Option<String>,
}

/// Whether `entry` is what is remembered of a machine that is seen for the first time.
pub open spec fn fresh_entry(
    entry: VmEntry,
    seen: Sighting,
    created_at: Timestamp,
    last_used: Timestamp,
) -> bool {
    &&& entry.name == seen.name
    &&& entry.repo == seen.repo
    &&& entry.branch == seen.branch
    &&& entry.worktree_path == seen.worktree_path
    &&& entry.created_at == created_at
    &&& entry.last_used == last_used
    &&& entry.status == seen.status
    &&& entry.ip == seen.ip
}

/// Whether `now` is `before` with a sighting recorded. The first entry of the machine's name
/// takes over status, address and time of use; without one, an entry is added at the end.
pub open spec fn recorded(
    before: Seq<VmEntry>,
    seen: Sighting,
    created_at: Timestamp,
    last_used: Timestamp,
    now: Seq<VmEntry>,
) -> bool {
    if known(before, seen.name@) {
        exists|i: int| #[trigger]
            first_named(before, seen.name@, i) && now == before.update(
                i,
                VmEntry { status: seen.status, ip: seen.ip, last_used, ..before[i] },
            )
    } else {
        &&& now.len() == before.len() + 1
        &&& now.drop_last() == before
        &&& fresh_entry(now.last(), seen, created_at, last_used)
    }
}

impl State {
    /// Remembers nothing.
    pub fn new() -> (state: State)
        ensures
            state.vms@.len() == 0,
    {
        State { vms: Vec::new() }
    }

    /// Where the first entry of the given name stands.
    fn position(&self, name: &String) -> (found: Option<usize>)
        ensures
            match found {
                Some(i) => first_named(self.vms@, name@, i as int),
                None => !known(self.vms@, name@),
            },
    {
        let mut i: usize = 0;
        while i < self.vms.len()
            invariant
                i <= self.vms.len(),
                forall|j: int| 0 <= j < i ==> (#[trigger] self.vms@[j]).name@ != name@,
            decreases self.vms.len() - i,
        {
            if self.vms[i].name == *name {
                return Some(i);
            }
            i += 1;
        }
        None
    }

    /// The first entry of the given name.
    pub fn find_vm(&self, name: &String) -> (entry: Option<&VmEntry>)
        ensures
            match entry {
                Some(e) => exists|i: int| #[trigger]
                    first_named(self.vms@, name@, i) && *e == self.vms@[i],
                None => !known(self.vms@, name@),
            },
    {
        match self.position(name) {
            Some(i) => Some(&self.vms[i]),
            None => None,
        }
    }

    /// Adds an entry at the end.
    pub fn add_vm(&mut self, entry: VmEntry)
        ensures
            final(self).vms@ == old(self).vms@.push(entry),
    {
        self.vms.push(entry);
    }

    /// Records a sighting: updates the machine's entry, or adds one.
    pub fn record(&mut self, seen: Sighting, created_at: Timestamp, last_used: Timestamp)
        ensures
            recorded(old(self).vms@, seen, created_at, last_used, final(self).vms@),
    {
        match self.position(&seen.name) {
            Some(i) => {
                let ghost before = self.vms@;
                self.vms[i].status = seen.status;
                self.vms[i].ip = seen.ip;
                self.vms[i].last_used = last_used;
                proof {
                    assert(first_named(before, seen.name@, i as int));
                    assert(self.vms@ =~= before.update(
                        i as int,
                        VmEntry {
                            status: seen.status,
                            ip: seen.ip,
                            last_used,
                            ..before[i as int]
                        },
                    ));
                }
            },
            None => {
                let ghost before = self.vms@;
                self.add_vm(
                    VmEntry {
                        name: seen.name,
                        repo: seen.repo,
                        branch: seen.branch,
                        worktree_path: seen.worktree_path,
                        created_at,
                        last_used,
                        status: seen.status,
                        ip: seen.ip,
                    },
                );
                assert(self.vms@.drop_last() =~= before);
            },
        }
    }
}

/// What was recorded is found again: the machine's entry carries the status, the address and the
/// time of use of the sighting. An entry that was there before keeps its origin.
pub proof fn law_a_sighting_is_found_again(
    before: Seq<VmEntry>,
    seen: Sighting,
    created_at: Timestamp,
    last_used: Timestamp,
    now: Seq<VmEntry>,
)
    requires
        recorded(before, seen, created_at, last_used, now),
    ensures
        exists|i: int| #[trigger]
            first_named(now, seen.name@, i) && {
                &&& now[i].status == seen.status
                &&& now[i].ip == seen.ip
                &&& now[i].last_used == last_used
                &&& if known(before, seen.name@) {
                    &&& first_named(before, seen.name@, i)
                    &&& now[i].name == before[i].name
                    &&& now[i].repo == before[i].repo
                    &&& now[i].branch == before[i].branch
                    &&& now[i].worktree_path == before[i].worktree_path
                    &&& now[i].created_at == before[i].created_at
                } else {
                    fresh_entry(now[i], seen, created_at, last_used)
                }
            },
{
    if known(before, seen.name@) {
        let i = choose|i: int| #[trigger]
            first_named(before, seen.name@, i) && now == before.update(
                i,
                VmEntry { status: seen.status, ip: seen.ip, last_used, ..before[i] },
            );
        assert(first_named(now, seen.name@, i));
    } else {
        let i = before.len() as int;
        assert forall|j: int| 0 <= j < i implies (#[trigger] now[j]).name@ != seen.name@ by {
            assert(now[j] == now.drop_last()[j]);
            if before[j].name@ == seen.name@ {
                lemma_some_entry_is_first(before, seen.name@, j);
            }
        }
        assert(first_named(now, seen.name@, i));
    }
}

/// An entry of a name has a first one of that name at or before it.
proof fn lemma_some_entry_is_first(vms: Seq<VmEntry>, name: Seq<char>, i: int)
    requires
        0 <= i < vms.len(),
        vms[i].name@ == name,
    ensures
        known(vms, name),
    decreases i,
{
    if exists|j: int| 0 <= j < i && (#[trigger] vms[j]).name@ == name {
        let j = choose|j: int| 0 <= j < i && (#[trigger] vms[j]).name@ == name;
        lemma_some_entry_is_first(vms, name, j);
    } else {
        assert(first_named(vms, name, i));
    }
}

/// A sighting of one machine leaves what is remembered of every other one as it was.
pub proof fn law_a_sighting_leaves_other_machines(
    before: Seq<VmEntry>,
    seen: Sighting,
    created_at: Timestamp,
    last_used: Timestamp,
    now: Seq<VmEntry>,
    other: Seq<char>,
)
    requires
        recorded(before, seen, created_at, last_used, now),
        other != seen.name@,
    ensures
        known(now, other) <==> known(before, other),
        forall|i: int|
            first_named(before, other, i) ==> #[trigger] first_named(now, other, i) && now[i]
                == before[i],
{
    law_a_sighting_is_found_again(before, seen, created_at, last_used, now);
    assert(forall|j: int|
        0 <= j < before.len() ==> (#[trigger] now[j]).name == before[j].name && (
        before[j].name@ == other ==> now[j] == before[j])) by {
        if !known(before, seen.name@) {
            assert(forall|j: int| 0 <= j < before.len() ==> now[j] == now.drop_last()[j]);
        }
    }
    assert(forall|i: int| first_named(before, other, i) ==> first_named(now, other, i));
    if known(now, other) {
        let i = choose|i: int| first_named(now, other, i);
        assert(first_named(before, other, i)) by {
            assert(i < before.len());
            assert(forall|j: int| 0 <= j < i ==> (#[trigger] before[j]).name == now[j].name);
        }
    }
}

/// As long as no two entries share a name, recording a sighting keeps it so, and adds an entry
/// only for a machine that was not known.
pub proof fn law_a_sighting_keeps_names_apart(
    before: Seq<VmEntry>,
    seen: Sighting,
    created_at: Timestamp,
    last_used: Timestamp,
    now: Seq<VmEntry>,
)
    requires
        recorded(before, seen, created_at, last_used, now),
        names_differ(before),
    ensures
        names_differ(now),
        now.len() == before.len() + if known(before, seen.name@) {
            0int
        } else {
            1int
        },
{
    if known(before, seen.name@) {
        assert(forall|j: int| 0 <= j < before.len() ==> (#[trigger] now[j]).name == before[j].name);
    } else {
        assert forall|i: int, j: int| 0 <= i < j < now.len() implies (#[trigger] now[i]).name@ != (
        #[trigger] now[j]).name@ by {
            assert(now[i] == now.drop_last()[i]);
            if j < before.len() {
                assert(now[j] == now.drop_last()[j]);
            } else if before[i].name@ == seen.name@ {
                lemma_some_entry_is_first(before, seen.name@, i);
            }
        }
    }
}

} // verus!
