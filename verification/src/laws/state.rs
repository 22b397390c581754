//! What is remembered of machines.

use vstd::prelude::*;

use crate::state::{first_named, known, recorded, Sighting, Timestamp, VmEntry, VmStatus};

verus! {

/// Whether the first remembered machine of the given name is at place `p`.
pub open spec fn remembered_at(vms: Seq<VmEntry>, name: Seq<char>, p: int) -> bool {
    &&& 0 <= p < vms.len()
    &&& vms[p].name@ == name
    &&& forall|q: int| 0 <= q < p ==> (#[trigger] vms[q]).name@ != name
}

/// Whether a machine of the given name is remembered.
pub open spec fn is_remembered(vms: Seq<VmEntry>, name: Seq<char>) -> bool {
    exists|p: int| 0 <= p < vms.len() && (#[trigger] vms[p]).name@ == name
}

/// Whether `after` is `before` with it written down that a machine was seen. The first entry of its
/// name changes in status, address and time of use alone; a machine without one gets a new one at
/// the end. All other entries stay.
pub open spec fn is_written_down(
    before: Seq<VmEntry>,
    name: Seq<char>,
    repo: Seq<char>,
    branch: Seq<char>,
    worktree_path: Seq<char>,
    status: VmStatus,
    ip: Option<String>,
    created_at: Timestamp,
    last_used: Timestamp,
    after: Seq<VmEntry>,
) -> bool {
    if is_remembered(before, name) {
        &&& after.len() == before.len()
        &&& forall|p: int|
            0 <= p < before.len() ==> if remembered_at(before, name, p) {
                &&& (#[trigger] after[p]).name == before[p].name
                &&& after[p].repo == before[p].repo
                &&& after[p].branch == before[p].branch
                &&& after[p].worktree_path == before[p].worktree_path
                &&& after[p].created_at == before[p].created_at
                &&& after[p].last_used == last_used
                &&& after[p].status == status
                &&& after[p].ip == ip
            } else {
                after[p] == before[p]
            }
    } else {
        &&& after.len() == before.len() + 1
        &&& forall|p: int| 0 <= p < before.len() ==> #[trigger] after[p] == before[p]
        &&& after.last().name@ == name
        &&& after.last().repo@ == repo
        &&& after.last().branch@ == branch
        &&& after.last().worktree_path@ == worktree_path
        &&& after.last().created_at == created_at
        &&& after.last().last_used == last_used
        &&& after.last().status == status
        &&& after.last().ip == ip
    }
}

/// A machine is known if and only if some entry has its name.
pub proof fn law_known_machines_have_entries(vms: Seq<VmEntry>, name: Seq<char>)
    ensures
        known(vms, name) <==> is_remembered(vms, name),
        forall|p: int| #[trigger] first_named(vms, name, p) <==> remembered_at(vms, name, p),
{
    if is_remembered(vms, name) {
        let p = choose|p: int| 0 <= p < vms.len() && (#[trigger] vms[p]).name@ == name;
        lemma_first(vms, name, p);
    }
    if known(vms, name) {
        let p = choose|p: int| first_named(vms, name, p);
        assert(vms[p].name@ == name);
    }
}

proof fn lemma_first(vms: Seq<VmEntry>, name: Seq<char>, p: int)
    requires
        0 <= p < vms.len(),
        vms[p].name@ == name,
    ensures
        known(vms, name),
    decreases p,
{
    if exists|q: int| 0 <= q < p && (#[trigger] vms[q]).name@ == name {
        let q = choose|q: int| 0 <= q < p && (#[trigger] vms[q]).name@ == name;
        lemma_first(vms, name, q);
    } else {
        assert(first_named(vms, name, p));
    }
}

/// Recording a sighting writes down what was seen, and nothing else.
pub proof fn law_sightings_are_written_down(
    before: Seq<VmEntry>,
    seen: Sighting,
    created_at: Timestamp,
    last_used: Timestamp,
    after: Seq<VmEntry>,
)
    requires
        recorded(before, seen, created_at, last_used, after),
    ensures
        is_written_down(
            before,
            seen.name@,
            seen.repo@,
            seen.branch@,
            seen.worktree_path@,
            seen.status,
            seen.ip,
            created_at,
            last_used,
            after,
        ),
{
    law_known_machines_have_entries(before, seen.name@);
    if known(before, seen.name@) {
        let i = choose|i: int| #[trigger]
            first_named(before, seen.name@, i) && after == before.update(
                i,
                VmEntry { status: seen.status, ip: seen.ip, last_used, ..before[i] },
            );
        assert forall|p: int| 0 <= p < before.len() && remembered_at(before, seen.name@, p) implies p
            == i by {
            if p < i {
                assert(before[p].name@ != seen.name@);
            } else if i < p {
                assert(before[i].name@ != seen.name@);
            }
        }
    } else {
        assert forall|p: int| 0 <= p < before.len() implies #[trigger] after[p] == before[p] by {
            assert(after[p] == after.drop_last()[p]);
        }
    }
}

} // verus!
