//! Runs that grow.

use vstd::prelude::*;

use crate::effect::{goes_on, goes_on_at, is_run, Machine, Next, Reply};

verus! {

/// A run that is not at its end goes on with the next reply.
pub proof fn lemma_grows<M: Machine>(
    first: Next<M, M::Output>,
    got: Seq<Reply>,
    part: Seq<Next<M, M::Output>>,
    reply: Reply,
    next: Next<M, M::Output>,
)
    requires
        is_run(first, got, part),
        goes_on(part.last(), reply, next),
    ensures
        is_run(first, got.push(reply), part.push(next)),
{
    let more = got.push(reply);
    let grown = part.push(next);
    assert forall|m: int| 0 <= m < more.len() implies #[trigger] goes_on_at(more, grown, m) by {
        if m < got.len() {
            assert(goes_on_at(got, part, m));
        }
    }
}

} // verus!
