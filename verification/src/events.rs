//! Mutation events recorded for every committed write.
use vstd::prelude::*;

use crate::types::{RecordId, TenantId};

verus! {

#[derive(Debug, Clone, Copy, PartialEq, Eq, Structural)]
pub enum MutationType {
    Insert,
    Update,
    Delete,
}

#[derive(Debug, Clone, PartialEq, Eq)]
pub struct MutationEvent {
    pub tenant_id: TenantId,
    pub record_id: RecordId,
    pub mutation_type: MutationType,
    pub commit_sequence: u64,
    /// Commit time in microseconds since the Unix epoch.
    pub committed_at: i64,
}

impl MutationEvent {
    /// A copy of this event.
    pub fn duplicate(&self) -> (r: Self)
        ensures
            r == *self,
    {
        MutationEvent {
            tenant_id: self.tenant_id.duplicate(),
            record_id: self.record_id,
            mutation_type: self.mutation_type,
            commit_sequence: self.commit_sequence,
            committed_at: self.committed_at,
        }
    }
}

/// The events of `tenant` committed after sequence `after`, in log order.
pub open spec fn events_after(events: Seq<MutationEvent>, tenant: Seq<char>, after: u64) -> Seq<
    MutationEvent,
>
    decreases events.len(),
{
    if events.len() == 0 {
        Seq::empty()
    } else {
        let rest = events_after(events.drop_last(), tenant, after);
        let e = events.last();
        if e.tenant_id.0@ == tenant && e.commit_sequence > after {
            rest.push(e)
        } else {
            rest
        }
    }
}

/// The first `n` elements of `s` (all of them when `s` is shorter).
pub open spec fn first_n<A>(s: Seq<A>, n: nat) -> Seq<A> {
    if n >= s.len() {
        s
    } else {
        s.take(n as int)
    }
}

/// Keeping the matching events of a prefix gives a prefix of the matching
/// events of the whole log.
pub proof fn lemma_events_after_prefix(events: Seq<MutationEvent>, tenant: Seq<char>, after: u64, i: int)
    requires
        0 <= i <= events.len(),
    ensures
        events_after(events.take(i), tenant, after).len() <= events_after(events, tenant, after).len(),
        events_after(events.take(i), tenant, after) =~= events_after(events, tenant, after).take(
            events_after(events.take(i), tenant, after).len() as int,
        ),
    decreases events.len() - i,
{
    if i < events.len() {
        lemma_events_after_prefix(events, tenant, after, i + 1);
        assert(events.take(i + 1).drop_last() =~= events.take(i));
    } else {
        assert(events.take(i) =~= events);
    }
}

/// Every event kept belongs to the tenant, comes after the given sequence and
/// occurs in the log.
pub proof fn lemma_events_after_members(events: Seq<MutationEvent>, tenant: Seq<char>, after: u64)
    ensures
        forall|k: int|
            0 <= k < events_after(events, tenant, after).len() ==> {
                let e = #[trigger] events_after(events, tenant, after)[k];
                &&& e.tenant_id.0@ == tenant
                &&& e.commit_sequence > after
                &&& events.contains(e)
            },
    decreases events.len(),
{
    if events.len() > 0 {
        lemma_events_after_members(events.drop_last(), tenant, after);
        let rest = events_after(events.drop_last(), tenant, after);
        assert forall|k: int| 0 <= k < rest.len() implies events.contains(#[trigger] rest[k]) by {
            let j = choose|j: int| 0 <= j < events.drop_last().len() && events.drop_last()[j] == rest[k];
            assert(events[j] == rest[k]);
        }
        assert(events[events.len() - 1] == events.last());
    }
}

/// The events of `tenant` committed after `after_sequence`, at most `limit`
/// of them, in log order.
pub fn mutation_events_since(
    events: &[MutationEvent],
    tenant_id: &TenantId,
    after_sequence: u64,
    limit: usize,
) -> (r: Vec<MutationEvent>)
    ensures
        r@ == first_n(events_after(events@, tenant_id.0@, after_sequence), limit as nat),
{
    let mut out: Vec<MutationEvent> = Vec::new();
    let n = events.len();
    let mut i: usize = 0;
    while i < n && out.len() < limit
        invariant
            i <= n,
            n == events@.len(),
            out@ == events_after(events@.take(i as int), tenant_id.0@, after_sequence),
            out@.len() <= limit,
        decreases n - i,
    {
        let e = &events[i];
        assert(events@.take(i + 1).drop_last() =~= events@.take(i as int));
        assert(events@.take(i + 1).last() == events@[i as int]);
        if e.tenant_id.same_as(tenant_id) && e.commit_sequence > after_sequence {
            out.push(e.duplicate());
        }
        i = i + 1;
    }
    proof {
        lemma_events_after_prefix(events@, tenant_id.0@, after_sequence, i as int);
        if out@.len() < limit {
            assert(events@.take(n as int) =~= events@);
        }
    }
    out
}

} // verus!
