//! Resumable per-tenant changefeed subscriptions over the mutation log.
use std::collections::HashMap;

use vstd::prelude::*;

use crate::errors::{CoreError, CoreResult};
use crate::events::{
    events_after,
    first_n,
    lemma_events_after_members,
    mutation_events_since,
    MutationEvent,
};
use crate::text::{concat_decimal, decimal};
use crate::types::{RecordId, TenantId};

verus! {

broadcast use vstd::std_specs::hash::group_hash_axioms;

#[derive(Debug, Clone, Copy, PartialEq, Eq, Structural, Hash)]
pub struct SubscriptionId(pub u64);

#[derive(Debug, Clone, Copy, PartialEq, Eq, Structural, Hash)]
pub struct ResumeToken(pub u64);

#[derive(Debug, Clone, PartialEq, Eq)]
pub enum DependencyFilter {
    AllRecords,
    /// Tracked record ids, in ascending order without repeats.
    RecordIds(Vec<RecordId>),
}

#[derive(Debug, Clone, PartialEq, Eq)]
pub struct Subscription {
    pub id: SubscriptionId,
    pub tenant_id: TenantId,
    pub last_sequence: u64,
    pub dependency_filter: DependencyFilter,
}

#[derive(Debug, Clone, PartialEq, Eq)]
pub struct ChangeBatch {
    pub subscription_id: SubscriptionId,
    pub events: Vec<MutationEvent>,
    pub next_resume_token: ResumeToken,
}

#[derive(Debug)]
pub struct ChangefeedEngine {
    next_id: u64,
    subscriptions: HashMap<u64, Subscription>,
}

/// Whether a filter lets events about `record` through.
pub open spec fn filter_admits(filter: DependencyFilter, record: RecordId) -> bool {
    match filter {
        DependencyFilter::AllRecords => true,
        DependencyFilter::RecordIds(ids) => ids@.contains(record),
    }
}

/// Record ids in strictly ascending order.
pub open spec fn strictly_ascending(ids: Seq<RecordId>) -> bool {
    forall|i: int, j: int| 0 <= i < j < ids.len() ==> ids[i].0 < ids[j].0
}

/// The filter built for an optional list of tracked records: every record
/// when there is no list, otherwise exactly the listed records.
pub open spec fn filter_for(dependencies: Option<Seq<RecordId>>, filter: DependencyFilter) -> bool {
    match dependencies {
        None => filter == DependencyFilter::AllRecords,
        Some(ids) => filter matches DependencyFilter::RecordIds(v) && strictly_ascending(v@) && v@.to_set()
            == ids.to_set(),
    }
}

/// The events that pass a filter, in order.
pub open spec fn admitted(events: Seq<MutationEvent>, filter: DependencyFilter) -> Seq<MutationEvent>
    decreases events.len(),
{
    if events.len() == 0 {
        Seq::empty()
    } else {
        let rest = admitted(events.drop_last(), filter);
        if filter_admits(filter, events.last().record_id) {
            rest.push(events.last())
        } else {
            rest
        }
    }
}

/// Inserts `e` after every element whose sequence does not exceed its own.
pub open spec fn insert_by_sequence(s: Seq<MutationEvent>, e: MutationEvent) -> Seq<MutationEvent>
    decreases s.len(),
{
    if s.len() == 0 {
        seq![e]
    } else if s.last().commit_sequence <= e.commit_sequence {
        s.push(e)
    } else {
        insert_by_sequence(s.drop_last(), e).push(s.last())
    }
}

/// Stable sort of events by commit sequence.
pub open spec fn sorted_by_sequence(s: Seq<MutationEvent>) -> Seq<MutationEvent>
    decreases s.len(),
{
    if s.len() == 0 {
        Seq::empty()
    } else {
        insert_by_sequence(sorted_by_sequence(s.drop_last()), s.last())
    }
}

/// Batch size a poll scans before filtering by dependencies.
pub open spec fn scan_limit(max_events: usize) -> nat {
    if max_events * 4 > usize::MAX {
        usize::MAX as nat
    } else {
        (max_events * 4) as nat
    }
}

/// What a poll of `sub` over `events` delivers, and the sequence it resumes
/// from afterwards.
pub open spec fn poll_outcome(sub: Subscription, events: Seq<MutationEvent>, max_events: usize) -> (
    Seq<MutationEvent>,
    u64,
) {
    let scanned = first_n(
        events_after(events, sub.tenant_id.0@, sub.last_sequence),
        scan_limit(max_events),
    );
    let last_scanned = if scanned.len() > 0 {
        scanned.last().commit_sequence
    } else {
        sub.last_sequence
    };
    let delivered = sorted_by_sequence(first_n(admitted(scanned, sub.dependency_filter), max_events as nat));
    let next = if delivered.len() > 0 {
        delivered.last().commit_sequence
    } else {
        last_scanned
    };
    (delivered, next)
}

fn contains_record(ids: &Vec<RecordId>, record: RecordId) -> (r: bool)
    ensures
        r == ids@.contains(record),
{
    let n = ids.len();
    let mut i: usize = 0;
    while i < n
        invariant
            i <= n,
            n == ids@.len(),
            forall|k: int| 0 <= k < i ==> ids@[k] != record,
        decreases n - i,
    {
        if ids[i].0 == record.0 {
            assert(ids@[i as int] == record);
            return true;
        }
        i = i + 1;
    }
    false
}

fn filter_admits_exec(filter: &DependencyFilter, record: RecordId) -> (r: bool)
    ensures
        r == filter_admits(*filter, record),
{
    match filter {
        DependencyFilter::AllRecords => true,
        DependencyFilter::RecordIds(ids) => contains_record(ids, record),
    }
}

/// Inserts `id` into an ascending list of ids without repeats.
fn insert_ascending(ids: &mut Vec<RecordId>, id: RecordId)
    requires
        strictly_ascending(old(ids)@),
    ensures
        strictly_ascending(final(ids)@),
        final(ids)@.to_set() == old(ids)@.to_set().insert(id),
{
    let n = ids.len();
    let mut p: usize = 0;
    while p < n && ids[p].0 < id.0
        invariant
            p <= n,
            n == ids@.len(),
            ids@ == old(ids)@,
            strictly_ascending(ids@),
            forall|k: int| 0 <= k < p ==> ids@[k].0 < id.0,
        decreases n - p,
    {
        p = p + 1;
    }
    if p < n && ids[p].0 == id.0 {
        assert(old(ids)@.to_set().insert(id) =~= old(ids)@.to_set()) by {
            assert(old(ids)@[p as int] == id);
        }
        return;
    }
    ids.insert(p, id);
    assert(ids@ == old(ids)@.insert(p as int, id));
    assert forall|i: int, j: int| 0 <= i < j < ids@.len() implies ids@[i].0 < ids@[j].0 by {
        if j < p {
        } else if i > p {
            assert(ids@[i] == old(ids)@[i - 1]);
            assert(ids@[j] == old(ids)@[j - 1]);
        } else if i == p {
            assert(ids@[j] == old(ids)@[j - 1]);
            assert(old(ids)@[p as int].0 > id.0);
        } else {
            assert(ids@[i] == old(ids)@[i]);
            if j == p {
            } else {
                assert(ids@[j] == old(ids)@[j - 1]);
            }
        }
    }
    assert forall|x: RecordId| ids@.to_set().contains(x) <==> old(ids)@.to_set().insert(id).contains(
        x,
    ) by {
        if ids@.contains(x) {
            let k = choose|k: int| 0 <= k < ids@.len() && ids@[k] == x;
            if k < p {
                assert(old(ids)@[k] == x);
            } else if k > p {
                assert(old(ids)@[k - 1] == x);
            }
        }
        if old(ids)@.contains(x) {
            let k = choose|k: int| 0 <= k < old(ids)@.len() && old(ids)@[k] == x;
            if k < p {
                assert(ids@[k] == x);
            } else {
                assert(ids@[k + 1] == x);
            }
        }
        if x == id {
            assert(ids@[p as int] == x);
        }
    }
    assert(ids@.to_set() =~= old(ids)@.to_set().insert(id));
}

fn filter_from(dependencies: Option<Vec<RecordId>>) -> (r: DependencyFilter)
    ensures
        filter_for(
            match dependencies {
                None => None,
                Some(v) => Some(v@),
            },
            r,
        ),
{
    match dependencies {
        None => DependencyFilter::AllRecords,
        Some(list) => {
            let mut ids: Vec<RecordId> = Vec::new();
            let n = list.len();
            assert(list@.take(0).to_set() =~= Set::<RecordId>::empty());
            assert(ids@.to_set() =~= Set::<RecordId>::empty());
            for i in 0..n
                invariant
                    n == list@.len(),
                    strictly_ascending(ids@),
                    ids@.to_set() == list@.take(i as int).to_set(),
            {
                insert_ascending(&mut ids, list[i]);
                assert(list@.take(i + 1) =~= list@.take(i as int).push(list@[i as int]));
                proof {
                    let t1 = list@.take(i + 1);
                    let t0 = list@.take(i as int);
                    assert forall|x: RecordId| t1.contains(x) <==> (t0.contains(x) || x
                        == list@[i as int]) by {
                        if t1.contains(x) {
                            let k = choose|k: int| 0 <= k < t1.len() && t1[k] == x;
                            if k < i {
                                assert(t0[k] == x);
                            }
                        }
                        if t0.contains(x) {
                            let k = choose|k: int| 0 <= k < t0.len() && t0[k] == x;
                            assert(t1[k] == x);
                        }
                        if x == list@[i as int] {
                            assert(t1[i as int] == x);
                        }
                    }
                    assert(t1.to_set() =~= t0.to_set().insert(list@[i as int]));
                }
            }
            assert(list@.take(n as int) =~= list@);
            DependencyFilter::RecordIds(ids)
        },
    }
}

fn admitted_exec(events: &Vec<MutationEvent>, filter: &DependencyFilter, limit: usize) -> (r: Vec<
    MutationEvent,
>)
    ensures
        r@ == first_n(admitted(events@, *filter), limit as nat),
{
    let mut out: Vec<MutationEvent> = Vec::new();
    let n = events.len();
    let mut i: usize = 0;
    while i < n && out.len() < limit
        invariant
            i <= n,
            n == events@.len(),
            out@ == admitted(events@.take(i as int), *filter),
            out@.len() <= limit,
        decreases n - i,
    {
        assert(events@.take(i + 1).drop_last() =~= events@.take(i as int));
        if filter_admits_exec(filter, events[i].record_id) {
            out.push(events[i].duplicate());
        }
        i = i + 1;
    }
    proof {
        lemma_admitted_prefix(events@, *filter, i as int);
        if out@.len() < limit {
            assert(events@.take(n as int) =~= events@);
        }
    }
    out
}

proof fn lemma_admitted_prefix(events: Seq<MutationEvent>, filter: DependencyFilter, i: int)
    requires
        0 <= i <= events.len(),
    ensures
        admitted(events.take(i), filter).len() <= admitted(events, filter).len(),
        admitted(events.take(i), filter) =~= admitted(events, filter).take(
            admitted(events.take(i), filter).len() as int,
        ),
    decreases events.len() - i,
{
    if i < events.len() {
        lemma_admitted_prefix(events, filter, i + 1);
        assert(events.take(i + 1).drop_last() =~= events.take(i));
    } else {
        assert(events.take(i) =~= events);
    }
}

proof fn lemma_admitted_members(events: Seq<MutationEvent>, filter: DependencyFilter)
    ensures
        forall|k: int|
            0 <= k < admitted(events, filter).len() ==> events.contains(
                #[trigger] admitted(events, filter)[k],
            ) && filter_admits(filter, admitted(events, filter)[k].record_id),
    decreases events.len(),
{
    if events.len() > 0 {
        lemma_admitted_members(events.drop_last(), filter);
        let rest = admitted(events.drop_last(), filter);
        assert forall|k: int| 0 <= k < rest.len() implies events.contains(#[trigger] rest[k]) by {
            let j = choose|j: int| 0 <= j < events.drop_last().len() && events.drop_last()[j] == rest[k];
            assert(events[j] == rest[k]);
        }
        assert(events[events.len() - 1] == events.last());
    }
}

/// Inserting into `s.take(p)` and then appending the rest is inserting into
/// `s`, when every element from `p` on sorts after `e`.
proof fn lemma_insert_by_sequence_split(s: Seq<MutationEvent>, e: MutationEvent, p: int)
    requires
        0 <= p <= s.len(),
        forall|k: int| p <= k < s.len() ==> s[k].commit_sequence > e.commit_sequence,
    ensures
        insert_by_sequence(s, e) == insert_by_sequence(s.take(p), e) + s.skip(p),
    decreases s.len(),
{
    if p == s.len() {
        assert(s.take(p) =~= s);
        assert(s.skip(p) =~= Seq::<MutationEvent>::empty());
        assert(insert_by_sequence(s.take(p), e) + s.skip(p) =~= insert_by_sequence(s.take(p), e));
    } else {
        lemma_insert_by_sequence_split(s.drop_last(), e, p);
        assert(s.drop_last().take(p) =~= s.take(p));
        assert(s.skip(p) =~= s.drop_last().skip(p).push(s.last()));
        assert(insert_by_sequence(s.take(p), e) + s.skip(p) =~= (insert_by_sequence(s.take(p), e)
            + s.drop_last().skip(p)).push(s.last()));
    }
}

/// Inserts `e` into `out` the way `insert_by_sequence` does.
fn insert_event_by_sequence(out: &mut Vec<MutationEvent>, e: MutationEvent)
    ensures
        final(out)@ == insert_by_sequence(old(out)@, e),
{
    let mut p = out.len();
    while p > 0 && out[p - 1].commit_sequence > e.commit_sequence
        invariant
            p <= out@.len(),
            out@ == old(out)@,
            forall|k: int| p <= k < out@.len() ==> out@[k].commit_sequence > e.commit_sequence,
        decreases p,
    {
        p = p - 1;
    }
    proof {
        lemma_insert_by_sequence_split(out@, e, p as int);
        let t = out@.take(p as int);
        if p > 0 {
            assert(t.last() == out@[p - 1]);
        }
        assert(insert_by_sequence(t, e) =~= t.push(e));
    }
    out.insert(p, e);
    assert(out@ =~= old(out)@.take(p as int).push(e) + old(out)@.skip(p as int));
}

fn sort_by_sequence(events: Vec<MutationEvent>) -> (r: Vec<MutationEvent>)
    ensures
        r@ == sorted_by_sequence(events@),
{
    let mut out: Vec<MutationEvent> = Vec::new();
    let n = events.len();
    for i in 0..n
        invariant
            n == events@.len(),
            out@ == sorted_by_sequence(events@.take(i as int)),
    {
        assert(events@.take(i + 1).drop_last() =~= events@.take(i as int));
        insert_event_by_sequence(&mut out, events[i].duplicate());
    }
    assert(events@.take(n as int) =~= events@);
    out
}

proof fn lemma_push_members(s: Seq<MutationEvent>, e: MutationEvent)
    ensures
        forall|x: MutationEvent| #[trigger] s.push(e).contains(x) <==> (s.contains(x) || x == e),
{
    assert forall|x: MutationEvent| #[trigger] s.push(e).contains(x) <==> (s.contains(x) || x == e) by {
        let r = s.push(e);
        if r.contains(x) {
            let k = choose|k: int| 0 <= k < r.len() && r[k] == x;
            if k < s.len() {
                assert(s[k] == x);
            }
        }
        if s.contains(x) {
            let k = choose|k: int| 0 <= k < s.len() && s[k] == x;
            assert(r[k] == x);
        }
        if x == e {
            assert(r[s.len() as int] == x);
        }
    }
}

proof fn lemma_insert_by_sequence_members(s: Seq<MutationEvent>, e: MutationEvent)
    ensures
        insert_by_sequence(s, e).len() == s.len() + 1,
        forall|x: MutationEvent| #[trigger]
            insert_by_sequence(s, e).contains(x) <==> (s.contains(x) || x == e),
    decreases s.len(),
{
    if s.len() == 0 {
        assert(insert_by_sequence(s, e) == seq![e]);
        assert(s.push(e) =~= seq![e]);
        lemma_push_members(s, e);
    } else if s.last().commit_sequence <= e.commit_sequence {
        assert(insert_by_sequence(s, e) == s.push(e));
        lemma_push_members(s, e);
    } else {
        lemma_insert_by_sequence_members(s.drop_last(), e);
        let inner = insert_by_sequence(s.drop_last(), e);
        assert(insert_by_sequence(s, e) == inner.push(s.last()));
        assert forall|x: MutationEvent| #[trigger]
            insert_by_sequence(s, e).contains(x) <==> (s.contains(x) || x == e) by {
            let r = inner.push(s.last());
            if r.contains(x) {
                let k = choose|k: int| 0 <= k < r.len() && r[k] == x;
                if k < inner.len() {
                    assert(inner[k] == x);
                    assert(inner.contains(x));
                    if s.drop_last().contains(x) {
                        let j = choose|j: int| 0 <= j < s.drop_last().len() && s.drop_last()[j] == x;
                        assert(s[j] == x);
                    }
                } else {
                    assert(s[s.len() - 1] == x);
                }
            }
            if s.contains(x) {
                let k = choose|k: int| 0 <= k < s.len() && s[k] == x;
                if k < s.len() - 1 {
                    assert(s.drop_last()[k] == x);
                    assert(inner.contains(x));
                    let j = choose|j: int| 0 <= j < inner.len() && inner[j] == x;
                    assert(r[j] == x);
                } else {
                    assert(r[inner.len() as int] == x);
                }
            }
            if x == e {
                assert(inner.contains(x));
                let j = choose|j: int| 0 <= j < inner.len() && inner[j] == x;
                assert(r[j] == x);
            }
        }
    }
}

/// Sorting keeps exactly the events it was given.
pub proof fn lemma_sorted_by_sequence_members(s: Seq<MutationEvent>)
    ensures
        sorted_by_sequence(s).len() == s.len(),
        forall|x: MutationEvent| #[trigger] sorted_by_sequence(s).contains(x) <==> s.contains(x),
    decreases s.len(),
{
    if s.len() > 0 {
        lemma_sorted_by_sequence_members(s.drop_last());
        lemma_insert_by_sequence_members(sorted_by_sequence(s.drop_last()), s.last());
        assert forall|x: MutationEvent| #[trigger] sorted_by_sequence(s).contains(x) <==> s.contains(
            x,
        ) by {
            if s.contains(x) {
                let k = choose|k: int| 0 <= k < s.len() && s[k] == x;
                if k < s.len() - 1 {
                    assert(s.drop_last()[k] == x);
                }
            }
            if s.drop_last().contains(x) {
                let k = choose|k: int| 0 <= k < s.drop_last().len() && s.drop_last()[k] == x;
                assert(s[k] == x);
            }
        }
    }
}

impl Default for ChangefeedEngine {
    fn default() -> (r: Self)
        ensures
            r.ids_issued(),
            r.subscription_count() == 0,
            r.subscriptions() == Map::<u64, Subscription>::empty(),
    {
        Self { next_id: 0, subscriptions: HashMap::new() }
    }
}

impl ChangefeedEngine {
    /// Every held subscription has a number between 1 and the count of opened
    /// subscriptions, and carries that number as its id.
    #[verifier::type_invariant]
    spec fn numbers_issued(&self) -> bool {
        forall|k: u64| #[trigger]
            self.subscriptions@.contains_key(k) ==> 1 <= k <= self.next_id
                && self.subscriptions@[k].id.0 == k
    }

    /// The subscriptions, by subscription number.
    pub closed spec fn subscriptions(&self) -> Map<u64, Subscription> {
        self.subscriptions@
    }

    /// Every subscription the engine holds was numbered by a subscribe call:
    /// its number lies between 1 and the count of opened subscriptions, and it
    /// is the subscription's id.
    pub open spec fn ids_issued(&self) -> bool {
        forall|k: u64| #[trigger]
            self.subscriptions().contains_key(k) ==> 1 <= k <= self.subscription_count()
                && self.subscriptions()[k].id.0 == k
    }

    /// How many subscriptions were ever opened; the next one gets this number
    /// plus one.
    pub closed spec fn subscription_count(&self) -> u64 {
        self.next_id
    }

    /// How many subscriptions were ever opened.
    pub fn opened_count(&self) -> (r: u64)
        ensures
            r == self.subscription_count(),
    {
        self.next_id
    }

    pub fn new() -> (r: Self)
        ensures
            r.ids_issued(),
            r.subscription_count() == 0,
            r.subscriptions() == Map::<u64, Subscription>::empty(),
    {
        Self::default()
    }

    pub fn subscribe(&mut self, tenant_id: TenantId) -> (r: SubscriptionId)
        requires
            old(self).subscription_count() < u64::MAX,
        ensures
            r.0 == old(self).subscription_count() + 1,
            forall|k: u64| #[trigger] old(self).subscriptions().contains_key(k) ==> k < r.0,
            !old(self).subscriptions().contains_key(r.0),
            final(self).ids_issued(),
            final(self).subscription_count() == r.0,
            final(self).subscriptions() == old(self).subscriptions().insert(
                r.0,
                Subscription {
                    id: r,
                    tenant_id,
                    last_sequence: 0,
                    dependency_filter: DependencyFilter::AllRecords,
                },
            ),
    {
        self.subscribe_with_resume_and_dependencies(tenant_id, ResumeToken(0), None)
    }

    pub fn subscribe_with_resume(&mut self, tenant_id: TenantId, resume_token: ResumeToken) -> (r:
        SubscriptionId)
        requires
            old(self).subscription_count() < u64::MAX,
        ensures
            r.0 == old(self).subscription_count() + 1,
            forall|k: u64| #[trigger] old(self).subscriptions().contains_key(k) ==> k < r.0,
            !old(self).subscriptions().contains_key(r.0),
            final(self).ids_issued(),
            final(self).subscription_count() == r.0,
            final(self).subscriptions() == old(self).subscriptions().insert(
                r.0,
                Subscription {
                    id: r,
                    tenant_id,
                    last_sequence: resume_token.0,
                    dependency_filter: DependencyFilter::AllRecords,
                },
            ),
    {
        self.subscribe_with_resume_and_dependencies(tenant_id, resume_token, None)
    }

    pub fn subscribe_with_resume_and_dependencies(
        &mut self,
        tenant_id: TenantId,
        resume_token: ResumeToken,
        dependencies: Option<Vec<RecordId>>,
    ) -> (r: SubscriptionId)
        requires
            old(self).subscription_count() < u64::MAX,
        ensures
            r.0 == old(self).subscription_count() + 1,
            forall|k: u64| #[trigger] old(self).subscriptions().contains_key(k) ==> k < r.0,
            !old(self).subscriptions().contains_key(r.0),
            final(self).ids_issued(),
            final(self).subscription_count() == r.0,
            final(self).subscriptions() == old(self).subscriptions().insert(
                r.0,
                final(self).subscriptions()[r.0],
            ),
            final(self).subscriptions()[r.0].id == r,
            final(self).subscriptions()[r.0].tenant_id == tenant_id,
            final(self).subscriptions()[r.0].last_sequence == resume_token.0,
            filter_for(
                match dependencies {
                    None => None,
                    Some(v) => Some(v@),
                },
                final(self).subscriptions()[r.0].dependency_filter,
            ),
    {
        proof {
            use_type_invariant(&*self);
        }
        self.next_id = self.next_id + 1;
        let id = SubscriptionId(self.next_id);
        let dependency_filter = filter_from(dependencies);
        let mut subscriptions = HashMap::new();
        std::mem::swap(&mut subscriptions, &mut self.subscriptions);
        subscriptions.insert(
            id.0,
            Subscription { id, tenant_id, last_sequence: resume_token.0, dependency_filter },
        );
        self.subscriptions = subscriptions;
        proof {
            use_type_invariant(&*self);
        }
        id
    }

    pub fn get_subscription(&self, id: SubscriptionId) -> (r: Option<&Subscription>)
        ensures
            match r {
                Some(s) => self.subscriptions().contains_key(id.0) && *s == self.subscriptions()[id.0],
                None => !self.subscriptions().contains_key(id.0),
            },
    {
        self.subscriptions.get(&id.0)
    }

    pub fn unsubscribe(&mut self, id: SubscriptionId) -> (r: bool)
        ensures
            r == old(self).subscriptions().contains_key(id.0),
            final(self).subscriptions() == old(self).subscriptions().remove(id.0),
            final(self).subscription_count() == old(self).subscription_count(),
            final(self).ids_issued(),
    {
        proof {
            use_type_invariant(&*self);
        }
        let mut subscriptions = HashMap::new();
        std::mem::swap(&mut subscriptions, &mut self.subscriptions);
        let r = subscriptions.remove(&id.0).is_some();
        self.subscriptions = subscriptions;
        proof {
            use_type_invariant(&*self);
        }
        r
    }

    /// Delivers the next events of a subscription from the engine's
    /// `events` (the whole mutation log, in commit order of the log) and
    /// advances its resume point.
    pub fn poll(&mut self, id: SubscriptionId, events: &[MutationEvent], max_events: usize) -> (r:
        CoreResult<ChangeBatch>)
        ensures
            final(self).ids_issued(),
            max_events == 0 ==> (r matches Err(CoreError::Storage(m)) && m@
                == "changefeed poll max_events must be > 0"@ && *final(self) == *old(self)),
            max_events > 0 && !old(self).subscriptions().contains_key(id.0) ==> (r matches Err(
                CoreError::Storage(m),
            ) && m@ == "unknown subscription id: "@ + decimal(id.0 as nat) && *final(self) == *old(
                self,
            )),
            max_events > 0 && old(self).subscriptions().contains_key(id.0) ==> {
                let sub = old(self).subscriptions()[id.0];
                let (delivered, next) = poll_outcome(sub, events@, max_events);
                &&& r matches Ok(batch)
                &&& batch.subscription_id == id
                &&& batch.events@ == delivered
                &&& batch.next_resume_token == ResumeToken(next)
                &&& final(self).subscriptions() == old(self).subscriptions().insert(
                    id.0,
                    Subscription { last_sequence: next, ..sub },
                )
                &&& final(self).subscription_count() == old(self).subscription_count()
            },
    {
        proof {
            use_type_invariant(&*self);
        }
        if max_events == 0 {
            return Err(
                CoreError::Storage(String::from_str("changefeed poll max_events must be > 0")),
            );
        }
        if !self.subscriptions.contains_key(&id.0) {
            return Err(CoreError::Storage(concat_decimal("unknown subscription id: ", id.0)));
        }
        let mut subscriptions = HashMap::new();
        std::mem::swap(&mut subscriptions, &mut self.subscriptions);
        let subscription = match subscriptions.remove(&id.0) {
            Some(s) => s,
            None => {
                self.subscriptions = subscriptions;
                return Err(CoreError::Storage(concat_decimal("unknown subscription id: ", id.0)));
            },
        };
        let ghost sub = subscription;
        let scan: usize = if max_events > usize::MAX / 4 {
            usize::MAX
        } else {
            max_events * 4
        };
        let scanned = mutation_events_since(
            events,
            &subscription.tenant_id,
            subscription.last_sequence,
            scan,
        );
        let last_scanned_sequence = if scanned.len() > 0 {
            scanned[scanned.len() - 1].commit_sequence
        } else {
            subscription.last_sequence
        };
        let picked = admitted_exec(&scanned, &subscription.dependency_filter, max_events);
        let delivered = sort_by_sequence(picked);
        let next_sequence = if delivered.len() > 0 {
            delivered[delivered.len() - 1].commit_sequence
        } else {
            last_scanned_sequence
        };
        let updated = Subscription { last_sequence: next_sequence, ..subscription };
        subscriptions.insert(id.0, updated);
        self.subscriptions = subscriptions;
        proof {
            assert(self.subscriptions@ =~= old(self).subscriptions@.insert(
                id.0,
                Subscription { last_sequence: next_sequence, ..sub },
            ));
            use_type_invariant(&*self);
        }
        Ok(
            ChangeBatch {
                subscription_id: id,
                events: delivered,
                next_resume_token: ResumeToken(next_sequence),
            },
        )
    }
}

/// A poll never moves a subscription backwards, and delivers at most
/// `max_events` events, each of the subscription's tenant, committed after
/// its resume point, about a tracked record, and present in the log; they come
/// in commit-sequence order of the log.
pub proof fn lemma_poll_progress(sub: Subscription, events: Seq<MutationEvent>, max_events: usize)
    requires
        max_events > 0,
    ensures
        poll_outcome(sub, events, max_events).1 >= sub.last_sequence,
        poll_outcome(sub, events, max_events).0.len() <= max_events,
        forall|x: MutationEvent| #[trigger]
            poll_outcome(sub, events, max_events).0.contains(x) ==> {
                &&& x.tenant_id.0@ == sub.tenant_id.0@
                &&& x.commit_sequence > sub.last_sequence
                &&& filter_admits(sub.dependency_filter, x.record_id)
                &&& events.contains(x)
            },
{
    let all = events_after(events, sub.tenant_id.0@, sub.last_sequence);
    let scanned = first_n(all, scan_limit(max_events));
    let picked = first_n(admitted(scanned, sub.dependency_filter), max_events as nat);
    let delivered = sorted_by_sequence(picked);
    lemma_events_after_members(events, sub.tenant_id.0@, sub.last_sequence);
    lemma_admitted_members(scanned, sub.dependency_filter);
    lemma_sorted_by_sequence_members(picked);
    assert forall|x: MutationEvent| #[trigger] delivered.contains(x) implies {
        &&& x.tenant_id.0@ == sub.tenant_id.0@
        &&& x.commit_sequence > sub.last_sequence
        &&& filter_admits(sub.dependency_filter, x.record_id)
        &&& events.contains(x)
    } by {
        assert(picked.contains(x));
        let k = choose|k: int| 0 <= k < picked.len() && picked[k] == x;
        let adm = admitted(scanned, sub.dependency_filter);
        assert(adm[k] == x);
        assert(scanned.contains(x));
        let j = choose|j: int| 0 <= j < scanned.len() && scanned[j] == x;
        assert(all[j] == x);
    }
    if delivered.len() > 0 {
        assert(delivered.contains(delivered.last()));
    } else if scanned.len() > 0 {
        assert(all[scanned.len() - 1] == scanned.last());
    }
}

/// A poll over a log that holds any event of the subscription's tenant after
/// its resume point moves the subscription strictly forward, whether or not
/// the event passes the dependency filter.
pub proof fn lemma_poll_moves_forward(sub: Subscription, events: Seq<MutationEvent>, max_events: usize)
    requires
        max_events > 0,
        events_after(events, sub.tenant_id.0@, sub.last_sequence).len() > 0,
    ensures
        poll_outcome(sub, events, max_events).1 > sub.last_sequence,
{
    let all = events_after(events, sub.tenant_id.0@, sub.last_sequence);
    let scanned = first_n(all, scan_limit(max_events));
    let picked = first_n(admitted(scanned, sub.dependency_filter), max_events as nat);
    let delivered = sorted_by_sequence(picked);
    lemma_poll_progress(sub, events, max_events);
    lemma_events_after_members(events, sub.tenant_id.0@, sub.last_sequence);
    if delivered.len() > 0 {
        assert(delivered.contains(delivered.last()));
    } else {
        assert(scanned.len() > 0);
        assert(all[scanned.len() - 1] == scanned.last());
    }
}

/// Commit sequences strictly increase along the log.
pub open spec fn commit_ascending(s: Seq<MutationEvent>) -> bool {
    forall|i: int, j: int| 0 <= i < j < s.len() ==> s[i].commit_sequence < s[j].commit_sequence
}

/// The events of `s` committed at or before sequence `upto`, in order.
pub open spec fn committed_through(s: Seq<MutationEvent>, upto: u64) -> Seq<MutationEvent>
    decreases s.len(),
{
    if s.len() == 0 {
        Seq::empty()
    } else {
        let rest = committed_through(s.drop_last(), upto);
        if s.last().commit_sequence <= upto {
            rest.push(s.last())
        } else {
            rest
        }
    }
}

proof fn lemma_admitted_ascending(s: Seq<MutationEvent>, filter: DependencyFilter)
    requires
        commit_ascending(s),
    ensures
        commit_ascending(admitted(s, filter)),
    decreases s.len(),
{
    if s.len() > 0 {
        let p = s.drop_last();
        lemma_admitted_ascending(p, filter);
        lemma_admitted_members(p, filter);
        let rest = admitted(p, filter);
        assert forall|k: int| 0 <= k < rest.len() implies rest[k].commit_sequence
            < s.last().commit_sequence by {
            let j = choose|j: int| 0 <= j < p.len() && p[j] == rest[k];
            assert(s[j] == rest[k]);
        }
    }
}

proof fn lemma_events_after_ascending(s: Seq<MutationEvent>, tenant: Seq<char>, after: u64)
    requires
        commit_ascending(s),
    ensures
        commit_ascending(events_after(s, tenant, after)),
    decreases s.len(),
{
    if s.len() > 0 {
        let p = s.drop_last();
        lemma_events_after_ascending(p, tenant, after);
        lemma_events_after_members(p, tenant, after);
        let rest = events_after(p, tenant, after);
        assert forall|k: int| 0 <= k < rest.len() implies rest[k].commit_sequence
            < s.last().commit_sequence by {
            let j = choose|j: int| 0 <= j < p.len() && p[j] == rest[k];
            assert(s[j] == rest[k]);
        }
    }
}

proof fn lemma_sorted_ascending_unchanged(s: Seq<MutationEvent>)
    requires
        commit_ascending(s),
    ensures
        sorted_by_sequence(s) == s,
    decreases s.len(),
{
    if s.len() > 0 {
        let p = s.drop_last();
        lemma_sorted_ascending_unchanged(p);
        assert(p.push(s.last()) =~= s);
        if p.len() > 0 {
            assert(p.last() == s[s.len() - 2]);
        }
    }
}

proof fn lemma_through_commutes(s: Seq<MutationEvent>, filter: DependencyFilter, upto: u64)
    ensures
        admitted(committed_through(s, upto), filter) == committed_through(admitted(s, filter), upto),
    decreases s.len(),
{
    if s.len() > 0 {
        let p = s.drop_last();
        lemma_through_commutes(p, filter, upto);
        let t = committed_through(p, upto);
        let a = admitted(p, filter);
        assert(t.push(s.last()).drop_last() =~= t);
        assert(a.push(s.last()).drop_last() =~= a);
    }
}

proof fn lemma_through_everything(s: Seq<MutationEvent>, upto: u64)
    requires
        forall|k: int| 0 <= k < s.len() ==> s[k].commit_sequence <= upto,
    ensures
        committed_through(s, upto) == s,
    decreases s.len(),
{
    if s.len() > 0 {
        lemma_through_everything(s.drop_last(), upto);
        assert(s.drop_last().push(s.last()) =~= s);
    }
}

proof fn lemma_through_prefix(s: Seq<MutationEvent>, m: int)
    requires
        commit_ascending(s),
        0 < m <= s.len(),
    ensures
        committed_through(s, s[m - 1].commit_sequence) == s.take(m),
    decreases s.len(),
{
    let u = s[m - 1].commit_sequence;
    if m == s.len() {
        lemma_through_everything(s, u);
        assert(s.take(m) =~= s);
    } else {
        let p = s.drop_last();
        assert(p[m - 1] == s[m - 1]);
        lemma_through_prefix(p, m);
        assert(p.take(m) =~= s.take(m));
    }
}

/// Polls neither lose nor repeat events: over a log whose commit sequences
/// strictly increase, a poll delivers exactly the events of the
/// subscription's tenant committed after its resume point and at or before
/// the sequence it resumes from next that pass its dependency filter, in log
/// order. The next poll starts after that sequence.
pub proof fn lemma_poll_delivers_exactly(sub: Subscription, events: Seq<MutationEvent>, max_events: usize)
    requires
        max_events > 0,
        commit_ascending(events),
    ensures
        poll_outcome(sub, events, max_events).0 == admitted(
            committed_through(
                events_after(events, sub.tenant_id.0@, sub.last_sequence),
                poll_outcome(sub, events, max_events).1,
            ),
            sub.dependency_filter,
        ),
{
    let f = sub.dependency_filter;
    let all = events_after(events, sub.tenant_id.0@, sub.last_sequence);
    let scanned = first_n(all, scan_limit(max_events));
    let a = admitted(scanned, f);
    let picked = first_n(a, max_events as nat);
    let next = poll_outcome(sub, events, max_events).1;
    lemma_events_after_ascending(events, sub.tenant_id.0@, sub.last_sequence);
    lemma_admitted_ascending(all, f);
    let whole = admitted(all, f);
    assert(scanned =~= all.take(scanned.len() as int));
    lemma_admitted_prefix(all, f, scanned.len() as int);
    assert(a =~= whole.take(a.len() as int));
    assert(picked =~= whole.take(picked.len() as int));
    assert(commit_ascending(picked));
    lemma_sorted_ascending_unchanged(picked);
    lemma_through_commutes(all, f, next);
    if picked.len() > 0 {
        assert(picked.last() == whole[picked.len() - 1]);
        lemma_through_prefix(whole, picked.len() as int);
    } else {
        assert(a.len() == 0);
        if scanned.len() > 0 {
            assert(scanned.last() == all[scanned.len() - 1]);
            lemma_through_prefix(all, scanned.len() as int);
        } else {
            assert(all.len() == 0);
            assert(committed_through(all, next) =~= Seq::<MutationEvent>::empty());
        }
    }
}

} // verus!
