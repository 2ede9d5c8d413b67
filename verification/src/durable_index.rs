//! What the durable state keeps track of as committed writes are applied:
//! which records exist and under which space key, each tenant's space index,
//! the mutation events and the last committed sequence. The record contents
//! themselves are kept by the caller.
use vstd::prelude::*;

use crate::events::{MutationEvent, MutationType};
use crate::keyed::{
    keyed_map, lemma_keyed_map_contains, lemma_keyed_map_index, lemma_keyed_map_push,
    lemma_keyed_map_remove, lemma_keyed_map_update, unique_keys,
};
use crate::query::KeyRange;
use crate::space_index::{
    first_not_below, ids_in_range, lemma_range_candidates_members, SpaceIndexEntry,
    TenantSpaceIndex,
};
use crate::types::{RecordId, TenantId};

verus! {

pub open spec fn distinct_ids(s: Seq<SpaceIndexEntry>) -> bool {
    forall|i: int, j: int|
        0 <= i < s.len() && 0 <= j < s.len() && i != j ==> (#[trigger] s[i]).record_id != (
        #[trigger] s[j]).record_id
}

/// The tenant's index holds the entry.
pub open spec fn index_has(idx: Map<Seq<char>, Seq<SpaceIndexEntry>>, t: Seq<char>, e: SpaceIndexEntry) -> bool {
    idx.contains_key(t) && idx[t].contains(e)
}

/// The tenant's record with the entry's id exists under the entry's key.
pub open spec fn record_at(recs: Map<(Seq<char>, u64), Option<u128>>, t: Seq<char>, e: SpaceIndexEntry) -> bool {
    recs.contains_key((t, e.record_id.0)) && recs[(t, e.record_id.0)] == Some(e.space_key)
}

spec fn rec_key_fn() -> spec_fn((TenantId, RecordId, Option<u128>)) -> (Seq<char>, u64) {
    |e: (TenantId, RecordId, Option<u128>)| (e.0.0@, e.1.0)
}

spec fn rec_val_fn() -> spec_fn((TenantId, RecordId, Option<u128>)) -> Option<u128> {
    |e: (TenantId, RecordId, Option<u128>)| e.2
}

spec fn idx_key_fn() -> spec_fn((TenantId, TenantSpaceIndex)) -> Seq<char> {
    |e: (TenantId, TenantSpaceIndex)| e.0.0@
}

spec fn idx_val_fn() -> spec_fn((TenantId, TenantSpaceIndex)) -> Seq<SpaceIndexEntry> {
    |e: (TenantId, TenantSpaceIndex)| e.1.entries()
}

proof fn lemma_remove_contains(s: Seq<SpaceIndexEntry>, p: int)
    requires
        0 <= p < s.len(),
        distinct_ids(s),
    ensures
        distinct_ids(s.remove(p)),
        forall|x: SpaceIndexEntry| #[trigger]
            s.remove(p).contains(x) <==> (s.contains(x) && x.record_id != s[p].record_id),
{
    let u = s.remove(p);
    assert forall|i: int, j: int|
        0 <= i < u.len() && 0 <= j < u.len() && i != j implies (#[trigger] u[i]).record_id != (
        #[trigger] u[j]).record_id by {
        let i2 = if i < p {
            i
        } else {
            i + 1
        };
        let j2 = if j < p {
            j
        } else {
            j + 1
        };
        assert(u[i] == s[i2] && u[j] == s[j2]);
    }
    assert forall|x: SpaceIndexEntry| #[trigger]
        u.contains(x) <==> (s.contains(x) && x.record_id != s[p].record_id) by {
        if u.contains(x) {
            let k = choose|k: int| 0 <= k < u.len() && u[k] == x;
            let k2 = if k < p {
                k
            } else {
                k + 1
            };
            assert(s[k2] == x);
        }
        if s.contains(x) && x.record_id != s[p].record_id {
            let k = choose|k: int| 0 <= k < s.len() && s[k] == x;
            assert(k != p);
            if k < p {
                assert(u[k] == x);
            } else {
                assert(u[k - 1] == x);
            }
        }
    }
}

proof fn lemma_insert_contains(s: Seq<SpaceIndexEntry>, p: int, e: SpaceIndexEntry)
    requires
        0 <= p <= s.len(),
        distinct_ids(s),
        forall|q: int| 0 <= q < s.len() ==> (#[trigger] s[q]).record_id != e.record_id,
    ensures
        distinct_ids(s.insert(p, e)),
        forall|x: SpaceIndexEntry| #[trigger] s.insert(p, e).contains(x) <==> (s.contains(x) || x == e),
{
    let u = s.insert(p, e);
    assert forall|i: int, j: int|
        0 <= i < u.len() && 0 <= j < u.len() && i != j implies (#[trigger] u[i]).record_id != (
        #[trigger] u[j]).record_id by {
        if i != p && j != p {
            let i2 = if i < p {
                i
            } else {
                i - 1
            };
            let j2 = if j < p {
                j
            } else {
                j - 1
            };
            assert(u[i] == s[i2] && u[j] == s[j2]);
        } else if i == p {
            let j2 = if j < p {
                j
            } else {
                j - 1
            };
            assert(u[j] == s[j2]);
        } else {
            let i2 = if i < p {
                i
            } else {
                i - 1
            };
            assert(u[i] == s[i2]);
        }
    }
    assert forall|x: SpaceIndexEntry| #[trigger] u.contains(x) <==> (s.contains(x) || x == e) by {
        if u.contains(x) {
            let k = choose|k: int| 0 <= k < u.len() && u[k] == x;
            if k < p {
                assert(s[k] == x);
            } else if k > p {
                assert(s[k - 1] == x);
            }
        }
        if s.contains(x) {
            let k = choose|k: int| 0 <= k < s.len() && s[k] == x;
            if k < p {
                assert(u[k] == x);
            } else {
                assert(u[k + 1] == x);
            }
        }
        if x == e {
            assert(u[p] == x);
        }
    }
}

/// Which records exist and under which space key, each tenant's space
/// index, the mutation events, and the last committed sequence.
#[derive(Debug)]
pub struct DurableIndex {
    last_sequence: u64,
    records: Vec<(TenantId, RecordId, Option<u128>)>,
    indexes: Vec<(TenantId, TenantSpaceIndex)>,
    mutation_events: Vec<MutationEvent>,
}

impl DurableIndex {
    /// The existing records, by tenant and id, with their space keys.
    pub closed spec fn records(&self) -> Map<(Seq<char>, u64), Option<u128>> {
        keyed_map(self.records@, rec_key_fn(), rec_val_fn())
    }

    /// The space index of each tenant that has entries.
    pub closed spec fn indexes(&self) -> Map<Seq<char>, Seq<SpaceIndexEntry>> {
        keyed_map(self.indexes@, idx_key_fn(), idx_val_fn())
    }

    pub closed spec fn events(&self) -> Seq<MutationEvent> {
        self.mutation_events@
    }

    pub closed spec fn last(&self) -> u64 {
        self.last_sequence
    }

    pub closed spec fn wf(&self) -> bool {
        &&& self.wf_shape()
        &&& forall|t: Seq<char>, e: SpaceIndexEntry| #[trigger]
            index_has(self.indexes(), t, e) <==> record_at(self.records(), t, e)
    }

    closed spec fn wf_shape(&self) -> bool {
        &&& unique_keys(self.records@, rec_key_fn())
        &&& unique_keys(self.indexes@, idx_key_fn())
        &&& forall|i: int|
            0 <= i < self.indexes@.len() ==> {
                let s = (#[trigger] self.indexes@[i]).1;
                &&& s.wf()
                &&& s.entries().len() > 0
                &&& distinct_ids(s.entries())
            }
    }

    /// A tenant's space index holds an entry exactly when the tenant's record
    /// of that id exists under that key.
    pub proof fn lemma_index_matches_records(&self)
        requires
            self.wf(),
        ensures
            forall|t: Seq<char>, e: SpaceIndexEntry| #[trigger]
                index_has(self.indexes(), t, e) <==> record_at(self.records(), t, e),
    {
    }

    pub fn new() -> (r: Self)
        ensures
            r.wf(),
            r.records() == Map::<(Seq<char>, u64), Option<u128>>::empty(),
            r.indexes() == Map::<Seq<char>, Seq<SpaceIndexEntry>>::empty(),
            r.events() == Seq::<MutationEvent>::empty(),
            r.last() == 0,
    {
        let r = DurableIndex {
            last_sequence: 0,
            records: Vec::new(),
            indexes: Vec::new(),
            mutation_events: Vec::new(),
        };
        assert forall|t: Seq<char>, e: SpaceIndexEntry| #[trigger]
            index_has(r.indexes(), t, e) <==> record_at(r.records(), t, e) by {}
        r
    }

    pub fn last_sequence(&self) -> (r: u64)
        ensures
            r == self.last(),
    {
        self.last_sequence
    }

    /// The sequence the next write commits at.
    pub fn next_sequence(&self) -> (r: u64)
        requires
            self.last() < u64::MAX,
        ensures
            r == self.last() + 1,
    {
        self.last_sequence + 1
    }

    pub fn mutation_events(&self) -> (r: &[MutationEvent])
        ensures
            r@ == self.events(),
    {
        self.mutation_events.as_slice()
    }

    fn find_record(&self, tenant_id: &TenantId, record_id: RecordId) -> (r: Option<usize>)
        requires
            self.wf_shape(),
        ensures
            match r {
                Some(i) => i < self.records@.len() && self.records@[i as int].0.0@ == tenant_id.0@
                    && self.records@[i as int].1.0 == record_id.0 && self.records().contains_key(
                    (tenant_id.0@, record_id.0),
                ) && self.records()[(tenant_id.0@, record_id.0)] == self.records@[i as int].2,
                None => !self.records().contains_key((tenant_id.0@, record_id.0)),
            },
    {
        let mut i: usize = 0;
        while i < self.records.len()
            invariant
                self.wf_shape(),
                i <= self.records@.len(),
                forall|j: int|
                    0 <= j < i ==> (rec_key_fn())(#[trigger] self.records@[j]) != (
                        tenant_id.0@,
                        record_id.0,
                    ),
            decreases self.records@.len() - i,
        {
            if self.records[i].1.0 == record_id.0 && self.records[i].0.same_as(tenant_id) {
                proof {
                    lemma_keyed_map_index(self.records@, rec_key_fn(), rec_val_fn(), i as int);
                }
                return Some(i);
            }
            i = i + 1;
        }
        proof {
            lemma_keyed_map_contains(
                self.records@,
                rec_key_fn(),
                rec_val_fn(),
                (tenant_id.0@, record_id.0),
            );
        }
        None
    }

    fn find_index(&self, tenant_id: &TenantId) -> (r: Option<usize>)
        requires
            self.wf_shape(),
        ensures
            match r {
                Some(i) => i < self.indexes@.len() && self.indexes@[i as int].0.0@ == tenant_id.0@
                    && self.indexes().contains_key(tenant_id.0@) && self.indexes()[tenant_id.0@]
                    == self.indexes@[i as int].1.entries(),
                None => !self.indexes().contains_key(tenant_id.0@),
            },
    {
        let mut i: usize = 0;
        while i < self.indexes.len()
            invariant
                self.wf_shape(),
                i <= self.indexes@.len(),
                forall|j: int|
                    0 <= j < i ==> (idx_key_fn())(#[trigger] self.indexes@[j]) != tenant_id.0@,
            decreases self.indexes@.len() - i,
        {
            if self.indexes[i].0.same_as(tenant_id) {
                proof {
                    lemma_keyed_map_index(self.indexes@, idx_key_fn(), idx_val_fn(), i as int);
                }
                return Some(i);
            }
            i = i + 1;
        }
        proof {
            lemma_keyed_map_contains(self.indexes@, idx_key_fn(), idx_val_fn(), tenant_id.0@);
        }
        None
    }
}

impl DurableIndex {
    proof fn lemma_shape_of_index(&self, t: Seq<char>)
        requires
            self.wf_shape(),
            self.indexes().contains_key(t),
        ensures
            crate::space_index::sorted_entries(self.indexes()[t]),
            distinct_ids(self.indexes()[t]),
            self.indexes()[t].len() > 0,
    {
        lemma_keyed_map_contains(self.indexes@, idx_key_fn(), idx_val_fn(), t);
        let i = choose|i: int| 0 <= i < self.indexes@.len() && (idx_key_fn())(self.indexes@[i]) == t;
        lemma_keyed_map_index(self.indexes@, idx_key_fn(), idx_val_fn(), i);
        assert(self.indexes@[i].1.wf());
    }

    /// Removes an entry from a tenant's index, dropping the index once empty.
    fn remove_entry(&mut self, tenant_id: &TenantId, e: SpaceIndexEntry)
        requires
            old(self).wf_shape(),
            index_has(old(self).indexes(), tenant_id.0@, e),
        ensures
            final(self).wf_shape(),
            final(self).records@ == old(self).records@,
            final(self).mutation_events@ == old(self).mutation_events@,
            final(self).last_sequence == old(self).last_sequence,
            forall|t: Seq<char>, x: SpaceIndexEntry| #[trigger]
                index_has(final(self).indexes(), t, x) <==> (index_has(old(self).indexes(), t, x)
                    && !(t == tenant_id.0@ && x.record_id == e.record_id)),
    {
        let i = match self.find_index(tenant_id) {
            Some(i) => i,
            None => {
                return;
            },
        };
        let ghost s = self.indexes@[i as int].1.entries();
        proof {
            self.lemma_shape_of_index(tenant_id.0@);
        }
        let (tenant, mut index) = self.indexes.remove(i);
        let removed = index.remove(e.space_key, &e.record_id);
        proof {
            let p = first_not_below(s, e, 0);
            crate::space_index::lemma_first_not_below(s, e, 0);
            lemma_remove_contains(s, p);
        }
        if index.is_empty() {
            proof {
                lemma_keyed_map_remove(old(self).indexes@, idx_key_fn(), idx_val_fn(), i as int);
                assert(old(self).indexes@.remove(i as int) =~= self.indexes@);
                assert forall|t: Seq<char>, x: SpaceIndexEntry| #[trigger]
                    index_has(self.indexes(), t, x) <==> (index_has(old(self).indexes(), t, x) && !(t
                        == tenant_id.0@ && x.record_id == e.record_id)) by {
                    if t == tenant_id.0@ && index_has(old(self).indexes(), t, x) {
                        assert(!index.entries().contains(x));
                    }
                }
                assert forall|q: int| 0 <= q < self.indexes@.len() implies {
                    let s2 = (#[trigger] self.indexes@[q]).1;
                    &&& s2.wf()
                    &&& s2.entries().len() > 0
                    &&& distinct_ids(s2.entries())
                } by {
                    if q < i {
                        assert(self.indexes@[q] == old(self).indexes@[q]);
                    } else {
                        assert(self.indexes@[q] == old(self).indexes@[q + 1]);
                    }
                }
            }
        } else {
            let entry = (tenant, index);
            proof {
                assert(self.indexes@.insert(i as int, entry) =~= old(self).indexes@.update(
                    i as int,
                    entry,
                ));
                lemma_keyed_map_update(old(self).indexes@, idx_key_fn(), idx_val_fn(), i as int, entry);
            }
            self.indexes.insert(i, entry);
            proof {
                assert forall|q: int| 0 <= q < self.indexes@.len() implies {
                    let s2 = (#[trigger] self.indexes@[q]).1;
                    &&& s2.wf()
                    &&& s2.entries().len() > 0
                    &&& distinct_ids(s2.entries())
                } by {
                    if q != i {
                        assert(self.indexes@[q] == old(self).indexes@[q]);
                    }
                }
            }
        }
    }

    /// Adds an entry to a tenant's index, creating the index if needed.
    fn insert_entry(&mut self, tenant_id: &TenantId, e: SpaceIndexEntry)
        requires
            old(self).wf_shape(),
            forall|x: SpaceIndexEntry|
                #![trigger index_has(old(self).indexes(), tenant_id.0@, x)]
                index_has(old(self).indexes(), tenant_id.0@, x) ==> x.record_id != e.record_id,
        ensures
            final(self).wf_shape(),
            final(self).records@ == old(self).records@,
            final(self).mutation_events@ == old(self).mutation_events@,
            final(self).last_sequence == old(self).last_sequence,
            forall|t: Seq<char>, x: SpaceIndexEntry| #[trigger]
                index_has(final(self).indexes(), t, x) <==> (index_has(old(self).indexes(), t, x) || (
                t == tenant_id.0@ && x == e)),
    {
        match self.find_index(tenant_id) {
            Some(i) => {
                let ghost s = self.indexes@[i as int].1.entries();
                proof {
                    self.lemma_shape_of_index(tenant_id.0@);
                    assert forall|q: int| 0 <= q < s.len() implies (#[trigger] s[q]).record_id
                        != e.record_id by {
                        assert(index_has(old(self).indexes(), tenant_id.0@, s[q]));
                    }
                    crate::space_index::lemma_first_not_below(s, e, 0);
                    lemma_insert_contains(s, first_not_below(s, e, 0), e);
                }
                let (tenant, mut index) = self.indexes.remove(i);
                index.insert(e.space_key, &e.record_id);
                let entry = (tenant, index);
                proof {
                    assert(self.indexes@.insert(i as int, entry) =~= old(self).indexes@.update(
                        i as int,
                        entry,
                    ));
                    lemma_keyed_map_update(old(self).indexes@, idx_key_fn(), idx_val_fn(), i as int, entry);
                }
                self.indexes.insert(i, entry);
                proof {
                    assert forall|q: int| 0 <= q < self.indexes@.len() implies {
                        let s2 = (#[trigger] self.indexes@[q]).1;
                        &&& s2.wf()
                        &&& s2.entries().len() > 0
                        &&& distinct_ids(s2.entries())
                    } by {
                        if q != i {
                            assert(self.indexes@[q] == old(self).indexes@[q]);
                        }
                    }
                }
            },
            None => {
                let mut index = TenantSpaceIndex::new();
                index.insert(e.space_key, &e.record_id);
                let entry = (tenant_id.duplicate(), index);
                proof {
                    assert(first_not_below(Seq::<SpaceIndexEntry>::empty(), e, 0) == 0);
                    assert(index.entries() =~= seq![e]);
                    lemma_keyed_map_push(self.indexes@, idx_key_fn(), idx_val_fn(), entry);
                }
                self.indexes.push(entry);
                proof {
                    assert forall|q: int| 0 <= q < self.indexes@.len() implies {
                        let s2 = (#[trigger] self.indexes@[q]).1;
                        &&& s2.wf()
                        &&& s2.entries().len() > 0
                        &&& distinct_ids(s2.entries())
                    } by {
                        if q < old(self).indexes@.len() {
                            assert(self.indexes@[q] == old(self).indexes@[q]);
                        }
                    }
                    assert forall|t: Seq<char>, x: SpaceIndexEntry| #[trigger]
                        index_has(self.indexes(), t, x) <==> (index_has(old(self).indexes(), t, x) || (t
                            == tenant_id.0@ && x == e)) by {
                        if t == tenant_id.0@ && x == e {
                            assert(seq![e][0] == e);
                        }
                    }
                }
            },
        }
    }

    /// Sets a record's space key (or its absence), adding the record if new.
    fn put_record(&mut self, tenant_id: &TenantId, record_id: RecordId, space_key: Option<u128>)
        requires
            old(self).wf_shape(),
        ensures
            final(self).wf_shape(),
            final(self).indexes@ == old(self).indexes@,
            final(self).mutation_events@ == old(self).mutation_events@,
            final(self).last_sequence == old(self).last_sequence,
            final(self).records() == old(self).records().insert(
                (tenant_id.0@, record_id.0),
                space_key,
            ),
    {
        let entry = (tenant_id.duplicate(), record_id, space_key);
        match self.find_record(tenant_id, record_id) {
            Some(i) => {
                let _old_entry = self.records.remove(i);
                proof {
                    assert(self.records@.insert(i as int, entry) =~= old(self).records@.update(
                        i as int,
                        entry,
                    ));
                    lemma_keyed_map_update(old(self).records@, rec_key_fn(), rec_val_fn(), i as int, entry);
                }
                self.records.insert(i, entry);
            },
            None => {
                proof {
                    lemma_keyed_map_push(self.records@, rec_key_fn(), rec_val_fn(), entry);
                }
                self.records.push(entry);
            },
        }
    }

    /// Drops a record.
    fn drop_record(&mut self, tenant_id: &TenantId, record_id: RecordId)
        requires
            old(self).wf_shape(),
        ensures
            final(self).wf_shape(),
            final(self).indexes@ == old(self).indexes@,
            final(self).mutation_events@ == old(self).mutation_events@,
            final(self).last_sequence == old(self).last_sequence,
            final(self).records() == old(self).records().remove((tenant_id.0@, record_id.0)),
    {
        match self.find_record(tenant_id, record_id) {
            Some(i) => {
                proof {
                    lemma_keyed_map_remove(self.records@, rec_key_fn(), rec_val_fn(), i as int);
                }
                let _old_entry = self.records.remove(i);
            },
            None => {
                assert(old(self).records().remove((tenant_id.0@, record_id.0)) =~= old(
                    self,
                ).records());
            },
        }
    }

    /// Applies a committed upsert: the record now exists under `space_key`.
    /// Tells whether it was an insert or an update.
    pub fn apply_upsert(
        &mut self,
        tenant_id: &TenantId,
        record_id: RecordId,
        space_key: Option<u128>,
        sequence: u64,
        committed_at: i64,
    ) -> (r: MutationType)
        requires
            old(self).wf(),
        ensures
            final(self).wf(),
            r == (if old(self).records().contains_key((tenant_id.0@, record_id.0)) {
                MutationType::Update
            } else {
                MutationType::Insert
            }),
            final(self).records() == old(self).records().insert(
                (tenant_id.0@, record_id.0),
                space_key,
            ),
            final(self).events() == old(self).events().push(
                MutationEvent {
                    tenant_id: *tenant_id,
                    record_id,
                    mutation_type: r,
                    commit_sequence: sequence,
                    committed_at,
                },
            ),
            final(self).last() == (if old(self).last() >= sequence {
                old(self).last()
            } else {
                sequence
            }),
    {
        let ghost t = tenant_id.0@;
        let (mutation_type, previous) = match self.find_record(tenant_id, record_id) {
            Some(i) => (MutationType::Update, self.records[i].2),
            None => (MutationType::Insert, None),
        };
        self.mutation_events.push(
            MutationEvent {
                tenant_id: tenant_id.duplicate(),
                record_id,
                mutation_type,
                commit_sequence: sequence,
                committed_at,
            },
        );
        if sequence > self.last_sequence {
            self.last_sequence = sequence;
        }
        assert(self.records@ == old(self).records@ && self.indexes@ == old(self).indexes@);
        assert(self.indexes() == old(self).indexes() && self.records() == old(self).records());
        assert(self.wf_shape());
        let ghost old_indexes = self.indexes();
        if let Some(k) = previous {
            let e = SpaceIndexEntry { space_key: k, record_id };
            assert(record_at(self.records(), t, e));
            self.remove_entry(tenant_id, e);
        }
        let ghost mid_indexes = self.indexes();
        proof {
            assert forall|x: SpaceIndexEntry|
                #![trigger index_has(mid_indexes, t, x)]
                index_has(mid_indexes, t, x) ==> x.record_id != record_id by {
                if index_has(mid_indexes, t, x) && x.record_id == record_id {
                    assert(index_has(old_indexes, t, x));
                    assert(record_at(old(self).records(), t, x));
                }
            }
        }
        self.put_record(tenant_id, record_id, space_key);
        if let Some(k2) = space_key {
            self.insert_entry(tenant_id, SpaceIndexEntry { space_key: k2, record_id });
        }
        proof {
            assert forall|t2: Seq<char>, x: SpaceIndexEntry| #[trigger]
                index_has(self.indexes(), t2, x) <==> record_at(self.records(), t2, x) by {
                if !(t2 == t && x.record_id == record_id) {
                    assert(index_has(old_indexes, t2, x) <==> record_at(old(self).records(), t2, x));
                }
            }
        }
        mutation_type
    }

    /// Applies a committed delete; tells whether the record existed.
    pub fn apply_delete(
        &mut self,
        tenant_id: &TenantId,
        record_id: RecordId,
        sequence: u64,
        committed_at: i64,
    ) -> (r: bool)
        requires
            old(self).wf(),
        ensures
            final(self).wf(),
            r == old(self).records().contains_key((tenant_id.0@, record_id.0)),
            final(self).records() == old(self).records().remove((tenant_id.0@, record_id.0)),
            final(self).events() == old(self).events().push(
                MutationEvent {
                    tenant_id: *tenant_id,
                    record_id,
                    mutation_type: MutationType::Delete,
                    commit_sequence: sequence,
                    committed_at,
                },
            ),
            final(self).last() == (if old(self).last() >= sequence {
                old(self).last()
            } else {
                sequence
            }),
    {
        let ghost t = tenant_id.0@;
        let (existed, previous) = match self.find_record(tenant_id, record_id) {
            Some(i) => (true, self.records[i].2),
            None => (false, None),
        };
        self.mutation_events.push(
            MutationEvent {
                tenant_id: tenant_id.duplicate(),
                record_id,
                mutation_type: MutationType::Delete,
                commit_sequence: sequence,
                committed_at,
            },
        );
        if sequence > self.last_sequence {
            self.last_sequence = sequence;
        }
        assert(self.records@ == old(self).records@ && self.indexes@ == old(self).indexes@);
        assert(self.indexes() == old(self).indexes() && self.records() == old(self).records());
        assert(self.wf_shape());
        let ghost old_indexes = self.indexes();
        if let Some(k) = previous {
            let e = SpaceIndexEntry { space_key: k, record_id };
            assert(record_at(self.records(), t, e));
            self.remove_entry(tenant_id, e);
        }
        let ghost mid = self.indexes();
        proof {
            if previous is Some {
                assert forall|x: SpaceIndexEntry| #[trigger] index_has(mid, t, x) implies x.record_id
                    != record_id by {}
            }
        }
        self.drop_record(tenant_id, record_id);
        assert(self.indexes() == mid);
        proof {
            assert forall|t2: Seq<char>, x: SpaceIndexEntry| #[trigger]
                index_has(self.indexes(), t2, x) <==> record_at(self.records(), t2, x) by {
                if !(t2 == t && x.record_id == record_id) {
                    assert(index_has(old_indexes, t2, x) <==> record_at(old(self).records(), t2, x));
                } else {
                    assert(!self.records().contains_key((t2, x.record_id.0)));
                    if previous is None {
                        if index_has(old_indexes, t2, x) {
                            assert(record_at(old(self).records(), t2, x));
                        }
                        assert(!index_has(self.indexes(), t2, x));
                    } else {
                        assert(!index_has(self.indexes(), t2, x));
                    }
                }
            }
            assert(self.wf_shape());
        }
        existed
    }
}

/// The key lies in one of the ranges.
pub open spec fn in_some_range(ranges: Seq<KeyRange>, key: u128) -> bool {
    exists|j: int| 0 <= j < ranges.len() && #[trigger] ranges[j].min <= key && key <= ranges[j].max
}

/// The tenant's record of that id exists under a key in one of the ranges.
pub open spec fn record_in_ranges(
    recs: Map<(Seq<char>, u64), Option<u128>>,
    t: Seq<char>,
    id: RecordId,
    ranges: Seq<KeyRange>,
) -> bool {
    recs.contains_key((t, id.0)) && (recs[(t, id.0)] matches Some(k) && in_some_range(ranges, k))
}

pub open spec fn ids_ascending(s: Seq<RecordId>) -> bool {
    forall|i: int, j: int| 0 <= i < j < s.len() ==> (#[trigger] s[i]).0 < (#[trigger] s[j]).0
}

/// Adds an id to an ascending list of distinct ids, keeping it so.
pub(crate) fn insert_id(out: &mut Vec<RecordId>, id: RecordId)
    requires
        ids_ascending(old(out)@),
    ensures
        ids_ascending(final(out)@),
        forall|x: RecordId| #[trigger] final(out)@.contains(x) <==> (old(out)@.contains(x) || x == id),
{
    let mut p: usize = 0;
    while p < out.len() && out[p].0 < id.0
        invariant
            p <= out@.len(),
            forall|q: int| 0 <= q < p ==> (#[trigger] out@[q]).0 < id.0,
        decreases out@.len() - p,
    {
        p = p + 1;
    }
    if p < out.len() && out[p].0 == id.0 {
        assert(out@[p as int] == id);
        return;
    }
    let ghost s = out@;
    out.insert(p, id);
    proof {
        let u = out@;
        assert forall|i: int, j: int| 0 <= i < j < u.len() implies (#[trigger] u[i]).0 < (
        #[trigger] u[j]).0 by {
            if j < p {
                assert(u[i] == s[i] && u[j] == s[j]);
            } else if j == p {
                assert(u[i] == s[i]);
            } else if i < p {
                assert(u[i] == s[i] && u[j] == s[j - 1]);
            } else if i == p {
                assert(u[j] == s[j - 1]);
                if j - 1 > p {
                    assert(s[p as int].0 < s[j - 1].0);
                }
            } else {
                assert(u[i] == s[i - 1] && u[j] == s[j - 1]);
            }
        }
        assert forall|x: RecordId| #[trigger] u.contains(x) <==> (s.contains(x) || x == id) by {
            if u.contains(x) {
                let k = choose|k: int| 0 <= k < u.len() && u[k] == x;
                if k < p {
                    assert(s[k] == x);
                } else if k > p {
                    assert(s[k - 1] == x);
                }
            }
            if s.contains(x) {
                let k = choose|k: int| 0 <= k < s.len() && s[k] == x;
                if k < p {
                    assert(u[k] == x);
                } else {
                    assert(u[k + 1] == x);
                }
            }
            if x == id {
                assert(u[p as int] == x);
            }
        }
    }
}

impl DurableIndex {
    /// The ids, ascending and each once, of the tenant's records whose space
    /// key lies in one of the ranges.
    pub fn candidate_ids_for_key_ranges(&self, tenant_id: &TenantId, ranges: &[KeyRange]) -> (r: Vec<
        RecordId,
    >)
        requires
            self.wf(),
        ensures
            ids_ascending(r@),
            forall|id: RecordId| #[trigger]
                r@.contains(id) <==> record_in_ranges(self.records(), tenant_id.0@, id, ranges@),
    {
        let ghost t = tenant_id.0@;
        let mut out: Vec<RecordId> = Vec::new();
        if ranges.len() == 0 {
            proof {
                assert forall|id: RecordId| #[trigger]
                    out@.contains(id) <==> record_in_ranges(self.records(), t, id, ranges@) by {}
            }
            return out;
        }
        let i = match self.find_index(tenant_id) {
            Some(i) => i,
            None => {
                proof {
                    assert forall|id: RecordId| #[trigger]
                        out@.contains(id) <==> record_in_ranges(self.records(), t, id, ranges@) by {
                        if self.records().contains_key((t, id.0)) && self.records()[(t, id.0)] is Some {
                            let k = self.records()[(t, id.0)]->Some_0;
                            let e = SpaceIndexEntry { space_key: k, record_id: id };
                            assert(!index_has(self.indexes(), t, e));
                            assert(!record_at(self.records(), t, e));
                        }
                    }
                }
                return out;
            },
        };
        let index = &self.indexes[i].1;
        let ghost entries = index.entries();
        proof {
            self.lemma_shape_of_index(t);
        }
        let mut j: usize = 0;
        while j < ranges.len()
            invariant
                self.wf(),
                entries == index.entries(),
                entries == self.indexes()[t],
                self.indexes().contains_key(t),
                index.wf(),
                j <= ranges@.len(),
                ids_ascending(out@),
                forall|id: RecordId| #[trigger]
                    out@.contains(id) <==> exists|q: int|
                        #![trigger entries[q]]
                        0 <= q < entries.len() && entries[q].record_id == id && in_some_range(
                            ranges@.take(j as int),
                            entries[q].space_key,
                        ),
            decreases ranges@.len() - j,
        {
            let range = ranges[j];
            let candidates = index.range_candidates(range.min, range.max);
            proof {
                lemma_range_candidates_members(entries, range.min, range.max);
            }
            let ghost before = out@;
            let mut m: usize = 0;
            while m < candidates.len()
                invariant
                    ids_ascending(out@),
                    m <= candidates@.len(),
                    forall|id: RecordId| #[trigger]
                        out@.contains(id) <==> (before.contains(id) || candidates@.take(
                            m as int,
                        ).contains(id)),
                decreases candidates@.len() - m,
            {
                insert_id(&mut out, candidates[m]);
                proof {
                    assert forall|id: RecordId| #[trigger]
                        out@.contains(id) <==> (before.contains(id) || candidates@.take(
                            m + 1,
                        ).contains(id)) by {
                        if candidates@.take(m + 1).contains(id) {
                            let k = choose|k: int| 0 <= k < m + 1 && #[trigger] candidates@.take(m + 1)[k] == id;
                            if k < m {
                                assert(candidates@.take(m as int)[k] == id);
                            }
                        }
                        if candidates@.take(m as int).contains(id) {
                            let k = choose|k: int| 0 <= k < m && #[trigger] candidates@.take(m as int)[k] == id;
                            assert(candidates@.take(m + 1)[k] == id);
                        }
                        if id == candidates@[m as int] {
                            assert(candidates@.take(m + 1)[m as int] == id);
                        }
                    }
                }
                m = m + 1;
            }
            proof {
                assert(candidates@.take(m as int) =~= candidates@);
                assert forall|id: RecordId| #[trigger]
                    out@.contains(id) <==> exists|q: int|
                        #![trigger entries[q]]
                        0 <= q < entries.len() && entries[q].record_id == id && in_some_range(
                            ranges@.take(j + 1),
                            entries[q].space_key,
                        ) by {
                    if out@.contains(id) {
                        if before.contains(id) {
                            let q = choose|q: int|
                                #![trigger entries[q]]
                                0 <= q < entries.len() && entries[q].record_id == id && in_some_range(
                                    ranges@.take(j as int),
                                    entries[q].space_key,
                                );
                            let jj = choose|jj: int|
                                0 <= jj < ranges@.take(j as int).len() && #[trigger] ranges@.take(
                                    j as int,
                                )[jj].min <= entries[q].space_key && entries[q].space_key
                                    <= ranges@.take(j as int)[jj].max;
                            assert(ranges@.take(j + 1)[jj] == ranges@.take(j as int)[jj]);
                        } else {
                            assert(candidates@.contains(id));
                            let q = choose|q: int|
                                0 <= q < entries.len() && entries[q].record_id == id && range.min
                                    <= entries[q].space_key <= range.max;
                            assert(ranges@.take(j + 1)[j as int] == range);
                        }
                    }
                    if exists|q: int|
                        #![trigger entries[q]]
                        0 <= q < entries.len() && entries[q].record_id == id && in_some_range(
                            ranges@.take(j + 1),
                            entries[q].space_key,
                        ) {
                        let q = choose|q: int|
                            #![trigger entries[q]]
                            0 <= q < entries.len() && entries[q].record_id == id && in_some_range(
                                ranges@.take(j + 1),
                                entries[q].space_key,
                            );
                        let jj = choose|jj: int|
                            0 <= jj < ranges@.take(j + 1).len() && #[trigger] ranges@.take(
                                j + 1,
                            )[jj].min <= entries[q].space_key && entries[q].space_key <= ranges@.take(
                                j + 1,
                            )[jj].max;
                        if jj < j {
                            assert(ranges@.take(j as int)[jj] == ranges@.take(j + 1)[jj]);
                            assert(in_some_range(ranges@.take(j as int), entries[q].space_key));
                            assert(before.contains(id));
                        } else {
                            assert(ranges@.take(j + 1)[jj] == range);
                            assert(candidates@.contains(id));
                        }
                    }
                }
            }
            j = j + 1;
        }
        proof {
            assert(ranges@.take(ranges@.len() as int) =~= ranges@);
            assert forall|id: RecordId| #[trigger]
                out@.contains(id) <==> record_in_ranges(self.records(), t, id, ranges@) by {
                if out@.contains(id) {
                    let q = choose|q: int|
                        #![trigger entries[q]]
                        0 <= q < entries.len() && entries[q].record_id == id && in_some_range(
                            ranges@,
                            entries[q].space_key,
                        );
                    assert(index_has(self.indexes(), t, entries[q]));
                    assert(record_at(self.records(), t, entries[q]));
                }
                if self.records().contains_key((t, id.0)) && self.records()[(t, id.0)] is Some {
                    let k = self.records()[(t, id.0)]->Some_0;
                    let e = SpaceIndexEntry { space_key: k, record_id: id };
                    assert(record_at(self.records(), t, e));
                    assert(index_has(self.indexes(), t, e));
                    if in_some_range(ranges@, k) {
                        let q = choose|q: int| 0 <= q < entries.len() && entries[q] == e;
                        assert(entries[q].record_id == id);
                    }
                }
            }
        }
        out
    }
}

} // verus!
