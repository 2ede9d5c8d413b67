//! A tenant's index of records by space key: entries sorted by key, then by
//! record id, answering which records fall in a range of keys.
use vstd::prelude::*;

use crate::query::KeyRange;
use crate::types::RecordId;

verus! {

#[derive(Debug, Clone, Copy, PartialEq, Eq, Structural)]
pub struct SpaceIndexEntry {
    pub space_key: u128,
    pub record_id: RecordId,
}

/// `a` orders strictly before `b`: by key, then by record id.
pub open spec fn entry_lt(a: SpaceIndexEntry, b: SpaceIndexEntry) -> bool {
    a.space_key < b.space_key || (a.space_key == b.space_key && a.record_id.0 < b.record_id.0)
}

pub open spec fn sorted_entries(s: Seq<SpaceIndexEntry>) -> bool {
    forall|i: int, j: int| 0 <= i < j < s.len() ==> !entry_lt(#[trigger] s[j], #[trigger] s[i])
}

/// The first position from `i` whose entry does not order before `e`.
pub open spec fn first_not_below(s: Seq<SpaceIndexEntry>, e: SpaceIndexEntry, i: int) -> int
    decreases s.len() - i,
{
    if i < 0 || i >= s.len() || !entry_lt(s[i], e) {
        i
    } else {
        first_not_below(s, e, i + 1)
    }
}

/// The record ids of the entries whose key lies in `[min, max]`, in order.
pub open spec fn ids_in_range(s: Seq<SpaceIndexEntry>, min: u128, max: u128) -> Seq<RecordId>
    decreases s.len(),
{
    if s.len() == 0 {
        Seq::empty()
    } else {
        let rest = ids_in_range(s.drop_last(), min, max);
        if min <= s.last().space_key && s.last().space_key <= max {
            rest.push(s.last().record_id)
        } else {
            rest
        }
    }
}

pub proof fn lemma_first_not_below(s: Seq<SpaceIndexEntry>, e: SpaceIndexEntry, i: int)
    requires
        0 <= i <= s.len(),
    ensures
        i <= first_not_below(s, e, i) <= s.len(),
        forall|q: int| i <= q < first_not_below(s, e, i) ==> entry_lt(#[trigger] s[q], e),
        first_not_below(s, e, i) < s.len() ==> !entry_lt(s[first_not_below(s, e, i)], e),
    decreases s.len() - i,
{
    if i < s.len() && entry_lt(s[i], e) {
        lemma_first_not_below(s, e, i + 1);
    }
}

proof fn lemma_ids_in_range_split(s: Seq<SpaceIndexEntry>, min: u128, max: u128, p: int)
    requires
        0 <= p <= s.len(),
    ensures
        ids_in_range(s, min, max) == ids_in_range(s.take(p), min, max) + ids_in_range(
            s.skip(p),
            min,
            max,
        ),
    decreases s.len(),
{
    if p < s.len() {
        lemma_ids_in_range_split(s.drop_last(), min, max, p);
        assert(s.drop_last().take(p) =~= s.take(p));
        assert(s.skip(p).drop_last() =~= s.drop_last().skip(p));
        assert(s.skip(p).last() == s.last());
    } else {
        assert(s.take(p) =~= s);
        assert(s.skip(p) =~= Seq::<SpaceIndexEntry>::empty());
        assert(ids_in_range(s.skip(p), min, max) =~= Seq::<RecordId>::empty());
    }
}

proof fn lemma_ids_in_range_none(s: Seq<SpaceIndexEntry>, min: u128, max: u128)
    requires
        forall|q: int| 0 <= q < s.len() ==> !(min <= (#[trigger] s[q]).space_key <= max),
    ensures
        ids_in_range(s, min, max) == Seq::<RecordId>::empty(),
    decreases s.len(),
{
    if s.len() > 0 {
        lemma_ids_in_range_none(s.drop_last(), min, max);
        assert(s[s.len() - 1] == s.last());
    }
}

/// A tenant's space index.
#[derive(Debug, Clone, PartialEq, Eq)]
pub struct TenantSpaceIndex {
    entries: Vec<SpaceIndexEntry>,
}

impl TenantSpaceIndex {
    pub closed spec fn entries(&self) -> Seq<SpaceIndexEntry> {
        self.entries@
    }

    pub open spec fn wf(&self) -> bool {
        sorted_entries(self.entries())
    }

    pub fn new() -> (r: Self)
        ensures
            r.wf(),
            r.entries() == Seq::<SpaceIndexEntry>::empty(),
    {
        TenantSpaceIndex { entries: Vec::new() }
    }

    fn position_of(&self, e: SpaceIndexEntry) -> (p: usize)
        requires
            self.wf(),
        ensures
            p == first_not_below(self.entries(), e, 0),
            p <= self.entries().len(),
    {
        let mut p: usize = 0;
        while p < self.entries.len() && entry_less(&self.entries[p], &e)
            invariant
                p <= self.entries@.len(),
                first_not_below(self.entries@, e, p as int) == first_not_below(self.entries@, e, 0),
            decreases self.entries@.len() - p,
        {
            p = p + 1;
        }
        p
    }

    /// Adds an entry at its place in key order.
    pub fn insert(&mut self, space_key: u128, record_id: &RecordId)
        requires
            old(self).wf(),
        ensures
            final(self).wf(),
            ({
                let e = SpaceIndexEntry { space_key, record_id: *record_id };
                final(self).entries() == old(self).entries().insert(
                    first_not_below(old(self).entries(), e, 0),
                    e,
                )
            }),
    {
        let e = SpaceIndexEntry { space_key, record_id: *record_id };
        let p = self.position_of(e);
        proof {
            lemma_first_not_below(self.entries@, e, 0);
        }
        self.entries.insert(p, e);
        proof {
            let s = old(self).entries@;
            let t = self.entries@;
            assert forall|i: int, j: int| 0 <= i < j < t.len() implies !entry_lt(
                #[trigger] t[j],
                #[trigger] t[i],
            ) by {
                if j < p {
                    assert(t[i] == s[i] && t[j] == s[j]);
                } else if j == p {
                    assert(t[i] == s[i]);
                    assert(entry_lt(s[i], e));
                } else if i < p {
                    assert(t[i] == s[i] && t[j] == s[j - 1]);
                } else if i == p {
                    assert(t[j] == s[j - 1]);
                    assert(!entry_lt(s[p as int], e));
                    if j - 1 > p {
                        assert(!entry_lt(s[j - 1], s[p as int]));
                    }
                } else {
                    assert(t[i] == s[i - 1] && t[j] == s[j - 1]);
                }
            }
        }
    }

    /// Removes an entry; tells whether it was there.
    pub fn remove(&mut self, space_key: u128, record_id: &RecordId) -> (r: bool)
        requires
            old(self).wf(),
        ensures
            final(self).wf(),
            ({
                let e = SpaceIndexEntry { space_key, record_id: *record_id };
                &&& r == old(self).entries().contains(e)
                &&& r ==> first_not_below(old(self).entries(), e, 0) < old(self).entries().len()
                    && old(self).entries()[first_not_below(old(self).entries(), e, 0)] == e
                &&& final(self).entries() == if r {
                    old(self).entries().remove(first_not_below(old(self).entries(), e, 0))
                } else {
                    old(self).entries()
                }
            }),
    {
        let e = SpaceIndexEntry { space_key, record_id: *record_id };
        let p = self.position_of(e);
        proof {
            lemma_first_not_below(self.entries@, e, 0);
            let s = self.entries@;
            if s.contains(e) {
                let q = choose|q: int| 0 <= q < s.len() && s[q] == e;
                assert(!entry_lt(s[q], e));
                assert(p <= q);
                if p < q {
                    assert(!entry_lt(s[q], s[p as int]));
                }
            }
        }
        if p < self.entries.len() && self.entries[p].space_key == space_key
            && self.entries[p].record_id.0 == record_id.0 {
            self.entries.remove(p);
            proof {
                let s = old(self).entries@;
                let t = self.entries@;
                assert(s[p as int] == e);
                assert forall|i: int, j: int| 0 <= i < j < t.len() implies !entry_lt(
                    #[trigger] t[j],
                    #[trigger] t[i],
                ) by {
                    let i2 = if i < p {
                        i
                    } else {
                        i + 1
                    };
                    let j2 = if j < p {
                        j
                    } else {
                        j + 1
                    };
                    assert(t[i] == s[i2] && t[j] == s[j2]);
                }
            }
            true
        } else {
            false
        }
    }

    pub fn is_empty(&self) -> (r: bool)
        ensures
            r == (self.entries().len() == 0),
    {
        self.entries.len() == 0
    }

    /// The records whose key lies in `[min_key, max_key]`, in key order.
    pub fn range_candidates(&self, min_key: u128, max_key: u128) -> (r: Vec<RecordId>)
        requires
            self.wf(),
        ensures
            r@ == ids_in_range(self.entries(), min_key, max_key),
    {
        let s = &self.entries;
        let ghost sv = s@;
        let n = s.len();
        let start = self.position_of(SpaceIndexEntry { space_key: min_key, record_id: RecordId(0) });
        proof {
            let e = SpaceIndexEntry { space_key: min_key, record_id: RecordId(0) };
            lemma_first_not_below(sv, e, 0);
            assert forall|q: int| 0 <= q < sv.take(start as int).len() implies !(min_key <= (
            #[trigger] sv.take(start as int)[q]).space_key <= max_key) by {
                assert(sv.take(start as int)[q] == sv[q]);
                assert(entry_lt(sv[q], e));
            }
            lemma_ids_in_range_none(sv.take(start as int), min_key, max_key);
            lemma_ids_in_range_split(sv, min_key, max_key, start as int);
        }
        let mut out: Vec<RecordId> = Vec::new();
        let mut i: usize = start;
        while i < n && s[i].space_key <= max_key
            invariant
                sv == s@,
                sorted_entries(sv),
                n == sv.len(),
                start <= i <= n,
                start < n ==> min_key <= sv[start as int].space_key,
                out@ == ids_in_range(sv.subrange(start as int, i as int), min_key, max_key),
            decreases n - i,
        {
            let ghost t = sv.subrange(start as int, i + 1);
            assert(t.drop_last() =~= sv.subrange(start as int, i as int));
            assert(t.last() == sv[i as int]);
            if i > start {
                assert(!entry_lt(sv[i as int], sv[start as int]));
            }
            out.push(s[i].record_id);
            i = i + 1;
        }
        proof {
            assert(sv.skip(start as int) =~= sv.subrange(start as int, i as int) + sv.skip(i as int));
            lemma_ids_in_range_split(sv.skip(start as int), min_key, max_key, i - start);
            assert(sv.skip(start as int).take(i - start) =~= sv.subrange(start as int, i as int));
            assert(sv.skip(start as int).skip(i - start) =~= sv.skip(i as int));
            if i < n {
                assert forall|q: int| 0 <= q < sv.skip(i as int).len() implies !(min_key <= (
                #[trigger] sv.skip(i as int)[q]).space_key <= max_key) by {
                    assert(sv.skip(i as int)[q] == sv[i + q]);
                    if q > 0 {
                        assert(!entry_lt(sv[i + q], sv[i as int]));
                    }
                }
            } else {
                assert(sv.skip(i as int) =~= Seq::<SpaceIndexEntry>::empty());
            }
            lemma_ids_in_range_none(sv.skip(i as int), min_key, max_key);
            assert(out@ =~= ids_in_range(sv, min_key, max_key));
        }
        out
    }
}

fn entry_less(a: &SpaceIndexEntry, b: &SpaceIndexEntry) -> (r: bool)
    ensures
        r == entry_lt(*a, *b),
{
    a.space_key < b.space_key || (a.space_key == b.space_key && a.record_id.0 < b.record_id.0)
}

/// The ids a range query of a key range returns are exactly those of the
/// entries whose key lies in the range.
pub proof fn lemma_range_candidates_members(s: Seq<SpaceIndexEntry>, min: u128, max: u128)
    ensures
        forall|id: RecordId| #[trigger] ids_in_range(s, min, max).contains(id) <==> exists|q: int|
            0 <= q < s.len() && s[q].record_id == id && min <= s[q].space_key <= max,
    decreases s.len(),
{
    if s.len() > 0 {
        let t = s.drop_last();
        lemma_range_candidates_members(t, min, max);
        let r = ids_in_range(s, min, max);
        let rt = ids_in_range(t, min, max);
        assert forall|id: RecordId| #[trigger] r.contains(id) <==> exists|q: int|
            0 <= q < s.len() && s[q].record_id == id && min <= s[q].space_key <= max by {
            if r.contains(id) {
                let k = choose|k: int| 0 <= k < r.len() && r[k] == id;
                if k < rt.len() {
                    assert(rt[k] == id);
                    assert(rt.contains(id));
                    let q = choose|q: int|
                        0 <= q < t.len() && t[q].record_id == id && min <= t[q].space_key <= max;
                    assert(s[q] == t[q]);
                } else {
                    assert(s[s.len() - 1].record_id == id);
                }
            }
            if exists|q: int| 0 <= q < s.len() && s[q].record_id == id && min <= s[q].space_key <= max {
                let q = choose|q: int|
                    0 <= q < s.len() && s[q].record_id == id && min <= s[q].space_key <= max;
                if q < s.len() - 1 {
                    assert(t[q] == s[q]);
                    assert(rt.contains(id));
                    let k = choose|k: int| 0 <= k < rt.len() && rt[k] == id;
                    assert(r[k] == id);
                } else {
                    assert(r[r.len() - 1] == id);
                }
            }
        }

    }
}

} // verus!
