//! Candidate generation: which of a tenant's hot records a query looks at,
//! narrowed by the key ranges of its candidate hint.
use vstd::prelude::*;

use crate::durable_index::{ids_ascending, in_some_range, record_in_ranges, DurableIndex};
use crate::query::{CandidateGenerationHint, KeyRange};
use crate::types::{RecordId, TenantId};

verus! {

/// A hot record as candidate generation reads it: whose it is, its id, its
/// space key, and whether its structured fields satisfy the query's predicates.
#[derive(Debug, Clone, PartialEq, Eq)]
pub struct HotCandidate {
    pub tenant_id: TenantId,
    pub record_id: RecordId,
    pub space_key: Option<u128>,
    pub matches_predicates: bool,
}

/// No two hot records share tenant and id.
pub open spec fn hot_keys_unique(hot: Seq<HotCandidate>) -> bool {
    forall|i: int, j: int|
        0 <= i < j < hot.len() ==> !((#[trigger] hot[i]).tenant_id.0@ == (#[trigger] hot[j]).tenant_id.0@
            && hot[i].record_id == hot[j].record_id)
}

/// The hint's key ranges let a record with this space key through: there are
/// no ranges, the record has no key, or its key lies in one of them.
pub open spec fn ranges_admit(space_key: Option<u128>, ranges: Seq<KeyRange>) -> bool {
    ranges.len() == 0 || match space_key {
        Some(k) => in_some_range(ranges, k),
        None => true,
    }
}

pub open spec fn hint_ranges(hint: Option<CandidateGenerationHint>) -> Seq<KeyRange> {
    match hint {
        Some(h) => h.key_ranges@,
        None => Seq::empty(),
    }
}

/// The record qualifies: it is the tenant's, it satisfies the predicates and
/// the ranges let it through.
pub open spec fn qualifies(h: HotCandidate, t: Seq<char>, ranges: Seq<KeyRange>) -> bool {
    h.tenant_id.0@ == t && h.matches_predicates && ranges_admit(h.space_key, ranges)
}

/// The tenant's hot record of this id qualifies.
pub open spec fn hot_qualifies(
    hot: Seq<HotCandidate>,
    t: Seq<char>,
    id: RecordId,
    ranges: Seq<KeyRange>,
) -> bool {
    exists|i: int| 0 <= i < hot.len() && (#[trigger] hot[i]).record_id == id && qualifies(hot[i], t, ranges)
}

/// The first `n` range candidates whose hot record qualifies, in order.
pub open spec fn ranged_part(
    cands: Seq<RecordId>,
    hot: Seq<HotCandidate>,
    t: Seq<char>,
    ranges: Seq<KeyRange>,
    n: int,
) -> Seq<RecordId>
    decreases n,
{
    if n <= 0 {
        Seq::empty()
    } else {
        let prev = ranged_part(cands, hot, t, ranges, n - 1);
        if hot_qualifies(hot, t, cands[n - 1], ranges) {
            prev.push(cands[n - 1])
        } else {
            prev
        }
    }
}

/// Among the first `n` hot records, those of the tenant without a space key,
/// not already taken, that satisfy the predicates, in order.
pub open spec fn unkeyed_part(
    hot: Seq<HotCandidate>,
    t: Seq<char>,
    taken: Seq<RecordId>,
    n: int,
) -> Seq<RecordId>
    decreases n,
{
    if n <= 0 {
        Seq::empty()
    } else {
        let prev = unkeyed_part(hot, t, taken, n - 1);
        let h = hot[n - 1];
        if h.tenant_id.0@ == t && h.space_key is None && !taken.contains(h.record_id)
            && h.matches_predicates {
            prev.push(h.record_id)
        } else {
            prev
        }
    }
}

/// Among the first `n` hot records, those that qualify, in order.
pub open spec fn plain_part(
    hot: Seq<HotCandidate>,
    t: Seq<char>,
    ranges: Seq<KeyRange>,
    n: int,
) -> Seq<RecordId>
    decreases n,
{
    if n <= 0 {
        Seq::empty()
    } else {
        let prev = plain_part(hot, t, ranges, n - 1);
        if qualifies(hot[n - 1], t, ranges) {
            prev.push(hot[n - 1].record_id)
        } else {
            prev
        }
    }
}

/// The candidates of a query: with key ranges, the range candidates whose
/// record qualifies, then the tenant's records without a space key; without,
/// every qualifying record of the tenant in the order the hot records come.
pub open spec fn candidates_spec(
    cands: Seq<RecordId>,
    hot: Seq<HotCandidate>,
    t: Seq<char>,
    ranges: Seq<KeyRange>,
) -> Seq<RecordId> {
    if ranges.len() > 0 {
        let first = ranged_part(cands, hot, t, ranges, cands.len() as int);
        first + unkeyed_part(hot, t, first, hot.len() as int)
    } else {
        plain_part(hot, t, ranges, hot.len() as int)
    }
}

/// The tenant's hot record of this id satisfies the predicates.
pub open spec fn tenant_match(hot: Seq<HotCandidate>, t: Seq<char>, id: RecordId) -> bool {
    exists|i: int|
        0 <= i < hot.len() && (#[trigger] hot[i]).record_id == id && hot[i].tenant_id.0@ == t
            && hot[i].matches_predicates
}

proof fn lemma_ranged_part_matches(
    cands: Seq<RecordId>,
    hot: Seq<HotCandidate>,
    t: Seq<char>,
    ranges: Seq<KeyRange>,
    n: int,
)
    requires
        n <= cands.len(),
    ensures
        forall|k: int|
            0 <= k < ranged_part(cands, hot, t, ranges, n).len() ==> tenant_match(
                hot,
                t,
                #[trigger] ranged_part(cands, hot, t, ranges, n)[k],
            ),
    decreases n,
{
    if n > 0 {
        lemma_ranged_part_matches(cands, hot, t, ranges, n - 1);
        let prev = ranged_part(cands, hot, t, ranges, n - 1);
        if hot_qualifies(hot, t, cands[n - 1], ranges) {
            let i = choose|i: int|
                0 <= i < hot.len() && (#[trigger] hot[i]).record_id == cands[n - 1] && qualifies(
                    hot[i],
                    t,
                    ranges,
                );
            assert(hot[i].record_id == cands[n - 1]);
            assert forall|k: int| 0 <= k < prev.push(cands[n - 1]).len() implies tenant_match(
                hot,
                t,
                #[trigger] prev.push(cands[n - 1])[k],
            ) by {
                if k < prev.len() {
                    assert(prev.push(cands[n - 1])[k] == prev[k]);
                }
            }
        }
    }
}

proof fn lemma_unkeyed_part_matches(hot: Seq<HotCandidate>, t: Seq<char>, taken: Seq<RecordId>, n: int)
    requires
        n <= hot.len(),
    ensures
        forall|k: int|
            0 <= k < unkeyed_part(hot, t, taken, n).len() ==> tenant_match(
                hot,
                t,
                #[trigger] unkeyed_part(hot, t, taken, n)[k],
            ),
    decreases n,
{
    if n > 0 {
        lemma_unkeyed_part_matches(hot, t, taken, n - 1);
        let prev = unkeyed_part(hot, t, taken, n - 1);
        let h = hot[n - 1];
        if h.tenant_id.0@ == t && h.space_key is None && !taken.contains(h.record_id)
            && h.matches_predicates {
            assert forall|k: int| 0 <= k < prev.push(h.record_id).len() implies tenant_match(
                hot,
                t,
                #[trigger] prev.push(h.record_id)[k],
            ) by {
                if k < prev.len() {
                    assert(prev.push(h.record_id)[k] == prev[k]);
                } else {
                    assert(hot[n - 1].record_id == h.record_id);
                }
            }
        }
    }
}

proof fn lemma_plain_part_matches(hot: Seq<HotCandidate>, t: Seq<char>, ranges: Seq<KeyRange>, n: int)
    requires
        n <= hot.len(),
    ensures
        forall|k: int|
            0 <= k < plain_part(hot, t, ranges, n).len() ==> tenant_match(
                hot,
                t,
                #[trigger] plain_part(hot, t, ranges, n)[k],
            ),
    decreases n,
{
    if n > 0 {
        lemma_plain_part_matches(hot, t, ranges, n - 1);
        let prev = plain_part(hot, t, ranges, n - 1);
        if qualifies(hot[n - 1], t, ranges) {
            let id = hot[n - 1].record_id;
            assert forall|k: int| 0 <= k < prev.push(id).len() implies tenant_match(
                hot,
                t,
                #[trigger] prev.push(id)[k],
            ) by {
                if k < prev.len() {
                    assert(prev.push(id)[k] == prev[k]);
                }
            }
        }
    }
}

/// Every candidate of a query is a record of the query's tenant whose fields
/// satisfy the query's predicates.
pub proof fn lemma_candidates_belong_to_tenant(
    cands: Seq<RecordId>,
    hot: Seq<HotCandidate>,
    t: Seq<char>,
    ranges: Seq<KeyRange>,
    k: int,
)
    requires
        0 <= k < candidates_spec(cands, hot, t, ranges).len(),
    ensures
        tenant_match(hot, t, candidates_spec(cands, hot, t, ranges)[k]),
{
    if ranges.len() > 0 {
        let first = ranged_part(cands, hot, t, ranges, cands.len() as int);
        let rest = unkeyed_part(hot, t, first, hot.len() as int);
        lemma_ranged_part_matches(cands, hot, t, ranges, cands.len() as int);
        lemma_unkeyed_part_matches(hot, t, first, hot.len() as int);
        if k < first.len() {
            assert((first + rest)[k] == first[k]);
        } else {
            assert((first + rest)[k] == rest[k - first.len()]);
        }
    } else {
        lemma_plain_part_matches(hot, t, ranges, hot.len() as int);
    }
}

/// Whether the key lies in one of the ranges (each inclusive at both ends).
pub fn key_in_ranges(space_key: u128, ranges: &[KeyRange]) -> (r: bool)
    ensures
        r == in_some_range(ranges@, space_key),
{
    let mut j: usize = 0;
    while j < ranges.len()
        invariant
            j <= ranges@.len(),
            forall|q: int| 0 <= q < j ==> !(#[trigger] ranges@[q].min <= space_key && space_key <= ranges@[q].max),
        decreases ranges@.len() - j,
    {
        if ranges[j].min <= space_key && space_key <= ranges[j].max {
            return true;
        }
        j = j + 1;
    }
    false
}

/// Whether the candidate hint lets a record with this space key through.
pub fn candidate_hint_matches(space_key: Option<u128>, hint: &Option<CandidateGenerationHint>) -> (r:
    bool)
    ensures
        r == ranges_admit(space_key, hint_ranges(*hint)),
{
    match hint {
        None => true,
        Some(h) => {
            if h.key_ranges.len() == 0 {
                return true;
            }
            match space_key {
                Some(k) => key_in_ranges(k, h.key_ranges.as_slice()),
                None => true,
            }
        },
    }
}

fn find_hot(hot: &Vec<HotCandidate>, tenant_id: &TenantId, id: RecordId) -> (r: Option<usize>)
    requires
        hot_keys_unique(hot@),
    ensures
        match r {
            Some(i) => i < hot@.len() && hot@[i as int].record_id == id && hot@[i as int].tenant_id.0@
                == tenant_id.0@,
            None => forall|i: int|
                0 <= i < hot@.len() ==> !((#[trigger] hot@[i]).record_id == id && hot@[i].tenant_id.0@
                    == tenant_id.0@),
        },
{
    let mut i: usize = 0;
    while i < hot.len()
        invariant
            i <= hot@.len(),
            forall|q: int|
                0 <= q < i ==> !((#[trigger] hot@[q]).record_id == id && hot@[q].tenant_id.0@
                    == tenant_id.0@),
        decreases hot@.len() - i,
    {
        if hot[i].record_id.0 == id.0 && hot[i].tenant_id.same_as(tenant_id) {
            return Some(i);
        }
        i = i + 1;
    }
    None
}

fn contains_id(ids: &Vec<RecordId>, id: RecordId) -> (r: bool)
    ensures
        r == ids@.contains(id),
{
    let mut i: usize = 0;
    while i < ids.len()
        invariant
            i <= ids@.len(),
            forall|j: int| 0 <= j < i ==> ids@[j] != id,
        decreases ids@.len() - i,
    {
        if ids[i].0 == id.0 {
            assert(ids@[i as int] == id);
            return true;
        }
        i = i + 1;
    }
    false
}

/// The ids a query looks at among the tenant's hot records. With key ranges in
/// the hint: the records the index places in the ranges (ascending by id) that
/// satisfy the predicates, then the tenant's records that have no space key and
/// satisfy them. Without: the tenant's records that satisfy the predicates, in
/// the order of `hot`.
pub fn query_candidates(
    index: &DurableIndex,
    tenant_id: &TenantId,
    hot: &Vec<HotCandidate>,
    hint: &Option<CandidateGenerationHint>,
) -> (r: Vec<RecordId>)
    requires
        index.wf(),
        hot_keys_unique(hot@),
    ensures
        exists|cands: Seq<RecordId>|
            {
                &&& ids_ascending(cands)
                &&& forall|id: RecordId| #[trigger]
                    cands.contains(id) <==> record_in_ranges(
                        index.records(),
                        tenant_id.0@,
                        id,
                        hint_ranges(*hint),
                    )
                &&& r@ == candidates_spec(cands, hot@, tenant_id.0@, hint_ranges(*hint))
            },
{
    let ghost t = tenant_id.0@;
    let ghost ranges = hint_ranges(*hint);
    let mut out: Vec<RecordId> = Vec::new();
    if let Some(h) = hint {
        if h.key_ranges.len() > 0 {
            let cands = index.candidate_ids_for_key_ranges(tenant_id, h.key_ranges.as_slice());
            let mut seen: Vec<RecordId> = Vec::new();
            let mut i: usize = 0;
            while i < cands.len()
                invariant
                    t == tenant_id.0@,
                    ranges == h.key_ranges@,
                    ranges == hint_ranges(*hint),
                    ranges.len() > 0,
                    hot_keys_unique(hot@),
                    i <= cands@.len(),
                    out@ == ranged_part(cands@, hot@, t, ranges, i as int),
                    seen@ == out@,
                decreases cands@.len() - i,
            {
                let id = cands[i];
                match find_hot(hot, tenant_id, id) {
                    Some(k) => {
                        let entry = &hot[k];
                        if entry.matches_predicates && candidate_hint_matches(entry.space_key, hint) {
                            assert(qualifies(hot@[k as int], t, ranges));
                            assert(hot_qualifies(hot@, t, id, ranges));
                            out.push(id);
                            seen.push(id);
                        } else {
                            proof {
                                assert forall|q: int|
                                    0 <= q < hot@.len() && (#[trigger] hot@[q]).record_id == id implies !qualifies(
                                    hot@[q],
                                    t,
                                    ranges,
                                ) by {
                                    if q != k && hot@[q].tenant_id.0@ == t {
                                        if q < k {
                                            assert(!(hot@[q].tenant_id.0@ == hot@[k as int].tenant_id.0@
                                                && hot@[q].record_id == hot@[k as int].record_id));
                                        } else {
                                            assert(!(hot@[k as int].tenant_id.0@ == hot@[q].tenant_id.0@
                                                && hot@[k as int].record_id == hot@[q].record_id));
                                        }
                                    }
                                }
                            }
                        }
                    },
                    None => {},
                }
                i = i + 1;
            }
            let ghost first = out@;
            let mut j: usize = 0;
            while j < hot.len()
                invariant
                    t == tenant_id.0@,
                    first == ranged_part(cands@, hot@, t, ranges, cands@.len() as int),
                    seen@ == first,
                    j <= hot@.len(),
                    out@ == first + unkeyed_part(hot@, t, first, j as int),
                decreases hot@.len() - j,
            {
                let entry = &hot[j];
                if entry.tenant_id.same_as(tenant_id) && entry.space_key.is_none()
                    && entry.matches_predicates {
                    if !contains_id(&seen, entry.record_id) {
                        out.push(entry.record_id);
                    }
                }
                assert(out@ =~= first + unkeyed_part(hot@, t, first, j + 1));
                j = j + 1;
            }
            proof {
                assert(ranges == hint_ranges(*hint));
                assert(ids_ascending(cands@) && (forall|id: RecordId| #[trigger]
                    cands@.contains(id) <==> record_in_ranges(index.records(), t, id, ranges))
                    && out@ == candidates_spec(cands@, hot@, t, ranges));
            }
            return out;
        }
    }
    let mut j: usize = 0;
    while j < hot.len()
        invariant
            t == tenant_id.0@,
            ranges == hint_ranges(*hint),
            ranges.len() == 0,
            j <= hot@.len(),
            out@ == plain_part(hot@, t, ranges, j as int),
        decreases hot@.len() - j,
    {
        let entry = &hot[j];
        if entry.tenant_id.same_as(tenant_id) && entry.matches_predicates && candidate_hint_matches(
            entry.space_key,
            hint,
        ) {
            out.push(entry.record_id);
        }
        j = j + 1;
    }
    proof {
        let cands = Seq::<RecordId>::empty();
        assert forall|id: RecordId| #[trigger]
            cands.contains(id) <==> record_in_ranges(index.records(), t, id, ranges) by {
            if record_in_ranges(index.records(), t, id, ranges) {
                let k = index.records()[(t, id.0)]->Some_0;
                assert(!in_some_range(ranges, k));
            }
        }
        assert(out@ == candidates_spec(cands, hot@, t, ranges));
        assert(ids_ascending(cands));
    }
    out
}

} // verus!
