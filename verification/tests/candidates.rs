use idb::candidates::{candidate_hint_matches, key_in_ranges, query_candidates, HotCandidate};
use idb::durable_index::DurableIndex;
use idb::query::{CandidateGenerationHint, KeyRange};
use idb::types::{RecordId, TenantId};

fn tenant(name: &str) -> TenantId {
    TenantId(name.to_string())
}

fn hot(tenant_name: &str, id: u64, key: Option<u128>, matches: bool) -> HotCandidate {
    HotCandidate {
        tenant_id: tenant(tenant_name),
        record_id: RecordId(id),
        space_key: key,
        matches_predicates: matches,
    }
}

fn hint(ranges: &[(u128, u128)]) -> Option<CandidateGenerationHint> {
    Some(CandidateGenerationHint {
        key_ranges: ranges
            .iter()
            .map(|(min, max)| KeyRange {
                min: *min,
                max: *max,
            })
            .collect(),
        ann_probe: None,
    })
}

fn sample() -> (DurableIndex, Vec<HotCandidate>) {
    let mut index = DurableIndex::new();
    let rows = [
        ("tenant_a", 3, Some(30u128), true),
        ("tenant_a", 1, Some(10u128), true),
        ("tenant_a", 2, Some(20u128), false),
        ("tenant_a", 4, None, true),
        ("tenant_a", 5, Some(50u128), true),
        ("tenant_b", 6, Some(15u128), true),
        ("tenant_b", 7, None, true),
    ];
    let mut hot_rows = Vec::new();
    let mut seq = 0;
    for (t, id, key, matches) in rows {
        seq += 1;
        index.apply_upsert(&tenant(t), RecordId(id), key, seq, 0);
        hot_rows.push(hot(t, id, key, matches));
    }
    (index, hot_rows)
}

#[test]
fn key_ranges_are_inclusive() {
    let ranges = [KeyRange { min: 10, max: 20 }, KeyRange { min: 40, max: 40 }];
    assert!(key_in_ranges(10, &ranges));
    assert!(key_in_ranges(20, &ranges));
    assert!(key_in_ranges(40, &ranges));
    assert!(!key_in_ranges(21, &ranges));
    assert!(!key_in_ranges(5, &[]));
}

#[test]
fn hint_without_ranges_admits_everything() {
    assert!(candidate_hint_matches(Some(99), &None));
    assert!(candidate_hint_matches(Some(99), &hint(&[])));
    assert!(candidate_hint_matches(None, &hint(&[(0, 1)])));
    assert!(!candidate_hint_matches(Some(99), &hint(&[(0, 1)])));
}

#[test]
fn ranged_candidates_come_first_then_unkeyed_records() {
    let (index, hot_rows) = sample();
    let ids = query_candidates(&index, &tenant("tenant_a"), &hot_rows, &hint(&[(0, 35)]));
    assert_eq!(ids, vec![RecordId(1), RecordId(3), RecordId(4)]);
}

#[test]
fn without_ranges_every_matching_record_of_the_tenant_in_order() {
    let (index, hot_rows) = sample();
    let ids = query_candidates(&index, &tenant("tenant_a"), &hot_rows, &None);
    assert_eq!(
        ids,
        vec![RecordId(3), RecordId(1), RecordId(4), RecordId(5)]
    );
    let ids_b = query_candidates(&index, &tenant("tenant_b"), &hot_rows, &hint(&[]));
    assert_eq!(ids_b, vec![RecordId(6), RecordId(7)]);
}

#[test]
fn ranged_candidates_respect_tenant() {
    let (index, hot_rows) = sample();
    let ids = query_candidates(&index, &tenant("tenant_b"), &hot_rows, &hint(&[(0, 100)]));
    assert_eq!(ids, vec![RecordId(6), RecordId(7)]);
}
