use idb::watch::WatchSessions;
use idb::changefeed::{ChangefeedEngine, ResumeToken};
use idb::durable_index::DurableIndex;
use idb::events::{mutation_events_since, MutationType};
use idb::query::KeyRange;
use idb::space_index::TenantSpaceIndex;
use idb::types::{RecordId, TenantId};

fn tenant(name: &str) -> TenantId {
    TenantId(name.to_string())
}

fn upsert(index: &mut DurableIndex, tenant_name: &str, id: u64, key: Option<u128>) -> MutationType {
    let seq = index.next_sequence();
    index.apply_upsert(&tenant(tenant_name), RecordId(id), key, seq, 0)
}

#[test]
fn unsubscribe_removes_subscription() {
    let mut feed = ChangefeedEngine::new();
    let sub = feed.subscribe(TenantId("tenant_a".to_string()));
    assert!(feed.get_subscription(sub).is_some());

    assert!(feed.unsubscribe(sub));
    assert!(feed.get_subscription(sub).is_none());
    assert!(!feed.unsubscribe(sub));
}

#[test]
fn reconnect_with_resume_token_continues_from_next_sequence() {
    let mut state = DurableIndex::new();
    upsert(&mut state, "tenant_a", 1, None);
    upsert(&mut state, "tenant_a", 2, None);

    let mut feed = ChangefeedEngine::new();
    let sub = feed.subscribe(tenant("tenant_a"));
    let first_batch = feed
        .poll(sub, state.mutation_events(), 10)
        .expect("first poll");
    assert_eq!(first_batch.events.len(), 2);
    assert_eq!(first_batch.events[0].commit_sequence, 1);
    assert_eq!(first_batch.events[1].commit_sequence, 2);

    let resume = first_batch.next_resume_token;
    upsert(&mut state, "tenant_a", 3, None);

    let mut resumed = ChangefeedEngine::new();
    let sub2 = resumed.subscribe_with_resume(tenant("tenant_a"), resume);
    let second_batch = resumed
        .poll(sub2, state.mutation_events(), 10)
        .expect("second poll");
    assert_eq!(second_batch.events.len(), 1);
    assert_eq!(second_batch.events[0].commit_sequence, 3);
}

#[test]
fn tenant_subscriptions_are_isolated() {
    let mut state = DurableIndex::new();
    upsert(&mut state, "tenant_a", 11, None);
    upsert(&mut state, "tenant_b", 22, None);

    let mut feed = ChangefeedEngine::new();
    let a_sub = feed.subscribe(tenant("tenant_a"));
    let b_sub = feed.subscribe(tenant("tenant_b"));
    let a_batch = feed.poll(a_sub, state.mutation_events(), 10).expect("a poll");
    let b_batch = feed.poll(b_sub, state.mutation_events(), 10).expect("b poll");

    assert_eq!(a_batch.events.len(), 1);
    assert_eq!(b_batch.events.len(), 1);
    assert_eq!(a_batch.events[0].record_id.0, 11);
    assert_eq!(b_batch.events[0].record_id.0, 22);
}

#[test]
fn dependency_filter_only_delivers_tracked_records() {
    let mut state = DurableIndex::new();
    upsert(&mut state, "tenant_a", 100, None);
    upsert(&mut state, "tenant_a", 200, None);

    let mut feed = ChangefeedEngine::new();
    let sub = feed.subscribe_with_resume_and_dependencies(
        tenant("tenant_a"),
        ResumeToken(0),
        Some(vec![RecordId(200)]),
    );
    let batch = feed.poll(sub, state.mutation_events(), 10).expect("poll with deps");
    assert_eq!(batch.events.len(), 1);
    assert_eq!(batch.events[0].record_id.0, 200);
}

#[test]
fn sparse_dependency_filter_poll_progresses_to_later_matches() {
    let mut state = DurableIndex::new();
    for id in 1..=12 {
        upsert(&mut state, "tenant_a", id, None);
    }
    upsert(&mut state, "tenant_a", 999, None);

    let mut feed = ChangefeedEngine::new();
    let sub = feed.subscribe_with_resume_and_dependencies(
        tenant("tenant_a"),
        ResumeToken(0),
        Some(vec![RecordId(999)]),
    );

    let mut delivered = false;
    let mut prev_token = 0;
    for _ in 0..10 {
        let batch = feed
            .poll(sub, state.mutation_events(), 1)
            .expect("poll with sparse deps");
        assert!(batch.next_resume_token.0 >= prev_token);
        prev_token = batch.next_resume_token.0;
        if let Some(event) = batch.events.first() {
            assert_eq!(event.record_id.0, 999);
            delivered = true;
            break;
        }
    }
    assert!(delivered, "expected to eventually reach tracked event");
}

#[test]
fn poll_rejects_zero_max_events() {
    let state = DurableIndex::new();
    let mut feed = ChangefeedEngine::new();
    let sub = feed.subscribe(tenant("tenant_a"));
    let err = feed
        .poll(sub, state.mutation_events(), 0)
        .expect_err("zero max_events must fail");
    assert!(err.message().contains("max_events must be > 0"));
}

#[test]
fn poll_of_unknown_subscription_is_refused() {
    let state = DurableIndex::new();
    let mut feed = ChangefeedEngine::new();
    let err = feed
        .poll(idb::changefeed::SubscriptionId(7), state.mutation_events(), 3)
        .expect_err("unknown subscription");
    assert_eq!(err.message(), "storage error: unknown subscription id: 7");
}

#[test]
fn upsert_reports_insert_then_update_and_delete_reports_existence() {
    let mut state = DurableIndex::new();
    assert_eq!(upsert(&mut state, "tenant_a", 5, None), MutationType::Insert);
    assert_eq!(upsert(&mut state, "tenant_a", 5, None), MutationType::Update);
    let seq = state.next_sequence();
    assert!(state.apply_delete(&tenant("tenant_a"), RecordId(5), seq, 0));
    let seq = state.next_sequence();
    assert!(!state.apply_delete(&tenant("tenant_a"), RecordId(5), seq, 0));
    assert_eq!(state.last_sequence(), 4);
    let kinds: Vec<MutationType> = state
        .mutation_events()
        .iter()
        .map(|e| e.mutation_type)
        .collect();
    assert_eq!(
        kinds,
        vec![
            MutationType::Insert,
            MutationType::Update,
            MutationType::Delete,
            MutationType::Delete
        ]
    );
}

#[test]
fn key_range_candidates_stay_correct_across_updates_and_deletes() {
    let mut state = DurableIndex::new();
    upsert(&mut state, "tenant_a", 1, Some(10));
    upsert(&mut state, "tenant_a", 2, Some(20));
    upsert(&mut state, "tenant_a", 3, Some(30));
    upsert(&mut state, "tenant_b", 4, Some(20));

    let ranges = [KeyRange { min: 15, max: 25 }];
    assert_eq!(
        state.candidate_ids_for_key_ranges(&tenant("tenant_a"), &ranges),
        vec![RecordId(2)]
    );

    upsert(&mut state, "tenant_a", 2, Some(40));
    upsert(&mut state, "tenant_a", 3, Some(18));
    assert_eq!(
        state.candidate_ids_for_key_ranges(&tenant("tenant_a"), &ranges),
        vec![RecordId(3)]
    );

    let seq = state.next_sequence();
    state.apply_delete(&tenant("tenant_a"), RecordId(3), seq, 0);
    assert!(state
        .candidate_ids_for_key_ranges(&tenant("tenant_a"), &ranges)
        .is_empty());

    let wide = [KeyRange { min: 0, max: 5 }, KeyRange { min: 5, max: 100 }];
    assert_eq!(
        state.candidate_ids_for_key_ranges(&tenant("tenant_a"), &wide),
        vec![RecordId(1), RecordId(2)]
    );
    assert_eq!(
        state.candidate_ids_for_key_ranges(&tenant("tenant_b"), &wide),
        vec![RecordId(4)]
    );
    assert!(state
        .candidate_ids_for_key_ranges(&tenant("tenant_a"), &[])
        .is_empty());
}

#[test]
fn space_index_keeps_key_order_and_answers_ranges() {
    let mut index = TenantSpaceIndex::new();
    index.insert(30, &RecordId(3));
    index.insert(10, &RecordId(1));
    index.insert(20, &RecordId(2));
    index.insert(20, &RecordId(0));
    assert_eq!(
        index.range_candidates(10, 20),
        vec![RecordId(1), RecordId(0), RecordId(2)]
    );
    assert!(index.remove(20, &RecordId(0)));
    assert!(!index.remove(20, &RecordId(0)));
    assert_eq!(index.range_candidates(15, 40), vec![RecordId(2), RecordId(3)]);
    assert!(index.range_candidates(40, 10).is_empty());
    assert!(!index.is_empty());
}

#[test]
fn events_since_are_filtered_by_tenant_and_sequence() {
    let mut state = DurableIndex::new();
    upsert(&mut state, "tenant_a", 1, None);
    upsert(&mut state, "tenant_b", 2, None);
    upsert(&mut state, "tenant_a", 3, None);
    upsert(&mut state, "tenant_a", 4, None);
    let events = mutation_events_since(state.mutation_events(), &tenant("tenant_a"), 1, 1);
    assert_eq!(events.len(), 1);
    assert_eq!(events[0].commit_sequence, 3);
}

#[test]
fn subscription_numbers_are_never_reused() {
    let mut feed = ChangefeedEngine::new();
    let first = feed.subscribe(tenant("tenant_a"));
    let second = feed.subscribe(tenant("tenant_b"));
    assert_eq!(first.0, 1);
    assert_eq!(second.0, 2);
    assert!(feed.unsubscribe(second));
    let third = feed.subscribe_with_resume(tenant("tenant_a"), ResumeToken(4));
    assert_eq!(third.0, 3);
    assert_eq!(feed.opened_count(), 3);
    assert!(feed.get_subscription(second).is_none());
    assert_eq!(feed.get_subscription(third).unwrap().last_sequence, 4);
}

#[test]
fn watch_sessions_check_room_then_membership() {
    let mut feed = ChangefeedEngine::new();
    let mut watches: WatchSessions<&str> = WatchSessions::new();
    let id = feed.subscribe(tenant("tenant_a"));
    watches.start(id, "watch Product");
    assert_eq!(*watches.request_for_poll(id, 5).expect("active"), "watch Product");
    let err = watches.request_for_poll(id, 0).expect_err("no room");
    assert_eq!(err.message(), "query planning error: watch poll max_events must be > 0");
    let other = idb::changefeed::SubscriptionId(9);
    let err = watches.request_for_poll(other, 5).expect_err("unknown");
    assert!(err.message().ends_with("unknown active watch subscription id: 9"), "{}", err.message());
    assert!(watches.stop(&mut feed, id));
    assert!(!watches.is_active(id));
    assert!(feed.get_subscription(id).is_none());
    assert!(!watches.stop(&mut feed, id));
}

#[test]
fn polls_in_small_batches_neither_lose_nor_repeat_events() {
    let mut state = DurableIndex::new();
    for id in 1..=7u64 {
        let tenant_name = if id % 3 == 0 { "tenant_b" } else { "tenant_a" };
        upsert(&mut state, tenant_name, id, None);
    }
    let mut feed = ChangefeedEngine::new();
    let sub = feed.subscribe_with_resume_and_dependencies(
        tenant("tenant_a"),
        ResumeToken(0),
        Some(vec![RecordId(1), RecordId(4), RecordId(5), RecordId(7)]),
    );
    let mut seen = Vec::new();
    for _ in 0..6 {
        let batch = feed.poll(sub, state.mutation_events(), 1).expect("poll");
        seen.extend(batch.events.iter().map(|e| e.commit_sequence));
    }
    assert_eq!(seen, vec![1, 4, 5, 7]);
}
