use std::collections::BTreeMap;

use idb::durable_index::DurableIndex;
use idb::durable_stream::{
    commit_durable_mutation_offsets, durable_mutation_topic_config, ensure_durable_mutation_topic,
    mirror_mutation_event, ordered_log_error_to_core, poll_durable_mutation_stream,
    DURABLE_MUTATION_TOPIC,
};
use idb::errors::CoreError;
use idb::ordered_log::{CompactionPolicy, OrderedLogError, OrderedLogState};
use idb::types::{RecordId, TenantId};
use serde_json::Value;

fn tenant_a() -> TenantId {
    TenantId("tenant_a".to_string())
}

/// Applies the mutation to the index, then mirrors its event into the log;
/// the payload carries the mutation's kind so a test can read it back.
fn mirror_last(index: &DurableIndex, log: &mut OrderedLogState) {
    let event = index.mutation_events().last().expect("event").clone();
    let payload = Value::String(format!("{:?}", event.mutation_type));
    mirror_mutation_event(log, &event, payload, chrono::Utc::now().timestamp_micros()).expect("mirror");
}

#[test]
fn durable_mutation_stream_replays_and_respects_committed_offsets() {
    let tenant_id = tenant_a();
    let mut index = DurableIndex::new();
    let mut log = OrderedLogState::new();

    let seq = index.next_sequence();
    index.apply_upsert(&tenant_id, RecordId(5001), None, seq, 0);
    mirror_last(&index, &mut log);
    let seq = index.next_sequence();
    index.apply_upsert(&tenant_id, RecordId(5001), None, seq, 0);
    mirror_last(&index, &mut log);
    let seq = index.next_sequence();
    index.apply_delete(&tenant_id, RecordId(5001), seq, 0);
    mirror_last(&index, &mut log);

    let stream = poll_durable_mutation_stream(&mut log, &tenant_id, "group-a", 50)
        .expect("poll durable stream");
    assert_eq!(stream.len(), 3);
    assert_eq!(stream[0].payload, Value::String("Insert".to_string()));
    assert_eq!(stream[1].payload, Value::String("Update".to_string()));
    assert_eq!(stream[2].payload, Value::String("Delete".to_string()));
    assert_eq!(stream[0].key.as_deref(), Some("5001"));
    assert_eq!(stream[0].partition_key, "5001");

    let mut max_offsets = BTreeMap::<u32, u64>::new();
    for item in &stream {
        max_offsets
            .entry(item.partition)
            .and_modify(|existing| *existing = (*existing).max(item.sequence))
            .or_insert(item.sequence);
    }
    let offset_list = max_offsets.into_iter().collect::<Vec<_>>();
    commit_durable_mutation_offsets(&mut log, &tenant_id, "group-a", &offset_list)
        .expect("commit durable offsets");

    let next = poll_durable_mutation_stream(&mut log, &tenant_id, "group-a", 50)
        .expect("poll after commit");
    assert!(next.is_empty());

    let fresh = poll_durable_mutation_stream(&mut log, &tenant_id, "group-b", 50)
        .expect("poll fresh group");
    assert_eq!(fresh.len(), 3);
}

#[test]
fn durable_mutation_stream_rejects_zero_max_events_per_partition() {
    let mut log = OrderedLogState::new();
    let err = poll_durable_mutation_stream(&mut log, &tenant_a(), "group-zero", 0)
        .expect_err("zero max_events_per_partition should fail");
    assert!(err
        .message()
        .contains("max_events_per_partition must be > 0"));
}

#[test]
fn durable_mutation_stream_rejects_empty_consumer_group() {
    let mut log = OrderedLogState::new();
    let poll_err = poll_durable_mutation_stream(&mut log, &tenant_a(), "   ", 10)
        .expect_err("empty consumer_group should fail");
    assert!(poll_err
        .message()
        .contains("consumer_group must be non-empty"));

    let commit_err = commit_durable_mutation_offsets(&mut log, &tenant_a(), "", &[])
        .expect_err("empty consumer_group should fail");
    assert!(commit_err
        .message()
        .contains("consumer_group must be non-empty"));
}

#[test]
fn commit_stops_at_unknown_partition() {
    let mut log = OrderedLogState::new();
    let err = commit_durable_mutation_offsets(&mut log, &tenant_a(), "g", &[(1, 4), (9, 1), (2, 3)])
        .expect_err("partition 9 does not exist");
    assert_eq!(
        err,
        CoreError::Storage(
            "ordered log error: invalid partition id 9 for topic mutation-events-v1 with 8 partitions"
                .to_string()
        )
    );
    let offsets = log
        .consumer_offsets(&tenant_a(), DURABLE_MUTATION_TOPIC, "g")
        .expect("topic exists");
    let committed: Vec<(u32, u64)> = offsets
        .iter()
        .filter(|o| o.committed_sequence > 0)
        .map(|o| (o.partition, o.committed_sequence))
        .collect();
    assert_eq!(committed, vec![(1, 4)]);
}

#[test]
fn stream_topic_is_created_once() {
    let mut log = OrderedLogState::new();
    ensure_durable_mutation_topic(&mut log, &tenant_a()).expect("create");
    ensure_durable_mutation_topic(&mut log, &tenant_a()).expect("already there");
    let config = log
        .topic_config(&tenant_a(), DURABLE_MUTATION_TOPIC)
        .expect("config");
    assert_eq!(config, durable_mutation_topic_config());
    assert_eq!(config.partition_count, 8);
    assert_eq!(config.compaction_policy, CompactionPolicy::Disabled);
    assert_eq!(
        ordered_log_error_to_core(&OrderedLogError::InvalidPartitionCount(0)),
        CoreError::Storage("ordered log error: invalid partition count: 0".to_string())
    );
}

#[test]
fn stream_offsets_never_move_back() {
    let mut log = OrderedLogState::new();
    commit_durable_mutation_offsets(&mut log, &tenant_a(), "g", &[(3, 10)]).expect("commit");
    commit_durable_mutation_offsets(&mut log, &tenant_a(), "g", &[(3, 4), (3, 7)]).expect("commit lower");
    let offsets = log
        .consumer_offsets(&tenant_a(), DURABLE_MUTATION_TOPIC, "g")
        .expect("topic exists");
    let third = offsets.iter().find(|o| o.partition == 3).expect("partition 3");
    assert_eq!(third.committed_sequence, 10);
}
