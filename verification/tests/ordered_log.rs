use idb::ordered_log::{
    compact_latest_by_key, hex_component, hex_digit, partition_for_key, stable_fnv1a_hash, stable_hash_with_salt,
    CompactionPolicy, OrderedEvent, OrderedLogError, OrderedLogState, OrderedTopicConfig,
};
use idb::types::TenantId;

fn config(partitions: u32) -> OrderedTopicConfig {
    OrderedTopicConfig {
        partition_count: partitions,
        retention_max_events_per_partition: None,
        retention_max_age_seconds: None,
        compaction_policy: CompactionPolicy::Disabled,
    }
}

/// The current time, as the engine stamps appends.
fn now() -> i64 {
    chrono::Utc::now().timestamp_micros()
}

fn payload(text: &str) -> serde_json::Value {
    serde_json::from_str(text).expect("json payload")
}

#[test]
fn append_and_replay_preserves_partition_order() {
    let tenant = TenantId("tenant_a".to_string());
    let mut log = OrderedLogState::new();
    log.create_topic(tenant.clone(), "orders", config(4)).expect("topic");

    let (a, _) = log
        .append_at(&tenant, "orders", "order-123", Some("a".to_string()), payload("{\"v\":1}"), now())
        .expect("a");
    let (b, _) = log
        .append_at(&tenant, "orders", "order-123", Some("b".to_string()), payload("{\"v\":2}"), now())
        .expect("b");
    let (c, _) = log
        .append_at(&tenant, "orders", "order-123", Some("c".to_string()), payload("{\"v\":3}"), now())
        .expect("c");

    assert_eq!(a.partition, b.partition);
    assert_eq!(b.partition, c.partition);

    let replay = log.replay_from(&tenant, "orders", a.partition, 1, 10).expect("replay");
    let sequences = replay.iter().map(|e| e.sequence).collect::<Vec<_>>();
    assert_eq!(sequences, vec![a.sequence, b.sequence, c.sequence]);
    assert_eq!(replay[1].payload, payload("{\"v\":2}"));
}

#[test]
fn consumer_group_poll_and_commit_advances_offsets() {
    let tenant = TenantId("tenant_a".to_string());
    let mut log = OrderedLogState::new();
    log.create_topic(tenant.clone(), "jobs", config(1)).expect("topic");

    log.append_at(&tenant, "jobs", "job-1", None, payload("{\"job\":1}"), now()).expect("1");
    log.append_at(&tenant, "jobs", "job-2", None, payload("{\"job\":2}"), now()).expect("2");
    let (last, _) = log.append_at(&tenant, "jobs", "job-3", None, payload("{\"job\":3}"), now()).expect("3");

    let first_poll = log.poll_consumer_group(&tenant, "jobs", "workers", 2).expect("poll");
    assert_eq!(first_poll.len(), 2);

    log.commit_consumer_group_offset(&tenant, "jobs", "workers", 0, first_poll[1].sequence)
        .expect("commit");

    let second_poll = log.poll_consumer_group(&tenant, "jobs", "workers", 5).expect("poll");
    assert_eq!(second_poll.len(), 1);
    assert_eq!(second_poll[0].sequence, last.sequence);

    log.commit_consumer_group_offset(&tenant, "jobs", "workers", 0, 1).expect("commit back");
    let offsets = log.consumer_offsets(&tenant, "jobs", "workers").expect("offsets");
    assert_eq!(offsets.len(), 1);
    assert_eq!(offsets[0].committed_sequence, 2);
}

#[test]
fn retention_max_events_enforced() {
    let tenant = TenantId("tenant_a".to_string());
    let mut log = OrderedLogState::new();
    let mut topic_config = config(1);
    topic_config.retention_max_events_per_partition = Some(2);
    log.create_topic(tenant.clone(), "events", topic_config).expect("topic");

    log.append_at(&tenant, "events", "k", None, payload("{\"n\":1}"), now()).expect("1");
    log.append_at(&tenant, "events", "k", None, payload("{\"n\":2}"), now()).expect("2");
    let (third, changed) = log.append_at(&tenant, "events", "k", None, payload("{\"n\":3}"), now()).expect("3");
    assert!(changed);
    let (fourth, _) = log.append_at(&tenant, "events", "k", None, payload("{\"n\":4}"), now()).expect("4");

    let replay = log.replay_from(&tenant, "events", 0, 1, 10).expect("replay");
    assert_eq!(replay.len(), 2);
    assert_eq!(replay[0].sequence, third.sequence);
    assert_eq!(replay[1].sequence, fourth.sequence);
}

#[test]
fn compaction_latest_by_key_keeps_latest_versions() {
    let tenant = TenantId("tenant_a".to_string());
    let mut log = OrderedLogState::new();
    let mut topic_config = config(1);
    topic_config.compaction_policy = CompactionPolicy::LatestByKey;
    log.create_topic(tenant.clone(), "events", topic_config).expect("topic");

    log.append_at(&tenant, "events", "k", Some("a".to_string()), payload("{\"v\":1}"), now()).expect("1");
    log.append_at(&tenant, "events", "k", Some("b".to_string()), payload("{\"v\":1}"), now()).expect("2");
    let (newest_a, changed) = log
        .append_at(&tenant, "events", "k", Some("a".to_string()), payload("{\"v\":2}"), now())
        .expect("3");
    assert!(changed);
    let (no_key, _) = log.append_at(&tenant, "events", "k", None, payload("{\"v\":3}"), now()).expect("4");

    let replay = log.replay_from(&tenant, "events", 0, 1, 10).expect("replay");
    assert_eq!(replay.len(), 3);
    assert!(replay.iter().any(|e| e.sequence == newest_a.sequence));
    assert!(replay.iter().any(|e| e.sequence == no_key.sequence));
    assert!(!replay.iter().any(|e| e.sequence == 1));
}

#[test]
fn retention_by_age_drops_old_events() {
    let tenant = TenantId("tenant_a".to_string());
    let mut log = OrderedLogState::new();
    let mut topic_config = config(1);
    topic_config.retention_max_age_seconds = Some(10);
    log.create_topic(tenant.clone(), "events", topic_config).expect("topic");

    log.append_at(&tenant, "events", "k", None, payload("1"), 1_000_000).expect("1");
    log.append_at(&tenant, "events", "k", None, payload("2"), 5_000_000).expect("2");
    let (_, changed) = log
        .append_at(&tenant, "events", "k", None, payload("3"), 12_000_000)
        .expect("3");
    assert!(changed);
    let replay = log.replay_from(&tenant, "events", 0, 0, 10).expect("replay");
    let sequences = replay.iter().map(|e| e.sequence).collect::<Vec<_>>();
    assert_eq!(sequences, vec![2, 3]);
}

#[test]
fn topic_errors_are_reported() {
    let tenant = TenantId("tenant_a".to_string());
    let mut log = OrderedLogState::new();
    assert_eq!(
        log.create_topic(tenant.clone(), "t", config(0)),
        Err(OrderedLogError::InvalidPartitionCount(0))
    );
    log.create_topic(tenant.clone(), "t", config(2)).expect("topic");
    let exists = log.create_topic(tenant.clone(), "t", config(2)).expect_err("duplicate");
    assert_eq!(exists.message(), "topic already exists: tenant=tenant_a, topic=t");
    let missing = log.replay_from(&tenant, "nope", 0, 0, 1).expect_err("missing");
    assert_eq!(missing.message(), "topic not found: tenant=tenant_a, topic=nope");
    let bad = log.replay_from(&tenant, "t", 2, 0, 1).expect_err("bad partition");
    assert_eq!(
        bad.message(),
        "invalid partition id 2 for topic t with 2 partitions"
    );
}

#[test]
fn topic_stats_and_config_reflect_appends() {
    let tenant = TenantId("tenant_a".to_string());
    let mut log = OrderedLogState::new();
    log.create_topic(tenant.clone(), "t", config(1)).expect("topic");
    log.append_at(&tenant, "t", "k", None, payload("null"), now()).expect("1");
    log.append_at(&tenant, "t", "k", None, payload("null"), now()).expect("2");
    let stats = log.topic_stats(&tenant, "t").expect("stats");
    assert_eq!(stats.partition_count, 1);
    assert_eq!(stats.event_count, 2);
    assert_eq!(stats.next_sequence_per_partition, vec![3]);
    assert_eq!(log.topic_config(&tenant, "t").expect("config"), config(1));
}

#[test]
fn restored_topic_continues_after_highest_sequence() {
    let tenant = TenantId("tenant_a".to_string());
    let mut log = OrderedLogState::new();
    let event = |seq: u64| OrderedEvent {
        tenant_id: tenant.clone(),
        topic: "t".to_string(),
        partition: 0,
        sequence: seq,
        partition_key: "k".to_string(),
        key: None,
        payload: payload("null"),
        committed_at: 0,
    };
    log.restore_topic(&tenant, "t", config(1), vec![vec![event(5), event(2)]]).expect("restore");
    log.restore_offset(&tenant, "t", "g", 0, 2);
    let polled = log.poll_consumer_group(&tenant, "t", "g", 10).expect("poll");
    assert_eq!(polled.len(), 1);
    assert_eq!(polled[0].sequence, 5);
    let (next, _) = log.append_at(&tenant, "t", "k", None, payload("null"), now()).expect("append");
    assert_eq!(next.sequence, 6);
    assert_eq!(log.offsets_of_topic(&tenant, "t").len(), 1);
}

#[test]
fn fnv_hash_and_partitioning_are_stable() {
    assert_eq!(stable_fnv1a_hash(b""), 0xcbf29ce484222325);
    assert_eq!(stable_fnv1a_hash(b"a"), 0xaf63dc4c8601ec8c);
    assert_eq!(partition_for_key("anything", 1), 0);
    assert_eq!(partition_for_key("a", 4), (0xaf63dc4c8601ec8cu64 % 4) as u32);
}

#[test]
fn hex_names_encode_each_byte() {
    assert_eq!(hex_component("tenant_a"), "74656e616e745f61");
    assert_eq!(hex_digit(11), 'b');
    assert_eq!(hex_digit(16), '0');
}

#[test]
fn compaction_keeps_latest_event_per_key() {
    let tenant = TenantId("t".to_string());
    let event = |seq: u64, key: Option<&str>| OrderedEvent {
        tenant_id: tenant.clone(),
        topic: "x".to_string(),
        partition: 0,
        sequence: seq,
        partition_key: "k".to_string(),
        key: key.map(|k| k.to_string()),
        payload: payload("null"),
        committed_at: 0,
    };
    let events = vec![
        event(1, Some("a")),
        event(2, None),
        event(3, Some("b")),
        event(4, Some("a")),
    ];
    let kept = compact_latest_by_key(&events);
    let sequences = kept.iter().map(|e| e.sequence).collect::<Vec<_>>();
    assert_eq!(sequences, vec![2, 3, 4]);
}

#[test]
fn salted_hash_with_zero_salt_is_plain_fnv() {
    assert_eq!(stable_hash_with_salt(b"a", 0), 0xaf63dc4c8601ec8c);
    assert_eq!(stable_hash_with_salt(b"tenant", 0), stable_fnv1a_hash(b"tenant"));
    assert_ne!(stable_hash_with_salt(b"tenant", 1), stable_fnv1a_hash(b"tenant"));
    assert_eq!(stable_hash_with_salt(b"", 7), 0xcbf29ce484222325 ^ 7);
}

#[test]
fn partition_files_are_named_by_number() {
    assert_eq!(idb::ordered_log::partition_file_name(0), "partition-0.jsonl");
    assert_eq!(idb::ordered_log::partition_file_name(17), "partition-17.jsonl");
}
