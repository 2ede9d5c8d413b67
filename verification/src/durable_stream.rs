//! The durable mutation stream: every committed mutation mirrored into a
//! tenant's ordered-log topic, read by consumer groups at their own pace.
use vstd::prelude::*;

use crate::errors::CoreError;
use crate::events::MutationEvent;
use crate::gateway::{non_empty_trimmed, trimmed};
use crate::ordered_log::{
    committed_of, fresh_topic, ordered_log_error_text, polled_upto, sorted_by_position,
    CompactionPolicy, OrderedEvent, OrderedLogError, OrderedLogErrorV, OrderedLogState,
    OrderedTopicConfig, TopicV,
};
use crate::text::{concat_decimal, concat_str, decimal};
use crate::types::TenantId;

verus! {

/// The topic that holds a tenant's mutation events.
pub const DURABLE_MUTATION_TOPIC: &'static str = "mutation-events-v1";

pub const DURABLE_MUTATION_TOPIC_PARTITIONS: u32 = 8;

pub open spec fn topic_text() -> Seq<char> {
    "mutation-events-v1"@
}

pub open spec fn stream_config() -> OrderedTopicConfig {
    OrderedTopicConfig {
        partition_count: 8,
        retention_max_events_per_partition: None,
        retention_max_age_seconds: None,
        compaction_policy: CompactionPolicy::Disabled,
    }
}

/// The tenant's topics once the mutation topic exists.
pub open spec fn with_stream_topic(
    topics: Map<(Seq<char>, Seq<char>), TopicV>,
    t: Seq<char>,
) -> Map<(Seq<char>, Seq<char>), TopicV> {
    if topics.contains_key((t, topic_text())) {
        topics
    } else {
        topics.insert((t, topic_text()), fresh_topic(stream_config()))
    }
}

pub open spec fn storage_error_text(e: CoreError) -> Option<Seq<char>> {
    match e {
        CoreError::Storage(s) => Some(s@),
        _ => None,
    }
}

pub open spec fn planning_error_text(e: CoreError) -> Option<Seq<char>> {
    match e {
        CoreError::QueryPlanning(s) => Some(s@),
        _ => None,
    }
}

pub open spec fn empty_group_text() -> Seq<char> {
    "durable stream consumer_group must be non-empty"@
}

pub open spec fn zero_poll_text() -> Seq<char> {
    "durable stream poll max_events_per_partition must be > 0"@
}

/// The topic configuration of the mutation stream: eight partitions, no
/// retention, no compaction.
pub fn durable_mutation_topic_config() -> (r: OrderedTopicConfig)
    ensures
        r == stream_config(),
{
    OrderedTopicConfig {
        partition_count: DURABLE_MUTATION_TOPIC_PARTITIONS,
        retention_max_events_per_partition: None,
        retention_max_age_seconds: None,
        compaction_policy: CompactionPolicy::Disabled,
    }
}

/// An error of the ordered log, as a storage error of the engine.
pub fn ordered_log_error_to_core(error: &OrderedLogError) -> (r: CoreError)
    ensures
        storage_error_text(r) == Some("ordered log error: "@ + ordered_log_error_text(error@)),
{
    let text = error.message();
    CoreError::Storage(concat_str("ordered log error: ", text.as_str()))
}

/// Creates the tenant's mutation topic if it does not exist yet.
pub fn ensure_durable_mutation_topic(log: &mut OrderedLogState, tenant_id: &TenantId) -> (r: Result<
    (),
    CoreError,
>)
    requires
        old(log).wf(),
    ensures
        final(log).wf(),
        r is Ok,
        final(log).topics() == with_stream_topic(old(log).topics(), tenant_id.0@),
        final(log).offsets() == old(log).offsets(),
{
    match log.topic_config(tenant_id, DURABLE_MUTATION_TOPIC) {
        Ok(_) => Ok(()),
        Err(_) => {
            match log.create_topic(
                tenant_id.duplicate(),
                DURABLE_MUTATION_TOPIC,
                durable_mutation_topic_config(),
            ) {
                Ok(()) => Ok(()),
                Err(e) => Err(ordered_log_error_to_core(&e)),
            }
        },
    }
}

/// For each partition of the tenant's mutation topic, up to
/// `max_events_per_partition` events after the group's committed offset,
/// ordered by partition, then sequence. The group must not be blank and the
/// bound must be positive.
pub fn poll_durable_mutation_stream(
    log: &mut OrderedLogState,
    tenant_id: &TenantId,
    consumer_group: &str,
    max_events_per_partition: usize,
) -> (r: Result<Vec<OrderedEvent>, CoreError>)
    requires
        old(log).wf(),
    ensures
        final(log).wf(),
        final(log).offsets() == old(log).offsets(),
        trimmed(consumer_group@).len() == 0 ==> planning_error_text(r->Err_0) == Some(
            empty_group_text(),
        ) && r is Err && final(log).topics() == old(log).topics(),
        trimmed(consumer_group@).len() > 0 && max_events_per_partition == 0 ==> r is Err
            && planning_error_text(r->Err_0) == Some(zero_poll_text()) && final(log).topics()
            == old(log).topics(),
        trimmed(consumer_group@).len() > 0 && max_events_per_partition > 0 ==> {
            let t = final(log).topics()[(tenant_id.0@, topic_text())];
            &&& final(log).topics() == with_stream_topic(old(log).topics(), tenant_id.0@)
            &&& r matches Ok(v) && v@ == sorted_by_position(
                polled_upto(
                    t,
                    final(log).offsets(),
                    tenant_id.0@,
                    topic_text(),
                    consumer_group@,
                    max_events_per_partition,
                    t.config.partition_count as nat,
                ),
            )
        },
{
    if non_empty_trimmed(consumer_group).is_none() {
        return Err(
            CoreError::QueryPlanning(
                String::from_str("durable stream consumer_group must be non-empty"),
            ),
        );
    }
    if max_events_per_partition == 0 {
        return Err(
            CoreError::QueryPlanning(
                String::from_str("durable stream poll max_events_per_partition must be > 0"),
            ),
        );
    }
    let _ = ensure_durable_mutation_topic(log, tenant_id);
    match log.poll_consumer_group(
        tenant_id,
        DURABLE_MUTATION_TOPIC,
        consumer_group,
        max_events_per_partition,
    ) {
        Ok(events) => Ok(events),
        Err(e) => Err(ordered_log_error_to_core(&e)),
    }
}

/// A group's offset on a partition after a commit: it never moves back.
pub open spec fn commit_one(
    offsets: Map<(Seq<char>, Seq<char>, Seq<char>, u32), u64>,
    name: (Seq<char>, Seq<char>, Seq<char>, u32),
    sequence: u64,
) -> Map<(Seq<char>, Seq<char>, Seq<char>, u32), u64> {
    let current = committed_of(offsets, name);
    offsets.insert(
        name,
        if current >= sequence {
            current
        } else {
            sequence
        },
    )
}

/// The offsets after the first `n` commits of the list, in order.
pub open spec fn offsets_after(
    offsets: Map<(Seq<char>, Seq<char>, Seq<char>, u32), u64>,
    t: Seq<char>,
    group: Seq<char>,
    list: Seq<(u32, u64)>,
    n: int,
) -> Map<(Seq<char>, Seq<char>, Seq<char>, u32), u64>
    decreases n,
{
    if n <= 0 {
        offsets
    } else {
        commit_one(
            offsets_after(offsets, t, group, list, n - 1),
            (t, topic_text(), group, list[n - 1].0),
            list[n - 1].1,
        )
    }
}

/// Committing a list of offsets never moves any group's offset back.
pub proof fn lemma_stream_commits_never_move_back(
    offsets: Map<(Seq<char>, Seq<char>, Seq<char>, u32), u64>,
    t: Seq<char>,
    group: Seq<char>,
    list: Seq<(u32, u64)>,
    n: int,
    name: (Seq<char>, Seq<char>, Seq<char>, u32),
)
    ensures
        committed_of(offsets_after(offsets, t, group, list, n), name) >= committed_of(offsets, name),
    decreases n,
{
    if n > 0 {
        lemma_stream_commits_never_move_back(offsets, t, group, list, n - 1, name);
    }
}

pub open spec fn invalid_partition_text(partition: u32, partition_count: u32) -> Seq<char> {
    "ordered log error: "@ + ordered_log_error_text(
        OrderedLogErrorV::InvalidPartition { topic: topic_text(), partition, partition_count },
    )
}

/// Commits a group's offsets on the tenant's mutation topic, in order; each
/// offset never moves back. A blank group is refused; the first partition the
/// topic does not have stops the commits with an error, those before it kept.
pub fn commit_durable_mutation_offsets(
    log: &mut OrderedLogState,
    tenant_id: &TenantId,
    consumer_group: &str,
    offsets: &[(u32, u64)],
) -> (r: Result<(), CoreError>)
    requires
        old(log).wf(),
    ensures
        final(log).wf(),
        trimmed(consumer_group@).len() == 0 ==> r is Err && planning_error_text(r->Err_0) == Some(
            empty_group_text(),
        ) && final(log).topics() == old(log).topics() && final(log).offsets() == old(
            log,
        ).offsets(),
        trimmed(consumer_group@).len() > 0 ==> {
            let t = tenant_id.0@;
            let count = final(log).topics()[(t, topic_text())].config.partition_count;
            &&& final(log).topics() == with_stream_topic(old(log).topics(), t)
            &&& r is Ok <==> forall|i: int| 0 <= i < offsets@.len() ==> (#[trigger] offsets@[i]).0 < count
            &&& r is Ok ==> final(log).offsets() == offsets_after(
                old(log).offsets(),
                t,
                consumer_group@,
                offsets@,
                offsets@.len() as int,
            )
            &&& r is Err ==> exists|k: int|
                0 <= k < offsets@.len() && (forall|i: int| 0 <= i < k ==> (#[trigger] offsets@[i]).0 < count)
                    && offsets@[k].0 >= count && storage_error_text(r->Err_0) == Some(
                    invalid_partition_text(offsets@[k].0, count),
                ) && final(log).offsets() == offsets_after(
                    old(log).offsets(),
                    t,
                    consumer_group@,
                    offsets@,
                    k,
                )
        },
{
    if non_empty_trimmed(consumer_group).is_none() {
        return Err(
            CoreError::QueryPlanning(
                String::from_str("durable stream consumer_group must be non-empty"),
            ),
        );
    }
    let _ = ensure_durable_mutation_topic(log, tenant_id);
    let ghost t = tenant_id.0@;
    let ghost start = log.offsets();
    let ghost topics = log.topics();
    let ghost count = topics[(t, topic_text())].config.partition_count;
    let mut i: usize = 0;
    while i < offsets.len()
        invariant
            log.wf(),
            t == tenant_id.0@,
            trimmed(consumer_group@).len() > 0,
            log.topics() == topics,
            topics == with_stream_topic(old(log).topics(), t),
            start == old(log).offsets(),
            topics.contains_key((t, topic_text())),
            count == topics[(t, topic_text())].config.partition_count,
            i <= offsets@.len(),
            forall|j: int| 0 <= j < i ==> (#[trigger] offsets@[j]).0 < count,
            log.offsets() == offsets_after(start, t, consumer_group@, offsets@, i as int),
        decreases offsets@.len() - i,
    {
        let (partition, committed_sequence) = offsets[i];
        match log.commit_consumer_group_offset(
            tenant_id,
            DURABLE_MUTATION_TOPIC,
            consumer_group,
            partition,
            committed_sequence,
        ) {
            Ok(()) => {},
            Err(e) => {
                let err = ordered_log_error_to_core(&e);
                proof {
                    assert(offsets@[i as int].0 >= count);
                    assert(storage_error_text(err) == Some(
                        invalid_partition_text(offsets@[i as int].0, count),
                    ));
                    assert(!(offsets@[i as int].0 < count));
                }
                return Err(err);
            },
        }
        i = i + 1;
    }
    Ok(())
}

/// Mirrors a committed mutation into the tenant's mutation topic: keyed and
/// partitioned by the record id written in decimal, carrying `payload` (the
/// event's stored form) and stamped at `now`. Gives the appended event and whether the partition's
/// earlier events changed.
pub fn mirror_mutation_event(
    log: &mut OrderedLogState,
    event: &MutationEvent,
    payload: serde_json::Value,
    now: i64,
) -> (r: Result<(OrderedEvent, bool), CoreError>)
    requires
        old(log).wf(),
        old(log).can_append(event.tenant_id.0@, topic_text()),
    ensures
        final(log).wf(),
        final(log).offsets() == old(log).offsets(),
        final(log).topics().contains_key((event.tenant_id.0@, topic_text())),
        match r {
            Ok((ev, _)) => {
                &&& ev.tenant_id == event.tenant_id
                &&& ev.topic@ == topic_text()
                &&& ev.partition_key@ == decimal(event.record_id.0 as nat)
                &&& ev.key is Some && ev.key->Some_0@ == decimal(event.record_id.0 as nat)
                &&& ev.payload == payload
                &&& ev.committed_at == now
            },
            Err(_) => false,
        },
{
    let _ = ensure_durable_mutation_topic(log, &event.tenant_id);
    let id_text = concat_decimal("", event.record_id.0);
    proof {
        reveal_strlit("");
        assert(id_text@ =~= decimal(event.record_id.0 as nat));
    }
    let key = id_text.clone();
    match log.append_at(&event.tenant_id, DURABLE_MUTATION_TOPIC, id_text.as_str(), Some(key), payload, now) {
        Ok(appended) => Ok(appended),
        Err(e) => Err(ordered_log_error_to_core(&e)),
    }
}

} // verus!
