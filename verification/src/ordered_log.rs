//! The partitioned, ordered event log: topics and their partitions, per-partition
//! sequences, compaction and retention, and consumer-group offsets. This is
//! the log's state and its rules; writing it to disk is left to the caller.
use vstd::prelude::*;

use vstd::string::StringSliceAdditionalSpecFns;

use crate::events::first_n;
use crate::keyed::{
    keyed_map, lemma_keyed_map_contains, lemma_keyed_map_index, lemma_keyed_map_push,
    lemma_keyed_map_update, unique_keys,
};
use crate::text::{concat_decimal, decimal};
use crate::types::TenantId;

verus! {

#[verifier::external_type_specification]
#[verifier::external_body]
pub struct ExJsonValue(serde_json::Value);

/// `serde_json::Value`'s `Clone` is derived: the copy is the same value.
pub assume_specification[ <serde_json::Value as Clone>::clone ](v: &serde_json::Value) -> (r:
    serde_json::Value)
    ensures
        r == *v,
;

#[derive(Debug, Clone, Copy, PartialEq, Eq, Structural)]
pub enum CompactionPolicy {
    /// No compaction (written `None` in stored topic metadata).
    Disabled,
    LatestByKey,
}

#[derive(Debug, Clone, Copy, PartialEq, Eq, Structural)]
pub struct OrderedTopicConfig {
    pub partition_count: u32,
    pub retention_max_events_per_partition: Option<usize>,
    pub retention_max_age_seconds: Option<u64>,
    pub compaction_policy: CompactionPolicy,
}

/// An event of the log. `committed_at` is in microseconds since the Unix epoch.
#[derive(Debug, Clone, PartialEq)]
pub struct OrderedEvent {
    pub tenant_id: TenantId,
    pub topic: String,
    pub partition: u32,
    pub sequence: u64,
    pub partition_key: String,
    pub key: Option<String>,
    pub payload: serde_json::Value,
    pub committed_at: i64,
}

impl OrderedEvent {
    /// A copy of this event.
    pub fn duplicate(&self) -> (r: Self)
        ensures
            r == *self,
    {
        OrderedEvent {
            tenant_id: self.tenant_id.duplicate(),
            topic: self.topic.clone(),
            partition: self.partition,
            sequence: self.sequence,
            partition_key: self.partition_key.clone(),
            key: match &self.key {
                Some(k) => Some(k.clone()),
                None => None,
            },
            payload: self.payload.clone(),
            committed_at: self.committed_at,
        }
    }
}

#[derive(Debug, Clone, PartialEq, Eq)]
pub struct ConsumerOffset {
    pub group: String,
    pub partition: u32,
    pub committed_sequence: u64,
}

#[derive(Debug, Clone, PartialEq, Eq)]
pub struct TopicStats {
    pub partition_count: u32,
    pub event_count: usize,
    pub next_sequence_per_partition: Vec<u64>,
}

/// Errors of the log's rules.
#[derive(Debug, Clone, PartialEq, Eq)]
pub enum OrderedLogError {
    TopicExists { tenant: String, topic: String },
    TopicNotFound { tenant: String, topic: String },
    InvalidPartitionCount(u32),
    InvalidPartition { topic: String, partition: u32, partition_count: u32 },
}

pub ghost enum OrderedLogErrorV {
    TopicExists { tenant: Seq<char>, topic: Seq<char> },
    TopicNotFound { tenant: Seq<char>, topic: Seq<char> },
    InvalidPartitionCount(u32),
    InvalidPartition { topic: Seq<char>, partition: u32, partition_count: u32 },
}

impl View for OrderedLogError {
    type V = OrderedLogErrorV;

    open spec fn view(&self) -> OrderedLogErrorV {
        match self {
            OrderedLogError::TopicExists { tenant, topic } => OrderedLogErrorV::TopicExists {
                tenant: tenant@,
                topic: topic@,
            },
            OrderedLogError::TopicNotFound { tenant, topic } => OrderedLogErrorV::TopicNotFound {
                tenant: tenant@,
                topic: topic@,
            },
            OrderedLogError::InvalidPartitionCount(n) => OrderedLogErrorV::InvalidPartitionCount(*n),
            OrderedLogError::InvalidPartition { topic, partition, partition_count } =>
                OrderedLogErrorV::InvalidPartition {
                topic: topic@,
                partition: *partition,
                partition_count: *partition_count,
            },
        }
    }
}

/// The human-readable text of an error of the log.
pub open spec fn ordered_log_error_text(e: OrderedLogErrorV) -> Seq<char> {
    match e {
        OrderedLogErrorV::TopicExists { tenant, topic } => "topic already exists: tenant="@ + tenant
            + ", topic="@ + topic,
        OrderedLogErrorV::TopicNotFound { tenant, topic } => "topic not found: tenant="@ + tenant
            + ", topic="@ + topic,
        OrderedLogErrorV::InvalidPartitionCount(n) => "invalid partition count: "@ + decimal(
            n as nat,
        ),
        OrderedLogErrorV::InvalidPartition { topic, partition, partition_count } =>
            "invalid partition id "@ + decimal(partition as nat) + " for topic "@ + topic
            + " with "@ + decimal(partition_count as nat) + " partitions"@,
    }
}

impl OrderedLogError {
    /// Renders the error as text.
    pub fn message(&self) -> (r: String)
        ensures
            r@ == ordered_log_error_text(self@),
    {
        match self {
            OrderedLogError::TopicExists { tenant, topic } => {
                let mut s = String::from_str("topic already exists: tenant=");
                s.append(tenant.as_str());
                s.append(", topic=");
                s.append(topic.as_str());
                s
            },
            OrderedLogError::TopicNotFound { tenant, topic } => {
                let mut s = String::from_str("topic not found: tenant=");
                s.append(tenant.as_str());
                s.append(", topic=");
                s.append(topic.as_str());
                s
            },
            OrderedLogError::InvalidPartitionCount(n) => concat_decimal(
                "invalid partition count: ",
                *n as u64,
            ),
            OrderedLogError::InvalidPartition { topic, partition, partition_count } => {
                let mut s = concat_decimal("invalid partition id ", *partition as u64);
                s.append(" for topic ");
                s.append(topic.as_str());
                s.append(" with ");
                let count = concat_decimal("", *partition_count as u64);
                s.append(count.as_str());
                s.append(" partitions");
                proof {
                    reveal_strlit("");
                }
                s
            },
        }
    }
}

impl OrderedTopicConfig {
    /// A topic needs at least one partition.
    pub fn validate(&self) -> (r: Result<(), OrderedLogError>)
        ensures
            r is Ok <==> self.partition_count > 0,
            r matches Err(e) ==> e@ == OrderedLogErrorV::InvalidPartitionCount(
                self.partition_count,
            ),
    {
        if self.partition_count == 0 {
            return Err(OrderedLogError::InvalidPartitionCount(self.partition_count));
        }
        Ok(())
    }
}

// ----- partitioning and names -----
pub open spec fn fnv_step(hash: u64, b: u8) -> u64 {
    ((hash ^ (b as u64)) as int * 0x100000001b3int % 0x1_0000_0000_0000_0000int) as u64
}

/// FNV-1a over bytes.
pub open spec fn fnv1a(bytes: Seq<u8>) -> u64
    decreases bytes.len(),
{
    if bytes.len() == 0 {
        0xcbf29ce484222325u64
    } else {
        fnv_step(fnv1a(bytes.drop_last()), bytes.last())
    }
}

/// The 64-bit FNV-1a hash of `bytes`.
pub fn stable_fnv1a_hash(bytes: &[u8]) -> (r: u64)
    ensures
        r == fnv1a(bytes@),
{
    let mut hash: u64 = 0xcbf29ce484222325;
    let mut i: usize = 0;
    assert(bytes@.take(0) =~= Seq::<u8>::empty());
    while i < bytes.len()
        invariant
            i <= bytes@.len(),
            hash == fnv1a(bytes@.take(i as int)),
        decreases bytes@.len() - i,
    {
        assert(bytes@.take(i + 1).drop_last() =~= bytes@.take(i as int));
        hash = hash ^ (bytes[i] as u64);
        hash = hash.wrapping_mul(0x100000001b3);
        i = i + 1;
    }
    assert(bytes@.take(bytes@.len() as int) =~= bytes@);
    hash
}

/// The name of a partition's file within its topic's directory.
pub open spec fn partition_file_text(partition: u32) -> Seq<char> {
    "partition-"@ + decimal(partition as nat) + ".jsonl"@
}

/// The name of a partition's file: `partition-<number>.jsonl`.
pub fn partition_file_name(partition: u32) -> (r: String)
    ensures
        r@ == partition_file_text(partition),
{
    let mut name = concat_decimal("partition-", partition as u64);
    name.append(".jsonl");
    name
}

/// FNV-1a over bytes from a starting hash.
pub open spec fn fnv1a_from(start: u64, bytes: Seq<u8>) -> u64
    decreases bytes.len(),
{
    if bytes.len() == 0 {
        start
    } else {
        fnv_step(fnv1a_from(start, bytes.drop_last()), bytes.last())
    }
}

/// FNV-1a over `bytes` with its offset basis mixed with `salt`; a salt of
/// zero gives plain FNV-1a.
pub fn stable_hash_with_salt(bytes: &[u8], salt: u64) -> (r: u64)
    ensures
        r == fnv1a_from(0xcbf29ce484222325u64 ^ salt, bytes@),
{
    let mut hash: u64 = 0xcbf29ce484222325u64 ^ salt;
    let mut i: usize = 0;
    assert(bytes@.take(0) =~= Seq::<u8>::empty());
    while i < bytes.len()
        invariant
            i <= bytes@.len(),
            hash == fnv1a_from(0xcbf29ce484222325u64 ^ salt, bytes@.take(i as int)),
        decreases bytes@.len() - i,
    {
        assert(bytes@.take(i + 1).drop_last() =~= bytes@.take(i as int));
        hash = hash ^ (bytes[i] as u64);
        hash = hash.wrapping_mul(0x100000001b3);
        i = i + 1;
    }
    assert(bytes@.take(bytes@.len() as int) =~= bytes@);
    hash
}

/// The partition of a partition key among `partition_count` partitions.
pub open spec fn partition_of(partition_key: Seq<u8>, partition_count: u32) -> u32 {
    if partition_count <= 1 {
        0
    } else {
        (fnv1a(partition_key) % (partition_count as u64)) as u32
    }
}

pub fn partition_for_key(partition_key: &str, partition_count: u32) -> (r: u32)
    ensures
        r == partition_of(partition_key.spec_bytes(), partition_count),
        partition_count > 0 ==> r < partition_count,
{
    if partition_count <= 1 {
        return 0;
    }
    let h = stable_fnv1a_hash(partition_key.as_bytes());
    (h % (partition_count as u64)) as u32
}

pub open spec fn hex_char(v: u8) -> char {
    if v < 10 {
        (48 + v) as char
    } else if v < 16 {
        (97 + (v - 10)) as char
    } else {
        '0'
    }
}

/// A hexadecimal digit; values above fifteen give `'0'`.
pub fn hex_digit(value: u8) -> (r: char)
    ensures
        r == hex_char(value),
{
    if value <= 9 {
        (48u8 + value) as char
    } else if value <= 15 {
        (97u8 + (value - 10)) as char
    } else {
        '0'
    }
}

pub open spec fn hex_of(bytes: Seq<u8>) -> Seq<char>
    decreases bytes.len(),
{
    if bytes.len() == 0 {
        Seq::empty()
    } else {
        hex_of(bytes.drop_last()) + seq![hex_char(bytes.last() >> 4), hex_char(bytes.last() & 0x0f)]
    }
}

/// The bytes of `input` in lower-case hexadecimal, two digits each: a name
/// safe to use as a path component.
pub fn hex_component(input: &str) -> (r: String)
    ensures
        r@ == hex_of(input.spec_bytes()),
{
    let bytes = input.as_bytes();
    let mut out: Vec<char> = Vec::new();
    let mut i: usize = 0;
    assert(bytes@.take(0) =~= Seq::<u8>::empty());
    while i < bytes.len()
        invariant
            bytes@ == input.spec_bytes(),
            i <= bytes@.len(),
            out@ == hex_of(bytes@.take(i as int)),
        decreases bytes@.len() - i,
    {
        let b = bytes[i];
        assert(bytes@.take(i + 1).drop_last() =~= bytes@.take(i as int));
        out.push(hex_digit(b >> 4));
        out.push(hex_digit(b & 0x0f));
        assert(out@ =~= hex_of(bytes@.take(i + 1)));
        i = i + 1;
    }
    assert(bytes@.take(bytes@.len() as int) =~= bytes@);
    crate::lexer::string_from_chars(out.as_slice())
}

/// Names a topic of a tenant.
#[derive(Debug, Clone, PartialEq, Eq, Hash)]
pub struct TopicKey {
    pub tenant: String,
    pub topic: String,
}

impl TopicKey {
    pub fn new(tenant_id: &TenantId, topic: &str) -> (r: Self)
        ensures
            r.tenant@ == tenant_id.0@,
            r.topic@ == topic@,
    {
        TopicKey { tenant: tenant_id.0.clone(), topic: String::from_str(topic) }
    }
}

// ----- partition policies -----
pub open spec fn has_key(e: OrderedEvent, k: Seq<char>) -> bool {
    e.key matches Some(x) && x@ == k
}

pub open spec fn key_occurs(s: Seq<OrderedEvent>, k: Seq<char>) -> bool {
    exists|j: int| 0 <= j < s.len() && #[trigger] has_key(s[j], k)
}

/// Compaction that keeps, of the events with the same key, only the latest;
/// events without a key are all kept. Order is preserved.
pub open spec fn compact_latest(s: Seq<OrderedEvent>) -> Seq<OrderedEvent>
    decreases s.len(),
{
    if s.len() == 0 {
        Seq::empty()
    } else {
        let rest = compact_latest(s.drop_first());
        match s[0].key {
            Some(k) => if key_occurs(s.drop_first(), k@) {
                rest
            } else {
                seq![s[0]] + rest
            },
            None => seq![s[0]] + rest,
        }
    }
}

/// The events committed at or after `cutoff`, in order.
pub open spec fn committed_since(s: Seq<OrderedEvent>, cutoff: int) -> Seq<OrderedEvent>
    decreases s.len(),
{
    if s.len() == 0 {
        Seq::empty()
    } else {
        let rest = committed_since(s.drop_last(), cutoff);
        if s.last().committed_at >= cutoff {
            rest.push(s.last())
        } else {
            rest
        }
    }
}

/// A partition's events after its topic's compaction and retention, at time
/// `now`, and whether they changed.
pub open spec fn apply_policies(s: Seq<OrderedEvent>, config: OrderedTopicConfig, now: i64) -> (
    Seq<OrderedEvent>,
    bool,
) {
    let (s1, c1) = if config.compaction_policy == CompactionPolicy::LatestByKey {
        let c = compact_latest(s);
        if c.len() != s.len() {
            (c, true)
        } else {
            (s, false)
        }
    } else {
        (s, false)
    };
    let (s2, c2) = match config.retention_max_events_per_partition {
        Some(max) => if s1.len() > max {
            (s1.skip(s1.len() - max), true)
        } else {
            (s1, c1)
        },
        None => (s1, c1),
    };
    match config.retention_max_age_seconds {
        Some(secs) => {
            let s3 = committed_since(s2, now - secs * 1000000);
            (s3, c2 || s3.len() != s2.len())
        },
        None => (s2, c2),
    }
}

fn contains_text(seen: &Vec<String>, k: &String) -> (r: bool)
    ensures
        r <==> exists|m: int| 0 <= m < seen@.len() && #[trigger] seen@[m]@ == k@,
{
    let mut m: usize = 0;
    while m < seen.len()
        invariant
            m <= seen@.len(),
            forall|j: int| 0 <= j < m ==> #[trigger] seen@[j]@ != k@,
        decreases seen@.len() - m,
    {
        if seen[m] == *k {
            return true;
        }
        m = m + 1;
    }
    false
}

/// Keeps, of the events with the same key, only the latest.
pub fn compact_latest_by_key(events: &[OrderedEvent]) -> (r: Vec<OrderedEvent>)
    ensures
        r@ == compact_latest(events@),
{
    let n = events.len();
    let mut kept_rev: Vec<OrderedEvent> = Vec::new();
    let mut seen: Vec<String> = Vec::new();
    let mut i: usize = n;
    assert(events@.subrange(n as int, n as int) =~= Seq::<OrderedEvent>::empty());
    while i > 0
        invariant
            n == events@.len(),
            i <= n,
            kept_rev@.len() == compact_latest(events@.subrange(i as int, n as int)).len(),
            forall|j: int|
                0 <= j < kept_rev@.len() ==> #[trigger] kept_rev@[j] == compact_latest(
                    events@.subrange(i as int, n as int),
                )[kept_rev@.len() - 1 - j],
            forall|k: Seq<char>|
                (exists|m: int| 0 <= m < seen@.len() && #[trigger] seen@[m]@ == k) <==> key_occurs(
                    events@.subrange(i as int, n as int),
                    k,
                ),
        decreases i,
    {
        let ghost t = events@.subrange(i as int, n as int);
        let ghost c = compact_latest(t);
        let ghost t2 = events@.subrange(i - 1, n as int);
        assert(t2.drop_first() =~= t);
        assert(t2[0] == events@[i - 1]);
        let e = &events[i - 1];
        proof {
            assert forall|k: Seq<char>| key_occurs(t2, k) <==> (has_key(t2[0], k) || key_occurs(t, k)) by {
                if key_occurs(t2, k) {
                    let j = choose|j: int| 0 <= j < t2.len() && #[trigger] has_key(t2[j], k);
                    if j > 0 {
                        assert(has_key(t[j - 1], k));
                    }
                }
                if key_occurs(t, k) {
                    let j = choose|j: int| 0 <= j < t.len() && #[trigger] has_key(t[j], k);
                    assert(has_key(t2[j + 1], k));
                }
                if has_key(t2[0], k) {
                    assert(has_key(t2[0], k));
                }
            }
        }
        let ghost seen_before = seen@;
        let keep = match &e.key {
            Some(k) => {
                if contains_text(&seen, k) {
                    false
                } else {
                    seen.push(k.clone());
                    true
                }
            },
            None => true,
        };
        proof {
            assert forall|k: Seq<char>|
                (exists|m: int| 0 <= m < seen@.len() && #[trigger] seen@[m]@ == k) <==> key_occurs(
                    t2,
                    k,
                ) by {
                if seen@.len() > seen_before.len() {
                    if exists|m: int| 0 <= m < seen@.len() && #[trigger] seen@[m]@ == k {
                        let m = choose|m: int| 0 <= m < seen@.len() && #[trigger] seen@[m]@ == k;
                        if m < seen_before.len() {
                            assert(seen_before[m]@ == k);
                        }
                    }
                    if exists|m: int| 0 <= m < seen_before.len() && #[trigger] seen_before[m]@ == k {
                        let m = choose|m: int|
                            0 <= m < seen_before.len() && #[trigger] seen_before[m]@ == k;
                        assert(seen@[m]@ == k);
                    }
                    if has_key(t2[0], k) {
                        assert(seen@[seen_before.len() as int]@ == k);
                    }
                }
            }
            assert(keep == !(e.key matches Some(k) && key_occurs(t, k@)));
        }
        if keep {
            kept_rev.push(e.duplicate());
        }
        i = i - 1;
    }
    let mut out: Vec<OrderedEvent> = Vec::new();
    let total = kept_rev.len();
    let mut j: usize = 0;
    while j < total
        invariant
            total == kept_rev@.len(),
            j <= total,
            out@.len() == j,
            forall|a: int| 0 <= a < j ==> #[trigger] out@[a] == kept_rev@[total - 1 - a],
        decreases total - j,
    {
        out.push(kept_rev[total - 1 - j].duplicate());
        j = j + 1;
    }
    assert(events@.subrange(0, n as int) =~= events@);
    assert(out@ =~= compact_latest(events@));
    out
}

fn keep_last(events: &Vec<OrderedEvent>, max: usize) -> (r: Vec<OrderedEvent>)
    requires
        events@.len() > max,
    ensures
        r@ == events@.skip(events@.len() - max),
{
    let n = events.len();
    let start = n - max;
    let mut out: Vec<OrderedEvent> = Vec::new();
    let mut j: usize = start;
    while j < n
        invariant
            n == events@.len(),
            start == n - max,
            start <= j <= n,
            out@ == events@.subrange(start as int, j as int),
        decreases n - j,
    {
        out.push(events[j].duplicate());
        assert(out@ =~= events@.subrange(start as int, j + 1));
        j = j + 1;
    }
    assert(events@.subrange(start as int, n as int) =~= events@.skip(start as int));
    out
}

fn keep_committed_since(events: &Vec<OrderedEvent>, cutoff: i128) -> (r: Vec<OrderedEvent>)
    ensures
        r@ == committed_since(events@, cutoff as int),
{
    let n = events.len();
    let mut out: Vec<OrderedEvent> = Vec::new();
    let mut j: usize = 0;
    assert(events@.take(0) =~= Seq::<OrderedEvent>::empty());
    while j < n
        invariant
            n == events@.len(),
            j <= n,
            out@ == committed_since(events@.take(j as int), cutoff as int),
        decreases n - j,
    {
        assert(events@.take(j + 1).drop_last() =~= events@.take(j as int));
        if (events[j].committed_at as i128) >= cutoff {
            out.push(events[j].duplicate());
        }
        j = j + 1;
    }
    assert(events@.take(n as int) =~= events@);
    out
}

/// Applies the topic's compaction and retention to a partition at time
/// `now`; tells whether the partition changed.
pub fn apply_partition_policies(events: &mut Vec<OrderedEvent>, config: &OrderedTopicConfig, now: i64) -> (r:
    bool)
    ensures
        (final(events)@, r) == apply_policies(old(events)@, *config, now),
{
    let mut changed = false;
    if let CompactionPolicy::LatestByKey = config.compaction_policy {
        let compacted = compact_latest_by_key(events.as_slice());
        if compacted.len() != events.len() {
            *events = compacted;
            changed = true;
        }
    }
    if let Some(max_events) = config.retention_max_events_per_partition {
        if events.len() > max_events {
            let kept = keep_last(events, max_events);
            *events = kept;
            changed = true;
        }
    }
    if let Some(max_age_seconds) = config.retention_max_age_seconds {
        let cutoff: i128 = (now as i128) - (max_age_seconds as i128) * 1000000;
        let before = events.len();
        let kept = keep_committed_since(events, cutoff);
        *events = kept;
        changed = changed || events.len() != before;
    }
    changed
}

// ----- the log state -----
#[derive(Debug)]
struct TopicState {
    config: OrderedTopicConfig,
    partitions: Vec<Vec<OrderedEvent>>,
    next_sequence_per_partition: Vec<u64>,
}

#[derive(Debug)]
struct TopicEntry {
    key: TopicKey,
    state: TopicState,
}

#[derive(Debug)]
struct OffsetEntry {
    topic: TopicKey,
    group: String,
    partition: u32,
    committed: u64,
}

/// The topics of the log and the offsets committed by consumer groups.
#[derive(Debug)]
pub struct OrderedLogState {
    topics: Vec<TopicEntry>,
    group_offsets: Vec<OffsetEntry>,
}

/// A topic: its configuration, the events of each partition in log order,
/// and the sequence the next event of each partition gets.
pub ghost struct TopicV {
    pub config: OrderedTopicConfig,
    pub partitions: Seq<Seq<OrderedEvent>>,
    pub next_sequences: Seq<u64>,
}

pub open spec fn topic_wf(t: TopicV) -> bool {
    &&& t.config.partition_count > 0
    &&& t.partitions.len() == t.config.partition_count
    &&& t.next_sequences.len() == t.config.partition_count
}

pub open spec fn partitions_view(ps: Seq<Vec<OrderedEvent>>) -> Seq<Seq<OrderedEvent>> {
    ps.map_values(|v: Vec<OrderedEvent>| v@)
}

spec fn topic_view(t: TopicState) -> TopicV {
    TopicV {
        config: t.config,
        partitions: partitions_view(t.partitions@),
        next_sequences: t.next_sequence_per_partition@,
    }
}

spec fn topic_name_fn() -> spec_fn(TopicEntry) -> (Seq<char>, Seq<char>) {
    |e: TopicEntry| (e.key.tenant@, e.key.topic@)
}

spec fn topic_value_fn() -> spec_fn(TopicEntry) -> TopicV {
    |e: TopicEntry| topic_view(e.state)
}

spec fn offset_name_fn() -> spec_fn(OffsetEntry) -> (Seq<char>, Seq<char>, Seq<char>, u32) {
    |e: OffsetEntry| (e.topic.tenant@, e.topic.topic@, e.group@, e.partition)
}

spec fn offset_value_fn() -> spec_fn(OffsetEntry) -> u64 {
    |e: OffsetEntry| e.committed
}

/// A new topic: empty partitions, each starting at sequence one.
pub open spec fn fresh_topic(config: OrderedTopicConfig) -> TopicV {
    TopicV {
        config,
        partitions: Seq::new(config.partition_count as nat, |_i: int| Seq::<OrderedEvent>::empty()),
        next_sequences: Seq::new(config.partition_count as nat, |_i: int| 1u64),
    }
}

/// A topic after `ev` is appended to partition `p` at time `now`, and
/// whether the partition's policies changed it.
pub open spec fn after_append(t: TopicV, p: int, ev: OrderedEvent, now: i64) -> (TopicV, bool) {
    let (events, changed) = apply_policies(t.partitions[p].push(ev), t.config, now);
    (
        TopicV {
            config: t.config,
            partitions: t.partitions.update(p, events),
            next_sequences: t.next_sequences.update(p, (t.next_sequences[p] + 1) as u64),
        },
        changed,
    )
}

/// The offset a consumer group committed on a partition, zero if none.
pub open spec fn committed_of(
    offsets: Map<(Seq<char>, Seq<char>, Seq<char>, u32), u64>,
    name: (Seq<char>, Seq<char>, Seq<char>, u32),
) -> u64 {
    if offsets.contains_key(name) {
        offsets[name]
    } else {
        0
    }
}

/// The events at or after sequence `from`, in order.
pub open spec fn events_from_sequence(s: Seq<OrderedEvent>, from: u64) -> Seq<OrderedEvent>
    decreases s.len(),
{
    if s.len() == 0 {
        Seq::empty()
    } else {
        let rest = events_from_sequence(s.drop_last(), from);
        if s.last().sequence >= from {
            rest.push(s.last())
        } else {
            rest
        }
    }
}

/// The sequence after a committed one (saturating).
pub open spec fn after_committed(c: u64) -> u64 {
    if c == u64::MAX {
        u64::MAX
    } else {
        (c + 1) as u64
    }
}

/// Keeping the events from a sequence on, over a prefix, gives a prefix of
/// what it gives over the whole partition.
pub proof fn lemma_from_sequence_prefix(s: Seq<OrderedEvent>, from: u64, i: int)
    requires
        0 <= i <= s.len(),
    ensures
        events_from_sequence(s.take(i), from).len() <= events_from_sequence(s, from).len(),
        events_from_sequence(s.take(i), from) =~= events_from_sequence(s, from).take(
            events_from_sequence(s.take(i), from).len() as int,
        ),
    decreases s.len() - i,
{
    if i < s.len() {
        lemma_from_sequence_prefix(s, from, i + 1);
        assert(s.take(i + 1).drop_last() =~= s.take(i));
    } else {
        assert(s.take(i) =~= s);
    }
}

fn take_from_sequence(events: &Vec<OrderedEvent>, from: u64, limit: usize) -> (r: Vec<OrderedEvent>)
    ensures
        r@ == first_n(events_from_sequence(events@, from), limit as nat),
{
    let mut out: Vec<OrderedEvent> = Vec::new();
    let n = events.len();
    let mut i: usize = 0;
    while i < n && out.len() < limit
        invariant
            i <= n,
            n == events@.len(),
            out@ == events_from_sequence(events@.take(i as int), from),
            out@.len() <= limit,
        decreases n - i,
    {
        assert(events@.take(i + 1).drop_last() =~= events@.take(i as int));
        assert(events@.take(i + 1).last() == events@[i as int]);
        if events[i].sequence >= from {
            out.push(events[i].duplicate());
        }
        i = i + 1;
    }
    proof {
        lemma_from_sequence_prefix(events@, from, i as int);
        if out@.len() < limit {
            assert(events@.take(n as int) =~= events@);
        }
    }
    out
}

/// `a` comes before `b` in partition-then-sequence order, or ties with it.
pub open spec fn position_le(a: OrderedEvent, b: OrderedEvent) -> bool {
    a.partition < b.partition || (a.partition == b.partition && a.sequence <= b.sequence)
}

pub open spec fn insert_by_position(s: Seq<OrderedEvent>, e: OrderedEvent) -> Seq<OrderedEvent>
    decreases s.len(),
{
    if s.len() == 0 {
        seq![e]
    } else if position_le(s.last(), e) {
        s.push(e)
    } else {
        insert_by_position(s.drop_last(), e).push(s.last())
    }
}

/// Stable sort by partition, then sequence.
pub open spec fn sorted_by_position(s: Seq<OrderedEvent>) -> Seq<OrderedEvent>
    decreases s.len(),
{
    if s.len() == 0 {
        Seq::empty()
    } else {
        insert_by_position(sorted_by_position(s.drop_last()), s.last())
    }
}

fn insert_event_by_position(out: &mut Vec<OrderedEvent>, e: OrderedEvent)
    ensures
        final(out)@ == insert_by_position(old(out)@, e),
{
    let mut p = out.len();
    assert(out@.take(p as int) =~= out@);
    assert(out@.skip(p as int) =~= Seq::<OrderedEvent>::empty());
    assert(insert_by_position(out@, e) =~= insert_by_position(out@.take(p as int), e) + out@.skip(
        p as int,
    ));
    while p > 0 && !position_le_exec(&out[p - 1], &e)
        invariant
            p <= out@.len(),
            insert_by_position(out@, e) == insert_by_position(out@.take(p as int), e) + out@.skip(
                p as int,
            ),
        decreases p,
    {
        let ghost t = out@.take(p as int);
        assert(t.drop_last() =~= out@.take(p - 1));
        assert(t.last() == out@[p - 1]);
        assert(out@.skip(p - 1) =~= seq![out@[p - 1]] + out@.skip(p as int));
        assert(insert_by_position(t, e) == insert_by_position(t.drop_last(), e).push(t.last()));
        assert(insert_by_position(t.drop_last(), e).push(t.last()) + out@.skip(p as int)
            =~= insert_by_position(t.drop_last(), e) + out@.skip(p - 1));
        p = p - 1;
    }
    proof {
        let t = out@.take(p as int);
        if p == 0 {
            assert(t =~= Seq::<OrderedEvent>::empty());
        }
        assert(insert_by_position(t, e) =~= t.push(e));
    }
    out.insert(p, e);
    assert(out@ =~= old(out)@.take(p as int).push(e) + old(out)@.skip(p as int));
}

fn position_le_exec(a: &OrderedEvent, b: &OrderedEvent) -> (r: bool)
    ensures
        r == position_le(*a, *b),
{
    a.partition < b.partition || (a.partition == b.partition && a.sequence <= b.sequence)
}

fn sort_by_position(events: Vec<OrderedEvent>) -> (r: Vec<OrderedEvent>)
    ensures
        r@ == sorted_by_position(events@),
{
    let mut events = events;
    let ghost all = events@;
    let mut out: Vec<OrderedEvent> = Vec::new();
    let n = events.len();
    let mut rest: Vec<OrderedEvent> = Vec::new();
    // move the events out, last first, so each can be inserted without a copy
    let mut i: usize = n;
    while i > 0
        invariant
            i <= n,
            n == all.len(),
            events@ == all.take(i as int),
            rest@.len() == n - i,
            forall|j: int| 0 <= j < rest@.len() ==> #[trigger] rest@[j] == all[n - 1 - j],
        decreases i,
    {
        let e = events.pop().unwrap();
        assert(events@ =~= all.take(i - 1));
        rest.push(e);
        i = i - 1;
    }
    let mut k: usize = 0;
    while k < n
        invariant
            k <= n,
            n == all.len(),
            rest@.len() == n - k,
            forall|j: int| 0 <= j < rest@.len() ==> #[trigger] rest@[j] == all[n - 1 - j],
            out@ == sorted_by_position(all.take(k as int)),
        decreases n - k,
    {
        let ghost before = rest@;
        let e = rest.pop().unwrap();
        assert(e == before[n - k - 1]);
        assert(e == all[k as int]);
        assert(all.take(k + 1).drop_last() =~= all.take(k as int));
        insert_event_by_position(&mut out, e);
        assert forall|j: int| 0 <= j < rest@.len() implies #[trigger] rest@[j] == all[n - 1 - j] by {
            assert(rest@[j] == before[j]);
        }
        k = k + 1;
    }
    assert(all.take(n as int) =~= all);
    out
}

/// What a consumer group polls from partitions `0..n` of a topic: from each,
/// up to `max` events after its committed offset, partition by partition.
pub open spec fn polled_upto(
    t: TopicV,
    offsets: Map<(Seq<char>, Seq<char>, Seq<char>, u32), u64>,
    tenant: Seq<char>,
    topic: Seq<char>,
    group: Seq<char>,
    max: usize,
    n: nat,
) -> Seq<OrderedEvent>
    decreases n,
{
    if n == 0 {
        Seq::empty()
    } else {
        let p = (n - 1) as nat;
        polled_upto(t, offsets, tenant, topic, group, max, p) + first_n(
            events_from_sequence(
                t.partitions[p as int],
                after_committed(committed_of(offsets, (tenant, topic, group, p as u32))),
            ),
            max as nat,
        )
    }
}

/// The number of events over all partitions.
pub open spec fn total_events(ps: Seq<Seq<OrderedEvent>>) -> nat
    decreases ps.len(),
{
    if ps.len() == 0 {
        0
    } else {
        total_events(ps.drop_last()) + ps.last().len()
    }
}

/// The highest sequence among events, zero if there are none.
pub open spec fn max_sequence(s: Seq<OrderedEvent>) -> u64
    decreases s.len(),
{
    if s.len() == 0 {
        0
    } else {
        let m = max_sequence(s.drop_last());
        if s.last().sequence > m {
            s.last().sequence
        } else {
            m
        }
    }
}

pub open spec fn insert_by_sequence(s: Seq<OrderedEvent>, e: OrderedEvent) -> Seq<OrderedEvent>
    decreases s.len(),
{
    if s.len() == 0 {
        seq![e]
    } else if s.last().sequence <= e.sequence {
        s.push(e)
    } else {
        insert_by_sequence(s.drop_last(), e).push(s.last())
    }
}

/// Stable sort by sequence.
pub open spec fn sorted_by_sequence(s: Seq<OrderedEvent>) -> Seq<OrderedEvent>
    decreases s.len(),
{
    if s.len() == 0 {
        Seq::empty()
    } else {
        insert_by_sequence(sorted_by_sequence(s.drop_last()), s.last())
    }
}

/// A topic as restored from stored partitions: each partition sorted by
/// sequence, continuing after its highest sequence.
pub open spec fn restored_topic(config: OrderedTopicConfig, ps: Seq<Seq<OrderedEvent>>) -> TopicV {
    TopicV {
        config,
        partitions: ps.map_values(|s: Seq<OrderedEvent>| sorted_by_sequence(s)),
        next_sequences: ps.map_values(|s: Seq<OrderedEvent>| after_committed(max_sequence(s))),
    }
}

fn insert_event_by_sequence(out: &mut Vec<OrderedEvent>, e: OrderedEvent)
    ensures
        final(out)@ == insert_by_sequence(old(out)@, e),
{
    let mut p = out.len();
    assert(out@.take(p as int) =~= out@);
    assert(out@.skip(p as int) =~= Seq::<OrderedEvent>::empty());
    assert(insert_by_sequence(out@, e) =~= insert_by_sequence(out@.take(p as int), e) + out@.skip(
        p as int,
    ));
    while p > 0 && out[p - 1].sequence > e.sequence
        invariant
            p <= out@.len(),
            insert_by_sequence(out@, e) == insert_by_sequence(out@.take(p as int), e) + out@.skip(
                p as int,
            ),
        decreases p,
    {
        let ghost t = out@.take(p as int);
        assert(t.drop_last() =~= out@.take(p - 1));
        assert(t.last() == out@[p - 1]);
        assert(out@.skip(p - 1) =~= seq![out@[p - 1]] + out@.skip(p as int));
        assert(insert_by_sequence(t, e) == insert_by_sequence(t.drop_last(), e).push(t.last()));
        assert(insert_by_sequence(t.drop_last(), e).push(t.last()) + out@.skip(p as int)
            =~= insert_by_sequence(t.drop_last(), e) + out@.skip(p - 1));
        p = p - 1;
    }
    proof {
        let t = out@.take(p as int);
        if p == 0 {
            assert(t =~= Seq::<OrderedEvent>::empty());
        }
        assert(insert_by_sequence(t, e) =~= t.push(e));
    }
    out.insert(p, e);
    assert(out@ =~= old(out)@.take(p as int).push(e) + old(out)@.skip(p as int));
}

fn restore_partition(events: Vec<OrderedEvent>) -> (r: (Vec<OrderedEvent>, u64))
    ensures
        r.0@ == sorted_by_sequence(events@),
        r.1 == after_committed(max_sequence(events@)),
{
    let n = events.len();
    let mut out: Vec<OrderedEvent> = Vec::new();
    let mut highest: u64 = 0;
    let mut i: usize = 0;
    assert(events@.take(0) =~= Seq::<OrderedEvent>::empty());
    while i < n
        invariant
            n == events@.len(),
            i <= n,
            out@ == sorted_by_sequence(events@.take(i as int)),
            highest == max_sequence(events@.take(i as int)),
        decreases n - i,
    {
        assert(events@.take(i + 1).drop_last() =~= events@.take(i as int));
        let e = events[i].duplicate();
        if e.sequence > highest {
            highest = e.sequence;
        }
        insert_event_by_sequence(&mut out, e);
        i = i + 1;
    }
    assert(events@.take(n as int) =~= events@);
    let next = if highest == u64::MAX {
        u64::MAX
    } else {
        highest + 1
    };
    (out, next)
}

impl OrderedLogState {
    /// The topics, by tenant and topic name.
    pub closed spec fn topics(&self) -> Map<(Seq<char>, Seq<char>), TopicV> {
        keyed_map(self.topics@, topic_name_fn(), topic_value_fn())
    }

    /// The committed offsets, by tenant, topic, group and partition.
    pub closed spec fn offsets(&self) -> Map<(Seq<char>, Seq<char>, Seq<char>, u32), u64> {
        keyed_map(self.group_offsets@, offset_name_fn(), offset_value_fn())
    }

    pub closed spec fn wf(&self) -> bool {
        &&& unique_keys(self.topics@, topic_name_fn())
        &&& unique_keys(self.group_offsets@, offset_name_fn())
        &&& forall|i: int|
            0 <= i < self.topics@.len() ==> topic_wf(#[trigger] topic_view(self.topics@[i].state))
    }

    /// No partition of the topic has used up its sequences.
    pub open spec fn can_append(&self, tenant: Seq<char>, topic: Seq<char>) -> bool {
        self.topics().contains_key((tenant, topic)) ==> forall|p: int|
            0 <= p < self.topics()[(tenant, topic)].next_sequences.len()
                ==> #[trigger] self.topics()[(tenant, topic)].next_sequences[p] < u64::MAX
    }

    /// Every topic is well formed.
    pub proof fn lemma_topics_wf(&self)
        requires
            self.wf(),
        ensures
            forall|name: (Seq<char>, Seq<char>)| #[trigger]
                self.topics().contains_key(name) ==> topic_wf(self.topics()[name]),
    {
        assert forall|name: (Seq<char>, Seq<char>)| #[trigger]
            self.topics().contains_key(name) implies topic_wf(self.topics()[name]) by {
            lemma_keyed_map_contains(self.topics@, topic_name_fn(), topic_value_fn(), name);
            let i = choose|i: int|
                0 <= i < self.topics@.len() && (topic_name_fn())(self.topics@[i]) == name;
            lemma_keyed_map_index(self.topics@, topic_name_fn(), topic_value_fn(), i);
            assert(topic_wf(topic_view(self.topics@[i].state)));
        }
    }

    pub fn new() -> (r: Self)
        ensures
            r.wf(),
            r.topics() == Map::<(Seq<char>, Seq<char>), TopicV>::empty(),
            r.offsets() == Map::<(Seq<char>, Seq<char>, Seq<char>, u32), u64>::empty(),
    {
        OrderedLogState { topics: Vec::new(), group_offsets: Vec::new() }
    }

    fn find_topic(&self, tenant: &String, topic: &String) -> (r: Option<usize>)
        requires
            self.wf(),
        ensures
            match r {
                Some(i) => i < self.topics@.len() && (topic_name_fn())(self.topics@[i as int]) == (
                    tenant@,
                    topic@,
                ) && self.topics().contains_key((tenant@, topic@)) && self.topics()[(
                    tenant@,
                    topic@,
                )] == topic_view(self.topics@[i as int].state),
                None => !self.topics().contains_key((tenant@, topic@)),
            },
    {
        let mut i: usize = 0;
        while i < self.topics.len()
            invariant
                self.wf(),
                i <= self.topics@.len(),
                forall|j: int|
                    0 <= j < i ==> (topic_name_fn())(#[trigger] self.topics@[j]) != (tenant@, topic@),
            decreases self.topics@.len() - i,
        {
            if self.topics[i].key.tenant == *tenant && self.topics[i].key.topic == *topic {
                proof {
                    lemma_keyed_map_index(self.topics@, topic_name_fn(), topic_value_fn(), i as int);
                }
                return Some(i);
            }
            i = i + 1;
        }
        proof {
            lemma_keyed_map_contains(self.topics@, topic_name_fn(), topic_value_fn(), (tenant@, topic@));
        }
        None
    }

    fn find_offset(&self, tenant: &String, topic: &String, group: &String, partition: u32) -> (r:
        Option<usize>)
        requires
            self.wf(),
        ensures
            match r {
                Some(i) => i < self.group_offsets@.len() && (offset_name_fn())(
                    self.group_offsets@[i as int],
                ) == (tenant@, topic@, group@, partition) && self.offsets().contains_key(
                    (tenant@, topic@, group@, partition),
                ) && self.offsets()[(tenant@, topic@, group@, partition)]
                    == self.group_offsets@[i as int].committed,
                None => !self.offsets().contains_key((tenant@, topic@, group@, partition)),
            },
    {
        let mut i: usize = 0;
        while i < self.group_offsets.len()
            invariant
                self.wf(),
                i <= self.group_offsets@.len(),
                forall|j: int|
                    0 <= j < i ==> (offset_name_fn())(#[trigger] self.group_offsets@[j]) != (
                        tenant@,
                        topic@,
                        group@,
                        partition,
                    ),
            decreases self.group_offsets@.len() - i,
        {
            let e = &self.group_offsets[i];
            if e.topic.tenant == *tenant && e.topic.topic == *topic && e.group == *group
                && e.partition == partition {
                proof {
                    lemma_keyed_map_index(
                        self.group_offsets@,
                        offset_name_fn(),
                        offset_value_fn(),
                        i as int,
                    );
                }
                return Some(i);
            }
            i = i + 1;
        }
        proof {
            lemma_keyed_map_contains(
                self.group_offsets@,
                offset_name_fn(),
                offset_value_fn(),
                (tenant@, topic@, group@, partition),
            );
        }
        None
    }

    /// Adds a topic with empty partitions.
    pub fn create_topic(&mut self, tenant_id: TenantId, topic: &str, config: OrderedTopicConfig) -> (r:
        Result<(), OrderedLogError>)
        requires
            old(self).wf(),
        ensures
            final(self).wf(),
            final(self).offsets() == old(self).offsets(),
            r is Ok <==> (config.partition_count > 0 && !old(self).topics().contains_key(
                (tenant_id.0@, topic@),
            )),
            r is Ok ==> final(self).topics() == old(self).topics().insert(
                (tenant_id.0@, topic@),
                fresh_topic(config),
            ),
            r is Err ==> final(self).topics() == old(self).topics(),
            r matches Err(e) ==> e@ == (if config.partition_count == 0 {
                OrderedLogErrorV::InvalidPartitionCount(0)
            } else {
                OrderedLogErrorV::TopicExists { tenant: tenant_id.0@, topic: topic@ }
            }),
    {
        match config.validate() {
            Ok(_) => {},
            Err(e) => {
                return Err(e);
            },
        }
        let topic_name = String::from_str(topic);
        if let Some(_) = self.find_topic(&tenant_id.0, &topic_name) {
            return Err(OrderedLogError::TopicExists { tenant: tenant_id.0, topic: topic_name });
        }
        let n = config.partition_count;
        let mut partitions: Vec<Vec<OrderedEvent>> = Vec::new();
        let mut next: Vec<u64> = Vec::new();
        let mut p: u32 = 0;
        while p < n
            invariant
                p <= n,
                partitions_view(partitions@) =~= Seq::new(
                    p as nat,
                    |_i: int| Seq::<OrderedEvent>::empty(),
                ),
                next@ =~= Seq::new(p as nat, |_i: int| 1u64),
            decreases n - p,
        {
            let ghost before = partitions_view(partitions@);
            let empty: Vec<OrderedEvent> = Vec::new();
            partitions.push(empty);
            assert(partitions_view(partitions@) =~= before.push(Seq::<OrderedEvent>::empty()));
            next.push(1);
            p = p + 1;
        }
        let entry = TopicEntry {
            key: TopicKey { tenant: tenant_id.0, topic: topic_name },
            state: TopicState { config, partitions, next_sequence_per_partition: next },
        };
        proof {
            lemma_keyed_map_push(self.topics@, topic_name_fn(), topic_value_fn(), entry);
        }
        self.topics.push(entry);
        proof {
            assert forall|i: int| 0 <= i < self.topics@.len() implies topic_wf(
                #[trigger] topic_view(self.topics@[i].state),
            ) by {
                if i < old(self).topics@.len() {
                    assert(self.topics@[i] == old(self).topics@[i]);
                }
            }
        }
        Ok(())
    }

    /// Appends an event at time `now` to the partition of `partition_key`,
    /// then applies the topic's compaction and retention to that partition.
    /// Gives the event and whether the partition's earlier events changed.
    pub fn append_at(
        &mut self,
        tenant_id: &TenantId,
        topic: &str,
        partition_key: &str,
        key: Option<String>,
        payload: serde_json::Value,
        now: i64,
    ) -> (r: Result<(OrderedEvent, bool), OrderedLogError>)
        requires
            old(self).wf(),
            old(self).can_append(tenant_id.0@, topic@),
        ensures
            final(self).wf(),
            final(self).offsets() == old(self).offsets(),
            r is Ok <==> old(self).topics().contains_key((tenant_id.0@, topic@)),
            r matches Err(e) ==> e@ == (OrderedLogErrorV::TopicNotFound {
                tenant: tenant_id.0@,
                topic: topic@,
            }) && final(self).topics() == old(self).topics(),
            r matches Ok((ev, changed)) ==> {
                let t = old(self).topics()[(tenant_id.0@, topic@)];
                let p = partition_of(partition_key.spec_bytes(), t.config.partition_count);
                &&& ev.tenant_id == *tenant_id
                &&& ev.topic@ == topic@
                &&& ev.partition == p
                &&& ev.sequence == t.next_sequences[p as int]
                &&& ev.partition_key@ == partition_key@
                &&& ev.key == key
                &&& ev.payload == payload
                &&& ev.committed_at == now
                &&& final(self).topics() == old(self).topics().insert(
                    (tenant_id.0@, topic@),
                    after_append(t, p as int, ev, now).0,
                )
                &&& changed == after_append(t, p as int, ev, now).1
            },
    {
        let topic_name = String::from_str(topic);
        let i = match self.find_topic(&tenant_id.0, &topic_name) {
            Some(i) => i,
            None => {
                return Err(
                    OrderedLogError::TopicNotFound { tenant: tenant_id.0.clone(), topic: topic_name },
                );
            },
        };
        let ghost t = old(self).topics()[(tenant_id.0@, topic@)];
        proof {
            old(self).lemma_topics_wf();
        }
        let mut entry = self.topics.remove(i);
        assert(topic_view(entry.state) == t);
        let count = entry.state.config.partition_count;
        let partition = partition_for_key(partition_key, count);
        let pi = partition as usize;
        let sequence = entry.state.next_sequence_per_partition[pi];
        entry.state.next_sequence_per_partition.set(pi, sequence + 1);
        let event = OrderedEvent {
            tenant_id: tenant_id.duplicate(),
            topic: String::from_str(topic),
            partition,
            sequence,
            partition_key: String::from_str(partition_key),
            key,
            payload,
            committed_at: now,
        };
        let mut events = entry.state.partitions.remove(pi);
        events.push(event.duplicate());
        let config = entry.state.config;
        let changed = apply_partition_policies(&mut events, &config, now);
        entry.state.partitions.insert(pi, events);
        proof {
            assert(partitions_view(entry.state.partitions@) =~= t.partitions.update(
                pi as int,
                apply_policies(t.partitions[pi as int].push(event), config, now).0,
            ));
            assert(topic_view(entry.state) == after_append(t, pi as int, event, now).0);
            assert(self.topics@.insert(i as int, entry) =~= old(self).topics@.update(i as int, entry));
            lemma_keyed_map_update(old(self).topics@, topic_name_fn(), topic_value_fn(), i as int, entry);
        }
        self.topics.insert(i, entry);
        proof {
            assert forall|j: int| 0 <= j < self.topics@.len() implies topic_wf(
                #[trigger] topic_view(self.topics@[j].state),
            ) by {
                if j != i {
                    assert(self.topics@[j] == old(self).topics@[j]);
                }
            }
        }
        Ok((event, changed))
    }

    fn partition_error(topic: &str, partition: u32, partition_count: u32) -> (r: OrderedLogError)
        ensures
            r@ == (OrderedLogErrorV::InvalidPartition { topic: topic@, partition, partition_count }),
    {
        OrderedLogError::InvalidPartition {
            topic: String::from_str(topic),
            partition,
            partition_count,
        }
    }

    /// Up to `limit` events of a partition from sequence `from_sequence` on,
    /// in log order.
    pub fn replay_from(
        &self,
        tenant_id: &TenantId,
        topic: &str,
        partition: u32,
        from_sequence: u64,
        limit: usize,
    ) -> (r: Result<Vec<OrderedEvent>, OrderedLogError>)
        requires
            self.wf(),
        ensures
            r is Ok <==> (self.topics().contains_key((tenant_id.0@, topic@)) && partition
                < self.topics()[(tenant_id.0@, topic@)].config.partition_count),
            r matches Err(e) ==> e@ == (if !self.topics().contains_key((tenant_id.0@, topic@)) {
                OrderedLogErrorV::TopicNotFound { tenant: tenant_id.0@, topic: topic@ }
            } else {
                OrderedLogErrorV::InvalidPartition {
                    topic: topic@,
                    partition,
                    partition_count: self.topics()[(tenant_id.0@, topic@)].config.partition_count,
                }
            }),
            r matches Ok(v) ==> v@ == first_n(
                events_from_sequence(
                    self.topics()[(tenant_id.0@, topic@)].partitions[partition as int],
                    from_sequence,
                ),
                limit as nat,
            ),
    {
        let topic_name = String::from_str(topic);
        let i = match self.find_topic(&tenant_id.0, &topic_name) {
            Some(i) => i,
            None => {
                return Err(
                    OrderedLogError::TopicNotFound { tenant: tenant_id.0.clone(), topic: topic_name },
                );
            },
        };
        proof {
            self.lemma_topics_wf();
        }
        let state = &self.topics[i].state;
        if partition >= state.config.partition_count {
            return Err(Self::partition_error(topic, partition, state.config.partition_count));
        }
        Ok(take_from_sequence(&state.partitions[partition as usize], from_sequence, limit))
    }

    /// For each partition, up to `max_events_per_partition` events after the
    /// group's committed offset; ordered by partition, then sequence.
    pub fn poll_consumer_group(
        &self,
        tenant_id: &TenantId,
        topic: &str,
        group: &str,
        max_events_per_partition: usize,
    ) -> (r: Result<Vec<OrderedEvent>, OrderedLogError>)
        requires
            self.wf(),
        ensures
            r is Ok <==> self.topics().contains_key((tenant_id.0@, topic@)),
            r matches Err(e) ==> e@ == (OrderedLogErrorV::TopicNotFound {
                tenant: tenant_id.0@,
                topic: topic@,
            }),
            r matches Ok(v) ==> {
                let t = self.topics()[(tenant_id.0@, topic@)];
                v@ == sorted_by_position(
                    polled_upto(
                        t,
                        self.offsets(),
                        tenant_id.0@,
                        topic@,
                        group@,
                        max_events_per_partition,
                        t.config.partition_count as nat,
                    ),
                )
            },
    {
        let topic_name = String::from_str(topic);
        let group_name = String::from_str(group);
        let i = match self.find_topic(&tenant_id.0, &topic_name) {
            Some(i) => i,
            None => {
                return Err(
                    OrderedLogError::TopicNotFound { tenant: tenant_id.0.clone(), topic: topic_name },
                );
            },
        };
        proof {
            self.lemma_topics_wf();
        }
        let state = &self.topics[i].state;
        let ghost t = self.topics()[(tenant_id.0@, topic@)];
        let count = state.config.partition_count;
        let mut out: Vec<OrderedEvent> = Vec::new();
        let mut p: u32 = 0;
        while p < count
            invariant
                self.wf(),
                topic_name@ == topic@,
                group_name@ == group@,
                count == t.config.partition_count,
                topic_wf(t),
                topic_view(*state) == t,
                p <= count,
                out@ == polled_upto(
                    t,
                    self.offsets(),
                    tenant_id.0@,
                    topic@,
                    group_name@,
                    max_events_per_partition,
                    p as nat,
                ),
            decreases count - p,
        {
            let committed = self.committed_offset(&tenant_id.0, &topic_name, &group_name, p);
            let next = if committed == u64::MAX {
                u64::MAX
            } else {
                committed + 1
            };
            let mut batch = take_from_sequence(
                &state.partitions[p as usize],
                next,
                max_events_per_partition,
            );
            let ghost before = out@;
            assert(state.partitions@[p as int]@ == t.partitions[p as int]);
            out.append(&mut batch);
            assert(polled_upto(
                t,
                self.offsets(),
                tenant_id.0@,
                topic@,
                group_name@,
                max_events_per_partition,
                (p + 1) as nat,
            ) == before + first_n(
                events_from_sequence(
                    t.partitions[p as int],
                    after_committed(committed_of(self.offsets(), (tenant_id.0@, topic@, group_name@, p))),
                ),
                max_events_per_partition as nat,
            ));
            p = p + 1;
        }
        Ok(sort_by_position(out))
    }

    /// Records that a group has processed a partition up to a sequence; an
    /// offset never moves back.
    pub fn commit_consumer_group_offset(
        &mut self,
        tenant_id: &TenantId,
        topic: &str,
        group: &str,
        partition: u32,
        committed_sequence: u64,
    ) -> (r: Result<(), OrderedLogError>)
        requires
            old(self).wf(),
        ensures
            final(self).wf(),
            final(self).topics() == old(self).topics(),
            r is Ok <==> (old(self).topics().contains_key((tenant_id.0@, topic@)) && partition
                < old(self).topics()[(tenant_id.0@, topic@)].config.partition_count),
            r matches Err(e) ==> final(self).offsets() == old(self).offsets() && e@ == (
            if !old(self).topics().contains_key((tenant_id.0@, topic@)) {
                OrderedLogErrorV::TopicNotFound { tenant: tenant_id.0@, topic: topic@ }
            } else {
                OrderedLogErrorV::InvalidPartition {
                    topic: topic@,
                    partition,
                    partition_count: old(self).topics()[(
                        tenant_id.0@,
                        topic@,
                    )].config.partition_count,
                }
            }),
            r is Ok ==> {
                let name = (tenant_id.0@, topic@, group@, partition);
                let current = committed_of(old(self).offsets(), name);
                final(self).offsets() == old(self).offsets().insert(
                    name,
                    if current >= committed_sequence {
                        current
                    } else {
                        committed_sequence
                    },
                )
            },
    {
        let topic_name = String::from_str(topic);
        let group_name = String::from_str(group);
        let i = match self.find_topic(&tenant_id.0, &topic_name) {
            Some(i) => i,
            None => {
                return Err(
                    OrderedLogError::TopicNotFound { tenant: tenant_id.0.clone(), topic: topic_name },
                );
            },
        };
        let count = self.topics[i].state.config.partition_count;
        if partition >= count {
            return Err(Self::partition_error(topic, partition, count));
        }
        self.store_offset(tenant_id, &topic_name, &group_name, partition, committed_sequence, true);
        Ok(())
    }

    /// Sets a group's offset on a partition; with `keep_highest` an offset
    /// already higher stays.
    fn store_offset(
        &mut self,
        tenant_id: &TenantId,
        topic: &String,
        group: &String,
        partition: u32,
        committed_sequence: u64,
        keep_highest: bool,
    )
        requires
            old(self).wf(),
        ensures
            final(self).wf(),
            final(self).topics() == old(self).topics(),
            ({
                let name = (tenant_id.0@, topic@, group@, partition);
                let current = committed_of(old(self).offsets(), name);
                final(self).offsets() == old(self).offsets().insert(
                    name,
                    if keep_highest && current >= committed_sequence {
                        current
                    } else {
                        committed_sequence
                    },
                )
            }),
    {
        match self.find_offset(&tenant_id.0, topic, group, partition) {
            Some(j) => {
                let current = self.group_offsets[j].committed;
                let next = if keep_highest && current >= committed_sequence {
                    current
                } else {
                    committed_sequence
                };
                let mut entry = self.group_offsets.remove(j);
                entry.committed = next;
                proof {
                    assert(self.group_offsets@.insert(j as int, entry) =~= old(
                        self,
                    ).group_offsets@.update(j as int, entry));
                    lemma_keyed_map_update(
                        old(self).group_offsets@,
                        offset_name_fn(),
                        offset_value_fn(),
                        j as int,
                        entry,
                    );
                }
                self.group_offsets.insert(j, entry);
            },
            None => {
                let entry = OffsetEntry {
                    topic: TopicKey { tenant: tenant_id.0.clone(), topic: topic.clone() },
                    group: group.clone(),
                    partition,
                    committed: committed_sequence,
                };
                proof {
                    lemma_keyed_map_push(
                        self.group_offsets@,
                        offset_name_fn(),
                        offset_value_fn(),
                        entry,
                    );
                }
                self.group_offsets.push(entry);
            },
        }
    }

    pub fn topic_config(&self, tenant_id: &TenantId, topic: &str) -> (r: Result<
        OrderedTopicConfig,
        OrderedLogError,
    >)
        requires
            self.wf(),
        ensures
            r is Ok <==> self.topics().contains_key((tenant_id.0@, topic@)),
            r matches Ok(c) ==> c == self.topics()[(tenant_id.0@, topic@)].config,
            r matches Err(e) ==> e@ == (OrderedLogErrorV::TopicNotFound {
                tenant: tenant_id.0@,
                topic: topic@,
            }),
    {
        let topic_name = String::from_str(topic);
        match self.find_topic(&tenant_id.0, &topic_name) {
            Some(i) => Ok(self.topics[i].state.config),
            None => Err(
                OrderedLogError::TopicNotFound { tenant: tenant_id.0.clone(), topic: topic_name },
            ),
        }
    }

    /// The committed offset of a group on every partition of a topic.
    pub fn consumer_offsets(&self, tenant_id: &TenantId, topic: &str, group: &str) -> (r: Result<
        Vec<ConsumerOffset>,
        OrderedLogError,
    >)
        requires
            self.wf(),
        ensures
            r is Ok <==> self.topics().contains_key((tenant_id.0@, topic@)),
            r matches Err(e) ==> e@ == (OrderedLogErrorV::TopicNotFound {
                tenant: tenant_id.0@,
                topic: topic@,
            }),
            r matches Ok(v) ==> v@.len() == self.topics()[(
                tenant_id.0@,
                topic@,
            )].config.partition_count && forall|p: int|
                0 <= p < v@.len() ==> {
                    &&& (#[trigger] v@[p]).group@ == group@
                    &&& v@[p].partition == p
                    &&& v@[p].committed_sequence == committed_of(
                        self.offsets(),
                        (tenant_id.0@, topic@, group@, p as u32),
                    )
                },
    {
        let topic_name = String::from_str(topic);
        let group_name = String::from_str(group);
        let i = match self.find_topic(&tenant_id.0, &topic_name) {
            Some(i) => i,
            None => {
                return Err(
                    OrderedLogError::TopicNotFound { tenant: tenant_id.0.clone(), topic: topic_name },
                );
            },
        };
        let count = self.topics[i].state.config.partition_count;
        let mut out: Vec<ConsumerOffset> = Vec::new();
        let mut p: u32 = 0;
        while p < count
            invariant
                self.wf(),
                topic_name@ == topic@,
                group_name@ == group@,
                p <= count,
                out@.len() == p,
                forall|q: int|
                    0 <= q < p ==> {
                        &&& (#[trigger] out@[q]).group@ == group@
                        &&& out@[q].partition == q
                        &&& out@[q].committed_sequence == committed_of(
                            self.offsets(),
                            (tenant_id.0@, topic@, group@, q as u32),
                        )
                    },
            decreases count - p,
        {
            let committed = self.committed_offset(&tenant_id.0, &topic_name, &group_name, p);
            out.push(
                ConsumerOffset { group: group_name.clone(), partition: p, committed_sequence: committed },
            );
            p = p + 1;
        }
        Ok(out)
    }

    /// The partition count, the number of stored events (saturating at
    /// `usize::MAX`) and the next sequence of each partition.
    pub fn topic_stats(&self, tenant_id: &TenantId, topic: &str) -> (r: Result<
        TopicStats,
        OrderedLogError,
    >)
        requires
            self.wf(),
        ensures
            r is Ok <==> self.topics().contains_key((tenant_id.0@, topic@)),
            r matches Err(e) ==> e@ == (OrderedLogErrorV::TopicNotFound {
                tenant: tenant_id.0@,
                topic: topic@,
            }),
            r matches Ok(st) ==> {
                let t = self.topics()[(tenant_id.0@, topic@)];
                &&& st.partition_count == t.config.partition_count
                &&& st.next_sequence_per_partition@ == t.next_sequences
                &&& st.event_count == (if total_events(t.partitions) > usize::MAX {
                    usize::MAX as nat
                } else {
                    total_events(t.partitions)
                })
            },
    {
        let topic_name = String::from_str(topic);
        let i = match self.find_topic(&tenant_id.0, &topic_name) {
            Some(i) => i,
            None => {
                return Err(
                    OrderedLogError::TopicNotFound { tenant: tenant_id.0.clone(), topic: topic_name },
                );
            },
        };
        let state = &self.topics[i].state;
        let ghost ps = partitions_view(state.partitions@);
        let mut count: usize = 0;
        let mut j: usize = 0;
        assert(ps.take(0) =~= Seq::<Seq<OrderedEvent>>::empty());
        while j < state.partitions.len()
            invariant
                ps == partitions_view(state.partitions@),
                j <= state.partitions@.len(),
                count == (if total_events(ps.take(j as int)) > usize::MAX {
                    usize::MAX as nat
                } else {
                    total_events(ps.take(j as int))
                }),
            decreases state.partitions@.len() - j,
        {
            assert(ps.take(j + 1).drop_last() =~= ps.take(j as int));
            let len = state.partitions[j].len();
            count = if count > usize::MAX - len {
                usize::MAX
            } else {
                count + len
            };
            j = j + 1;
        }
        assert(ps.take(state.partitions@.len() as int) =~= ps);
        let mut next: Vec<u64> = Vec::new();
        let mut k: usize = 0;
        while k < state.next_sequence_per_partition.len()
            invariant
                k <= state.next_sequence_per_partition@.len(),
                next@ == state.next_sequence_per_partition@.take(k as int),
            decreases state.next_sequence_per_partition@.len() - k,
        {
            next.push(state.next_sequence_per_partition[k]);
            assert(next@ =~= state.next_sequence_per_partition@.take(k + 1));
            k = k + 1;
        }
        assert(state.next_sequence_per_partition@.take(k as int)
            =~= state.next_sequence_per_partition@);
        Ok(
            TopicStats {
                partition_count: state.config.partition_count,
                event_count: count,
                next_sequence_per_partition: next,
            },
        )
    }

    /// Installs a topic read back from storage (replacing one of the same
    /// name): each partition is sorted by sequence and continues after its
    /// highest sequence.
    pub fn restore_topic(
        &mut self,
        tenant_id: &TenantId,
        topic: &str,
        config: OrderedTopicConfig,
        partitions: Vec<Vec<OrderedEvent>>,
    ) -> (r: Result<(), OrderedLogError>)
        requires
            old(self).wf(),
            partitions@.len() == config.partition_count,
        ensures
            final(self).wf(),
            final(self).offsets() == old(self).offsets(),
            r is Ok <==> config.partition_count > 0,
            r matches Err(e) ==> e@ == OrderedLogErrorV::InvalidPartitionCount(0)
                && final(self).topics() == old(self).topics(),
            r is Ok ==> final(self).topics() == old(self).topics().insert(
                (tenant_id.0@, topic@),
                restored_topic(config, partitions_view(partitions@)),
            ),
    {
        match config.validate() {
            Ok(_) => {},
            Err(e) => {
                return Err(e);
            },
        }
        let ghost ps = partitions_view(partitions@);
        let mut partitions = partitions;
        let mut rest: Vec<Vec<OrderedEvent>> = Vec::new();
        let n = partitions.len();
        let mut i: usize = n;
        while i > 0
            invariant
                i <= n,
                n == ps.len(),
                partitions_view(partitions@) == ps.take(i as int),
                partitions@.len() == i,
                rest@.len() == n - i,
                forall|j: int| 0 <= j < rest@.len() ==> (#[trigger] rest@[j])@ == ps[n - 1 - j],
            decreases i,
        {
            let ghost before = rest@;
            assert(partitions_view(partitions@)[i - 1] == partitions@[i - 1]@);
            assert(ps.take(i as int)[i - 1] == ps[i - 1]);
            let v = partitions.pop().unwrap();
            assert(v@ == ps[i - 1]);
            assert(partitions_view(partitions@) =~= ps.take(i - 1));
            rest.push(v);
            assert forall|j: int| 0 <= j < rest@.len() implies (#[trigger] rest@[j])@ == ps[n - 1
                - j] by {
                if j < before.len() {
                    assert(rest@[j] == before[j]);
                }
            }
            i = i - 1;
        }
        let mut sorted: Vec<Vec<OrderedEvent>> = Vec::new();
        let mut next: Vec<u64> = Vec::new();
        let mut k: usize = 0;
        while k < n
            invariant
                k <= n,
                n == ps.len(),
                rest@.len() == n - k,
                forall|j: int| 0 <= j < rest@.len() ==> (#[trigger] rest@[j])@ == ps[n - 1 - j],
                partitions_view(sorted@) =~= ps.take(k as int).map_values(
                    |s: Seq<OrderedEvent>| sorted_by_sequence(s),
                ),
                next@ =~= ps.take(k as int).map_values(
                    |s: Seq<OrderedEvent>| after_committed(max_sequence(s)),
                ),
            decreases n - k,
        {
            let ghost before = rest@;
            let ghost before_sorted = partitions_view(sorted@);
            let v = rest.pop().unwrap();
            assert(v@ == ps[k as int]);
            let (events, following) = restore_partition(v);
            sorted.push(events);
            next.push(following);
            assert(partitions_view(sorted@) =~= before_sorted.push(sorted_by_sequence(ps[k as int])));
            assert forall|j: int| 0 <= j < rest@.len() implies (#[trigger] rest@[j])@ == ps[n - 1
                - j] by {
                assert(rest@[j] == before[j]);
            }
            k = k + 1;
        }
        assert(ps.take(n as int) =~= ps);
        let topic_name = String::from_str(topic);
        let entry = TopicEntry {
            key: TopicKey { tenant: tenant_id.0.clone(), topic: topic_name },
            state: TopicState { config, partitions: sorted, next_sequence_per_partition: next },
        };
        assert(topic_view(entry.state) == restored_topic(config, ps));
        match self.find_topic(&tenant_id.0, &entry.key.topic) {
            Some(j) => {
                let _old_entry = self.topics.remove(j);
                proof {
                    assert(self.topics@.insert(j as int, entry) =~= old(self).topics@.update(
                        j as int,
                        entry,
                    ));
                    lemma_keyed_map_update(
                        old(self).topics@,
                        topic_name_fn(),
                        topic_value_fn(),
                        j as int,
                        entry,
                    );
                }
                self.topics.insert(j, entry);
                proof {
                    assert forall|q: int| 0 <= q < self.topics@.len() implies topic_wf(
                        #[trigger] topic_view(self.topics@[q].state),
                    ) by {
                        if q != j {
                            assert(self.topics@[q] == old(self).topics@[q]);
                        }
                    }
                }
            },
            None => {
                proof {
                    lemma_keyed_map_push(self.topics@, topic_name_fn(), topic_value_fn(), entry);
                }
                self.topics.push(entry);
                proof {
                    assert forall|q: int| 0 <= q < self.topics@.len() implies topic_wf(
                        #[trigger] topic_view(self.topics@[q].state),
                    ) by {
                        if q < old(self).topics@.len() {
                            assert(self.topics@[q] == old(self).topics@[q]);
                        }
                    }
                }
            },
        }
        Ok(())
    }

    /// Installs an offset read back from storage, replacing any other.
    pub fn restore_offset(
        &mut self,
        tenant_id: &TenantId,
        topic: &str,
        group: &str,
        partition: u32,
        committed_sequence: u64,
    )
        requires
            old(self).wf(),
        ensures
            final(self).wf(),
            final(self).topics() == old(self).topics(),
            final(self).offsets() == old(self).offsets().insert(
                (tenant_id.0@, topic@, group@, partition),
                committed_sequence,
            ),
    {
        let topic_name = String::from_str(topic);
        let group_name = String::from_str(group);
        self.store_offset(tenant_id, &topic_name, &group_name, partition, committed_sequence, false);
    }

    /// Every offset committed on a topic, each once.
    pub fn offsets_of_topic(&self, tenant_id: &TenantId, topic: &str) -> (r: Vec<ConsumerOffset>)
        requires
            self.wf(),
        ensures
            forall|j: int|
                0 <= j < r@.len() ==> {
                    let name = (tenant_id.0@, topic@, (#[trigger] r@[j]).group@, r@[j].partition);
                    self.offsets().contains_key(name) && self.offsets()[name]
                        == r@[j].committed_sequence
                },
            forall|a: int, b: int|
                0 <= a < b < r@.len() ==> ((#[trigger] r@[a]).group@, r@[a].partition) != (
                    (#[trigger] r@[b]).group@,
                    r@[b].partition,
                ),
            forall|g: Seq<char>, p: u32| #[trigger]
                self.offsets().contains_key((tenant_id.0@, topic@, g, p)) ==> exists|j: int|
                    0 <= j < r@.len() && (#[trigger] r@[j]).group@ == g && r@[j].partition == p,
    {
        let topic_name = String::from_str(topic);
        let mut out: Vec<ConsumerOffset> = Vec::new();
        let ghost mut origin: Seq<int> = Seq::empty();
        let mut i: usize = 0;
        while i < self.group_offsets.len()
            invariant
                self.wf(),
                topic_name@ == topic@,
                i <= self.group_offsets@.len(),
                origin.len() == out@.len(),
                forall|j: int|
                    0 <= j < out@.len() ==> {
                        let e = self.group_offsets@[#[trigger] origin[j]];
                        &&& 0 <= origin[j] < i
                        &&& (offset_name_fn())(e) == (
                            tenant_id.0@,
                            topic@,
                            out@[j].group@,
                            out@[j].partition,
                        )
                        &&& e.committed == out@[j].committed_sequence
                    },
                forall|a: int, b: int| 0 <= a < b < out@.len() ==> origin[a] < origin[b],
                forall|q: int|
                    0 <= q < i && (#[trigger] self.group_offsets@[q]).topic.tenant@ == tenant_id.0@
                        && self.group_offsets@[q].topic.topic@ == topic@ ==> exists|j: int|
                        0 <= j < out@.len() && origin[j] == q,
            decreases self.group_offsets@.len() - i,
        {
            let e = &self.group_offsets[i];
            let ghost old_origin = origin;
            let ghost old_len = out@.len();
            if e.topic.tenant == tenant_id.0 && e.topic.topic == topic_name {
                out.push(
                    ConsumerOffset {
                        group: e.group.clone(),
                        partition: e.partition,
                        committed_sequence: e.committed,
                    },
                );
                proof {
                    origin = origin.push(i as int);
                }
            }
            proof {
                assert forall|q: int|
                    0 <= q < i + 1 && (#[trigger] self.group_offsets@[q]).topic.tenant@
                        == tenant_id.0@ && self.group_offsets@[q].topic.topic@ == topic@ implies exists|
                    j: int,
                | 0 <= j < out@.len() && origin[j] == q by {
                    if q < i {
                        let j = choose|j: int| 0 <= j < old_len && old_origin[j] == q;
                        assert(origin[j] == q);
                    } else {
                        assert(origin[old_len as int] == q);
                    }
                }
            }
            i = i + 1;
        }
        proof {
            assert forall|j: int| 0 <= j < out@.len() implies {
                let name = (tenant_id.0@, topic@, (#[trigger] out@[j]).group@, out@[j].partition);
                self.offsets().contains_key(name) && self.offsets()[name]
                    == out@[j].committed_sequence
            } by {
                lemma_keyed_map_index(
                    self.group_offsets@,
                    offset_name_fn(),
                    offset_value_fn(),
                    origin[j],
                );
            }
            assert forall|a: int, b: int| 0 <= a < b < out@.len() implies ((
            #[trigger] out@[a]).group@, out@[a].partition) != ((#[trigger] out@[b]).group@, out@[b].partition) by {
                assert(origin[a] != origin[b]);
                let ea = self.group_offsets@[origin[a]];
                let eb = self.group_offsets@[origin[b]];
                assert((offset_name_fn())(ea) != (offset_name_fn())(eb));
            }
            assert forall|g: Seq<char>, p: u32| #[trigger]
                self.offsets().contains_key((tenant_id.0@, topic@, g, p)) implies exists|j: int|
                0 <= j < out@.len() && (#[trigger] out@[j]).group@ == g && out@[j].partition == p by {
                lemma_keyed_map_contains(
                    self.group_offsets@,
                    offset_name_fn(),
                    offset_value_fn(),
                    (tenant_id.0@, topic@, g, p),
                );
                let q = choose|q: int|
                    0 <= q < self.group_offsets@.len() && (offset_name_fn())(self.group_offsets@[q])
                        == (tenant_id.0@, topic@, g, p);
                assert(self.group_offsets@[q].topic.tenant@ == tenant_id.0@);
                let j = choose|j: int| 0 <= j < out@.len() && origin[j] == q;
                assert(out@[j].group@ == g);
            }
        }
        out
    }

    fn committed_offset(&self, tenant: &String, topic: &String, group: &String, partition: u32) -> (r:
        u64)
        requires
            self.wf(),
        ensures
            r == committed_of(self.offsets(), (tenant@, topic@, group@, partition)),
    {
        match self.find_offset(tenant, topic, group, partition) {
            Some(i) => self.group_offsets[i].committed,
            None => 0,
        }
    }
}

// ----- laws -----
/// Committing an offset never moves any group's offset back, and the
/// committed partition's offset reaches at least the committed sequence.
pub proof fn lemma_commit_never_moves_back(
    offsets: Map<(Seq<char>, Seq<char>, Seq<char>, u32), u64>,
    name: (Seq<char>, Seq<char>, Seq<char>, u32),
    committed_sequence: u64,
    other: (Seq<char>, Seq<char>, Seq<char>, u32),
)
    ensures
        ({
            let current = committed_of(offsets, name);
            let after = offsets.insert(
                name,
                if current >= committed_sequence {
                    current
                } else {
                    committed_sequence
                },
            );
            &&& committed_of(after, other) >= committed_of(offsets, other)
            &&& committed_of(after, name) >= committed_sequence
        }),
{
}

proof fn lemma_compact_members(s: Seq<OrderedEvent>)
    ensures
        compact_latest(s).len() <= s.len(),
        forall|e: OrderedEvent| #[trigger] compact_latest(s).contains(e) ==> s.contains(e),
    decreases s.len(),
{
    if s.len() > 0 {
        let t = s.drop_first();
        lemma_compact_members(t);
        assert forall|e: OrderedEvent| #[trigger] compact_latest(s).contains(e) implies s.contains(e) by {
            let c = compact_latest(s);
            let i = choose|i: int| 0 <= i < c.len() && c[i] == e;
            if c == compact_latest(t) {
                assert(compact_latest(t).contains(e));
                let j = choose|j: int| 0 <= j < t.len() && t[j] == e;
                assert(s[j + 1] == e);
            } else {
                assert(c == seq![s[0]] + compact_latest(t));
                if i == 0 {
                    assert(s[0] == e);
                } else {
                    assert(compact_latest(t)[i - 1] == e);
                    assert(compact_latest(t).contains(e));
                    let j = choose|j: int| 0 <= j < t.len() && t[j] == e;
                    assert(s[j + 1] == e);
                }
            }
        }
    }
}

/// Compaction by key keeps every event without a key and, for each key, the
/// latest event with it, and no two kept events share a key; all it keeps
/// comes from the partition.
pub proof fn lemma_compaction_keeps_latest_per_key(s: Seq<OrderedEvent>)
    ensures
        forall|e: OrderedEvent| #[trigger] compact_latest(s).contains(e) ==> s.contains(e),
        forall|i: int|
            0 <= i < s.len() && (#[trigger] s[i].key matches Some(k) ==> !key_occurs(
                s.skip(i + 1),
                k@,
            )) ==> compact_latest(s).contains(s[i]),
        forall|i: int, j: int|
            0 <= i < j < compact_latest(s).len() ==> !((#[trigger] compact_latest(s)[i]).key matches Some(
                k,
            ) && has_key(#[trigger] compact_latest(s)[j], k@)),
    decreases s.len(),
{
    lemma_compact_members(s);
    if s.len() > 0 {
        let t = s.drop_first();
        let c = compact_latest(s);
        let ct = compact_latest(t);
        lemma_compaction_keeps_latest_per_key(t);
        lemma_compact_members(t);
        assert forall|i: int|
            0 <= i < s.len() && (#[trigger] s[i].key matches Some(k) ==> !key_occurs(
                s.skip(i + 1),
                k@,
            )) implies c.contains(s[i]) by {
            if i == 0 {
                assert(s.skip(1) =~= t);
                assert(c[0] == s[0]);
            } else {
                assert(s.skip(i + 1) =~= t.skip(i));
                assert(t[i - 1] == s[i]);
                assert(ct.contains(t[i - 1]));
                let j = choose|j: int| 0 <= j < ct.len() && ct[j] == t[i - 1];
                if c == ct {
                } else {
                    assert(c == seq![s[0]] + ct);
                    assert(c[j + 1] == s[i]);
                }
            }
        }
        assert forall|i: int, j: int|
            0 <= i < j < c.len() implies !((#[trigger] c[i]).key matches Some(k) && has_key(
                #[trigger] c[j],
                k@,
            )) by {
            if c != ct {
                assert(c == seq![s[0]] + ct);
                if i == 0 {
                    if let Some(k) = s[0].key {
                        if has_key(c[j], k@) {
                            assert(ct[j - 1] == c[j]);
                            assert(ct.contains(c[j]));
                            let q = choose|q: int| 0 <= q < t.len() && t[q] == c[j];
                            assert(has_key(t[q], k@));
                            assert(key_occurs(t, k@));
                        }
                    }
                } else {
                    assert(c[i] == ct[i - 1] && c[j] == ct[j - 1]);
                }
            }
        }
    }
}

proof fn lemma_committed_since_len(s: Seq<OrderedEvent>, cutoff: int)
    ensures
        committed_since(s, cutoff).len() <= s.len(),
    decreases s.len(),
{
    if s.len() > 0 {
        lemma_committed_since_len(s.drop_last(), cutoff);
    }
}

/// After its policies are applied, a partition with a retention limit holds
/// no more events than the limit.
pub proof fn lemma_retention_bounds_partition(
    s: Seq<OrderedEvent>,
    config: OrderedTopicConfig,
    now: i64,
)
    ensures
        config.retention_max_events_per_partition matches Some(m) ==> apply_policies(
            s,
            config,
            now,
        ).0.len() <= m,
        apply_policies(s, config, now).0.len() <= s.len(),
{
    lemma_compact_members(s);
    let s1 = if config.compaction_policy == CompactionPolicy::LatestByKey
        && compact_latest(s).len() != s.len() {
        compact_latest(s)
    } else {
        s
    };
    let s2 = match config.retention_max_events_per_partition {
        Some(max) => if s1.len() > max {
            s1.skip(s1.len() - max)
        } else {
            s1
        },
        None => s1,
    };
    if let Some(secs) = config.retention_max_age_seconds {
        lemma_committed_since_len(s2, now - secs * 1000000);
    }
}

/// Replaying from sequence zero gives back every event of a partition.
pub proof fn lemma_replay_from_zero_is_everything(s: Seq<OrderedEvent>)
    ensures
        events_from_sequence(s, 0) == s,
    decreases s.len(),
{
    if s.len() > 0 {
        lemma_replay_from_zero_is_everything(s.drop_last());
        assert(s.drop_last().push(s.last()) =~= s);
    }
}

/// On a topic without compaction or retention, an append adds the event at
/// the end of its partition and changes nothing else; replaying the partition
/// from the start then gives back its earlier events followed by the new one.
pub proof fn lemma_append_then_replay(t: TopicV, p: int, ev: OrderedEvent, now: i64)
    requires
        0 <= p < t.partitions.len(),
        p < t.next_sequences.len(),
        t.config.compaction_policy == CompactionPolicy::Disabled,
        t.config.retention_max_events_per_partition is None,
        t.config.retention_max_age_seconds is None,
    ensures
        after_append(t, p, ev, now).0.partitions[p] == t.partitions[p].push(ev),
        !after_append(t, p, ev, now).1,
        forall|q: int|
            0 <= q < t.partitions.len() && q != p ==> after_append(t, p, ev, now).0.partitions[q]
                == t.partitions[q],
        events_from_sequence(after_append(t, p, ev, now).0.partitions[p], 0) == t.partitions[p].push(
            ev,
        ),
{
    lemma_replay_from_zero_is_everything(t.partitions[p].push(ev));
}

} // verus!
