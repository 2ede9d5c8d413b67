use idb::accelerator::{check_conformance, ConformanceMismatch};
use idb::backend::{route_stage, BackendCapabilities, BackendStage, Route};
use idb::auth::{AuthAction, AuthRuntime, CallerContext};
use idb::benchmark::BenchmarkCorpusSpec;
use idb::errors::CoreError;
use idb::keyspace::{InterleavedKeyMapper, SpaceKeyMapper};
use idb::metrics::{EngineMetrics, LatencyStats};
use idb::types::{RecordId, TenantId};

#[test]
fn disabled_runtime_allows_basic_requests() {
    let runtime = AuthRuntime::disabled();
    let caller = CallerContext::service("api", Some(TenantId("tenant_a".to_string())));
    runtime
        .authorize(
            &caller,
            AuthAction::Query,
            &TenantId("tenant_a".to_string()),
        )
        .expect("authorization");
}

#[test]
fn tenant_scope_blocks_cross_tenant_access() {
    let runtime = AuthRuntime::disabled();
    let caller = CallerContext::service("api", Some(TenantId("tenant_a".to_string())));
    let err = runtime
        .authorize(
            &caller,
            AuthAction::Query,
            &TenantId("tenant_b".to_string()),
        )
        .expect_err("cross-tenant should fail");
    assert!(err.message().contains("tenant scope"));
}

#[test]
fn default_corpus_is_valid() {
    let corpus = BenchmarkCorpusSpec::v0_default();
    corpus.validate().expect("default corpus must validate");
}

#[test]
fn interleaving_key_is_deterministic() {
    let mapper = InterleavedKeyMapper::new(5).expect("valid mapper");
    let coords = vec![14, 12, 0, 28, 22, 8];

    let a = mapper.encode(&coords).expect("encode a");
    let b = mapper.encode(&coords).expect("encode b");

    assert_eq!(a, b);
}

#[test]
fn interleaving_places_first_coordinate_in_highest_bit() {
    let mapper = InterleavedKeyMapper::new(1).expect("valid mapper");
    assert_eq!(mapper.encode(&[1, 0]).expect("encode"), 2);
    assert_eq!(mapper.encode(&[0, 1]).expect("encode"), 1);
    assert_eq!(mapper.encode(&[1, 1]).expect("encode"), 3);
}

#[test]
fn mapper_rejects_zero_bits() {
    let err = InterleavedKeyMapper::new(0).expect_err("zero bits");
    assert!(matches!(err, CoreError::InvalidDimension(_)));
}

#[test]
fn unscoped_internal_caller_reaches_every_tenant() {
    let caller = CallerContext::internal_unscoped();
    assert!(caller.can_access_tenant(&TenantId("any".to_string())));
    let scoped = CallerContext::system_for_tenant(TenantId("t1".to_string()));
    assert!(scoped.can_access_tenant(&TenantId("t1".to_string())));
    assert!(!scoped.can_access_tenant(&TenantId("t2".to_string())));
}

#[test]
fn latency_average_is_total_over_count() {
    let mut stats = LatencyStats::default();
    assert_eq!(stats.avg_micros(), 0);
    stats.record(10);
    stats.record(20);
    assert_eq!(stats.avg_micros(), 15);
}

#[test]
fn engine_metrics_accumulate_ingest_and_counts() {
    let mut metrics = EngineMetrics::default();
    metrics.record_ingest(100, 64, 2);
    metrics.record_ingest(300, 36, 1);
    metrics.record_query(50);
    metrics.update_record_counts(7, 9);
    assert_eq!(metrics.ingest_latency.avg_micros(), 200);
    assert_eq!(metrics.wal_bytes_written, 100);
    assert_eq!(metrics.wal_entries, 3);
    assert_eq!(metrics.query_latency.avg_micros(), 50);
    assert_eq!(metrics.hot_record_count, 7);
    assert_eq!(metrics.cold_record_count, 9);
}

#[test]
fn core_error_messages_match_their_kind() {
    assert_eq!(
        CoreError::MissingField("price".to_string()).message(),
        "missing field: price"
    );
    assert_eq!(
        CoreError::TenantMismatch.message(),
        "tenant mismatch in operation"
    );
}

struct IngestOnlyInTenantA;

impl idb::auth::AuthorizationProvider for IngestOnlyInTenantA {
    fn decide(&self, request: &idb::auth::AuthorizationRequest) -> idb::auth::AuthorizationDecision {
        if request.action == AuthAction::Ingest && request.tenant_id.0 == "tenant_a" {
            idb::auth::AuthorizationDecision::Allow
        } else {
            idb::auth::AuthorizationDecision::Deny {
                reason: format!("no {:?} on {}", request.action, request.tenant_id.0),
            }
        }
    }
}

#[test]
fn provider_decides_on_the_callers_own_request() {
    let runtime = AuthRuntime::with_provider(IngestOnlyInTenantA);
    let caller = CallerContext::service("api", None);
    runtime
        .authorize(&caller, AuthAction::Ingest, &TenantId("tenant_a".to_string()))
        .expect("ingest on tenant_a is allowed");
    let err = runtime
        .authorize(&caller, AuthAction::Query, &TenantId("tenant_a".to_string()))
        .expect_err("query is refused");
    assert_eq!(err, CoreError::AuthorizationDenied("no Query on tenant_a".to_string()));
    let err = runtime
        .authorize(&caller, AuthAction::Ingest, &TenantId("tenant_b".to_string()))
        .expect_err("tenant_b is refused");
    assert_eq!(err, CoreError::AuthorizationDenied("no Ingest on tenant_b".to_string()));
}

#[test]
fn authorization_request_copies_caller_action_and_tenant() {
    let caller = CallerContext::service("api", Some(TenantId("tenant_a".to_string())));
    let request = idb::auth::authorization_request(
        &caller,
        AuthAction::Delete,
        &TenantId("tenant_a".to_string()),
    );
    assert_eq!(request.caller, caller);
    assert_eq!(request.action, AuthAction::Delete);
    assert_eq!(request.tenant_id, TenantId("tenant_a".to_string()));
}

#[test]
fn stages_route_to_the_preferred_backend_only_when_it_offers_them() {
    let accel = BackendCapabilities {
        supports_candidate_generation: false,
        supports_vector_scoring: true,
        supports_hydration: false,
        supports_mutations: false,
    };
    assert_eq!(route_stage(&accel, BackendStage::VectorScoring), Route::Preferred);
    assert_eq!(route_stage(&accel, BackendStage::Hydration), Route::Fallback);
    assert_eq!(route_stage(&accel, BackendStage::Mutations), Route::Fallback);
    let none = BackendCapabilities {
        supports_candidate_generation: false,
        supports_vector_scoring: false,
        supports_hydration: false,
        supports_mutations: true,
    };
    let both = accel.combined(&none);
    assert_eq!(
        both,
        BackendCapabilities {
            supports_candidate_generation: false,
            supports_vector_scoring: true,
            supports_hydration: false,
            supports_mutations: true,
        }
    );
}

#[test]
fn conformance_is_checked_row_by_row() {
    let cpu = [RecordId(1), RecordId(2), RecordId(3)];
    assert_eq!(check_conformance(&cpu, &[1, 2, 3], &[true, true, true]), Ok(()));
    assert_eq!(
        check_conformance(&cpu, &[1, 2], &[]),
        Err(ConformanceMismatch::RowCount { cpu: 3, accel: 2 })
    );
    assert_eq!(
        check_conformance(&cpu, &[1, 9, 3], &[true, false, true]),
        Err(ConformanceMismatch::RecordId { cpu: 2, accel: 9 })
    );
    assert_eq!(
        check_conformance(&cpu, &[1, 2, 4], &[true, false, true]),
        Err(ConformanceMismatch::Score { index: 1 })
    );
}
