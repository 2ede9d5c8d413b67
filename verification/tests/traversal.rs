use idb::errors::CoreError;
use idb::planner::{plan_query_text, LiteralExpr, PlanSource, PlanTraversalDirection, PlanTraversalStep};
use idb::traversal::{
    expand_frontier, record_matches_literal_ref, record_matches_step, resolve_step_records,
    resolve_traversal_candidates, GraphRecord, NameField,
};
use idb::ast::NumberLiteral;
use idb::types::{RecordId, TenantId};

fn record(tenant: &str, id: u64, entity: &str, name: NameField, edges: &[u64]) -> GraphRecord {
    GraphRecord {
        tenant_id: TenantId(tenant.to_string()),
        record_id: RecordId(id),
        entity_type: entity.to_string(),
        name,
        edge_targets: edges.iter().map(|e| RecordId(*e)).collect(),
    }
}

fn traversal_of(query: &str) -> (Vec<PlanTraversalStep>, Vec<PlanTraversalDirection>) {
    let plan = plan_query_text(query).expect("plan traversal");
    match plan.source {
        PlanSource::Traversal { steps, directions } => (steps, directions),
        other => panic!("expected traversal source, got {other:?}"),
    }
}

fn tenant_a() -> TenantId {
    TenantId("tenant_a".to_string())
}

fn brand_graph() -> Vec<GraphRecord> {
    vec![
        record(
            "tenant_a",
            900,
            "Brand",
            NameField::Text("Norn Gold".to_string()),
            &[901, 902, 904],
        ),
        record("tenant_a", 901, "Product", NameField::Absent, &[]),
        record("tenant_a", 902, "Product", NameField::Absent, &[]),
        record("tenant_a", 904, "Product", NameField::Absent, &[]),
        record("tenant_a", 905, "Product", NameField::Absent, &[]),
        record(
            "tenant_b",
            900,
            "Brand",
            NameField::Text("Norn Gold".to_string()),
            &[903],
        ),
        record("tenant_b", 903, "Product", NameField::Absent, &[]),
    ]
}

#[test]
fn outbound_traversal_reaches_edge_targets() {
    let (steps, directions) = traversal_of("Brand(\"Norn Gold\") -> Product");
    let ids = resolve_traversal_candidates(&brand_graph(), &tenant_a(), &steps, &directions)
        .expect("traverse");
    assert_eq!(ids, vec![RecordId(901), RecordId(902), RecordId(904)]);
}

#[test]
fn traversal_stays_within_tenant() {
    let (steps, directions) = traversal_of("Brand(\"Norn Gold\") -> Product");
    let ids = resolve_traversal_candidates(
        &brand_graph(),
        &TenantId("tenant_b".to_string()),
        &steps,
        &directions,
    )
    .expect("traverse");
    assert_eq!(ids, vec![RecordId(903)]);
}

#[test]
fn inbound_traversal_reaches_records_pointing_into_frontier() {
    let graph = vec![
        record("tenant_a", 1001, "Product", NameField::Absent, &[]),
        record("tenant_a", 1002, "Product", NameField::Absent, &[]),
        record("tenant_a", 1102, "Supplier", NameField::Absent, &[1001]),
        record("tenant_a", 1101, "Supplier", NameField::Absent, &[1001]),
        record("tenant_a", 1103, "Supplier", NameField::Absent, &[1002]),
    ];
    let (steps, directions) = traversal_of("Product(1001) <- Supplier");
    let ids = resolve_traversal_candidates(&graph, &tenant_a(), &steps, &directions)
        .expect("traverse");
    assert_eq!(ids, vec![RecordId(1101), RecordId(1102)]);
}

#[test]
fn fractional_entity_reference_is_rejected() {
    let graph = vec![record("tenant_a", 1, "Product", NameField::Absent, &[])];
    let (steps, directions) = traversal_of("Product(1.5) -> Supplier");
    let err = resolve_traversal_candidates(&graph, &tenant_a(), &steps, &directions)
        .expect_err("fractional id");
    assert_eq!(
        err,
        CoreError::QueryPlanning(
            "entity ref numeric literal must be non-negative integer, got 1.5".to_string()
        )
    );
}

#[test]
fn undecidable_reference_on_no_record_is_no_error() {
    let graph = vec![record("tenant_a", 1, "Brand", NameField::Absent, &[])];
    let (steps, directions) = traversal_of("Product(1.5) -> Supplier");
    let ids = resolve_traversal_candidates(&graph, &tenant_a(), &steps, &directions)
        .expect("no product to check");
    assert!(ids.is_empty());
}

#[test]
fn mismatched_traversal_shape_is_rejected() {
    let steps = vec![
        PlanTraversalStep::EntityScan("Brand".to_string()),
        PlanTraversalStep::EntityScan("Product".to_string()),
    ];
    let err = resolve_traversal_candidates(&brand_graph(), &tenant_a(), &steps, &Vec::new())
        .expect_err("shape");
    assert_eq!(
        err.message(),
        "query planning error: invalid traversal shape: steps must be exactly one more than directions"
    );
    let none = resolve_traversal_candidates(&brand_graph(), &tenant_a(), &Vec::new(), &Vec::new())
        .expect("no steps");
    assert!(none.is_empty());
}

#[test]
fn step_records_are_ascending_and_entity_filtered() {
    let ids = resolve_step_records(
        &brand_graph(),
        &tenant_a(),
        &PlanTraversalStep::EntityScan("Product".to_string()),
    )
    .expect("resolve");
    assert_eq!(
        ids,
        vec![RecordId(901), RecordId(902), RecordId(904), RecordId(905)]
    );
}

#[test]
fn expand_frontier_outbound_and_inbound() {
    let graph = brand_graph();
    let out = expand_frontier(
        &graph,
        &tenant_a(),
        &vec![RecordId(900)],
        PlanTraversalDirection::Outbound,
        &PlanTraversalStep::EntityScan("Product".to_string()),
    )
    .expect("outbound");
    assert_eq!(out, vec![RecordId(901), RecordId(902), RecordId(904)]);
    let back = expand_frontier(
        &graph,
        &tenant_a(),
        &vec![RecordId(904)],
        PlanTraversalDirection::Inbound,
        &PlanTraversalStep::EntityScan("Brand".to_string()),
    )
    .expect("inbound");
    assert_eq!(back, vec![RecordId(900)]);
}

#[test]
fn literal_references_match_ids_and_names() {
    let named = record("tenant_a", 7, "Brand", NameField::Text("Acme".to_string()), &[]);
    let flagged = record("tenant_a", 8, "Brand", NameField::Flag(true), &[]);
    let number = |t: &str| LiteralExpr::Number(NumberLiteral { text: t.to_string() });
    assert_eq!(record_matches_literal_ref(&named, &number("7")), Ok(true));
    assert_eq!(record_matches_literal_ref(&named, &number("7.0")), Ok(true));
    assert_eq!(record_matches_literal_ref(&named, &number("8")), Ok(false));
    assert!(record_matches_literal_ref(&named, &number("99999999999999999999999")).is_err());
    assert_eq!(
        record_matches_literal_ref(&named, &LiteralExpr::String("Acme".to_string())),
        Ok(true)
    );
    assert_eq!(
        record_matches_literal_ref(&named, &LiteralExpr::Ident("Acme".to_string())),
        Ok(true)
    );
    assert_eq!(
        record_matches_literal_ref(&named, &LiteralExpr::Bool(true)),
        Ok(false)
    );
    assert_eq!(
        record_matches_literal_ref(&flagged, &LiteralExpr::Bool(true)),
        Ok(true)
    );
    let step = PlanTraversalStep::EntityRef {
        entity: "Product".to_string(),
        id: number("1.5"),
    };
    assert_eq!(record_matches_step(&named, &step), Ok(false));
}

#[test]
fn entity_reference_refusal_prints_the_value() {
    let graph = vec![record("tenant_a", 1, "Product", NameField::Absent, &[])];
    let (steps, directions) = traversal_of("Product(1.50) -> Supplier");
    let err = resolve_traversal_candidates(&graph, &tenant_a(), &steps, &directions)
        .expect_err("fractional id");
    assert_eq!(
        err,
        CoreError::QueryPlanning(
            "entity ref numeric literal must be non-negative integer, got 1.5".to_string()
        )
    );
}

#[test]
fn entity_references_read_the_float_of_the_literal() {
    let graph = vec![record("tenant_a", 1, "Product", NameField::Absent, &[])];
    let (steps, directions) = traversal_of("Product(1.00000000000000001) -> Supplier");
    resolve_traversal_candidates(&graph, &tenant_a(), &steps, &directions).expect("reads as 1");
    let (steps, directions) = traversal_of("Product(18446744073709555712) -> Supplier");
    let err = resolve_traversal_candidates(&graph, &tenant_a(), &steps, &directions)
        .expect_err("reads above 2^64");
    assert!(matches!(err, CoreError::QueryPlanning(_)));
}
