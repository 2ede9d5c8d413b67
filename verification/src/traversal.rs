//! Graph traversal over stored records: the frontier of record ids that a
//! traversal query reaches, hop by hop, along the records' edges.
use vstd::prelude::*;

use crate::ast::{LiteralV, TraversalStepV};
use crate::durable_index::{ids_ascending, insert_id};
use crate::errors::CoreError;
use crate::literal::{
    float_whole, literal_reading_text, literal_whole_value, reading_text, saturate_u64,
};
use crate::planner::{plan_steps_view, LiteralExpr, PlanTraversalDirection, PlanTraversalStep};
use crate::text::concat_str;
use crate::types::{RecordId, TenantId};

verus! {

/// A record's `name` field, as far as a traversal reads it.
#[derive(Debug, Clone, PartialEq, Eq)]
pub enum NameField {
    Absent,
    Text(String),
    Flag(bool),
    /// A value of another kind, which no entity reference names.
    Other,
}

/// What a traversal reads of a stored record.
#[derive(Debug, Clone, PartialEq, Eq)]
pub struct GraphRecord {
    pub tenant_id: TenantId,
    pub record_id: RecordId,
    pub entity_type: String,
    pub name: NameField,
    pub edge_targets: Vec<RecordId>,
}

pub ghost enum NameFieldV {
    Absent,
    Text(Seq<char>),
    Flag(bool),
    Other,
}

pub ghost struct GraphRecordV {
    pub tenant: Seq<char>,
    pub id: RecordId,
    pub entity: Seq<char>,
    pub name: NameFieldV,
    pub edges: Seq<RecordId>,
}

impl View for NameField {
    type V = NameFieldV;

    open spec fn view(&self) -> NameFieldV {
        match self {
            NameField::Absent => NameFieldV::Absent,
            NameField::Text(s) => NameFieldV::Text(s@),
            NameField::Flag(b) => NameFieldV::Flag(*b),
            NameField::Other => NameFieldV::Other,
        }
    }
}

impl View for GraphRecord {
    type V = GraphRecordV;

    open spec fn view(&self) -> GraphRecordV {
        GraphRecordV {
            tenant: self.tenant_id.0@,
            id: self.record_id,
            entity: self.entity_type@,
            name: self.name@,
            edges: self.edge_targets@,
        }
    }
}

pub open spec fn records_view(rs: Seq<GraphRecord>) -> Seq<GraphRecordV> {
    rs.map_values(|r: GraphRecord| r@)
}

// ----- one record against one step -----
/// A numeric entity reference can name a record: it reads as a whole number
/// no larger than 2^64.
pub open spec fn ref_number_ok(t: Seq<char>) -> bool {
    float_whole(t) matches Some(v) && v <= u64::MAX as nat + 1
}

/// Whether the literal of an entity reference names the record; `None` where
/// the literal cannot name any record.
pub open spec fn literal_ref_check(r: GraphRecordV, lit: LiteralV) -> Option<bool> {
    match lit {
        LiteralV::Number(t) => if ref_number_ok(t) {
            Some(r.id.0 == saturate_u64(float_whole(t)->Some_0))
        } else {
            None
        },
        LiteralV::String(s) => Some(r.name == NameFieldV::Text(s)),
        LiteralV::Ident(s) => Some(r.name == NameFieldV::Text(s)),
        LiteralV::Bool(b) => Some(r.name == NameFieldV::Flag(b)),
    }
}

/// Whether the record is one the step stands for; `None` where the step's
/// reference cannot be decided.
pub open spec fn step_check(r: GraphRecordV, step: TraversalStepV) -> Option<bool> {
    match step {
        TraversalStepV::EntityScan(e) => Some(r.entity == e),
        TraversalStepV::EntityRef { entity, id } => if r.entity != entity {
            Some(false)
        } else {
            literal_ref_check(r, id)
        },
    }
}

/// The text of the error for a step whose reference cannot be decided.
pub open spec fn step_error_text(step: TraversalStepV) -> Seq<char> {
    match step {
        TraversalStepV::EntityRef { id: LiteralV::Number(t), .. } =>
            "entity ref numeric literal must be non-negative integer, got "@ + reading_text(t),
        _ => Seq::empty(),
    }
}

pub open spec fn is_planning_error(e: CoreError, m: Seq<char>) -> bool {
    e matches CoreError::QueryPlanning(s) && s@ == m
}

// ----- folds over the stored records -----
/// The records a pass looks at, besides belonging to the tenant.
pub open spec fn scope_all() -> spec_fn(GraphRecordV) -> bool {
    |r: GraphRecordV| true
}

pub open spec fn scope_in(ids: Set<RecordId>) -> spec_fn(GraphRecordV) -> bool {
    |r: GraphRecordV| ids.contains(r.id)
}

/// Some edge of the record leads into the frontier.
pub open spec fn edges_hit(es: Seq<RecordId>, f: Set<RecordId>) -> bool {
    exists|k: int| 0 <= k < es.len() && f.contains(#[trigger] es[k])
}

pub open spec fn scope_hits(f: Set<RecordId>) -> spec_fn(GraphRecordV) -> bool {
    |r: GraphRecordV| edges_hit(r.edges, f)
}

/// Among the first `n` records, one of the tenant's that the pass looks at
/// leaves the step undecided.
pub open spec fn step_fails(
    rs: Seq<GraphRecordV>,
    t: Seq<char>,
    scope: spec_fn(GraphRecordV) -> bool,
    step: TraversalStepV,
    n: int,
) -> bool
    decreases n,
{
    if n <= 0 {
        false
    } else {
        step_fails(rs, t, scope, step, n - 1) || (rs[n - 1].tenant == t && scope(rs[n - 1])
            && step_check(rs[n - 1], step) is None)
    }
}

/// The ids of the tenant's records among the first `n` that the pass looks at
/// and the step stands for.
pub open spec fn step_selects(
    rs: Seq<GraphRecordV>,
    t: Seq<char>,
    scope: spec_fn(GraphRecordV) -> bool,
    step: TraversalStepV,
    n: int,
) -> Set<RecordId>
    decreases n,
{
    if n <= 0 {
        Set::empty()
    } else {
        let prev = step_selects(rs, t, scope, step, n - 1);
        let r = rs[n - 1];
        if r.tenant == t && scope(r) && step_check(r, step) == Some(true) {
            prev.insert(r.id)
        } else {
            prev
        }
    }
}

/// The targets of the edges leaving the tenant's frontier records among the first `n`.
pub open spec fn out_targets(rs: Seq<GraphRecordV>, t: Seq<char>, f: Set<RecordId>, n: int) -> Set<
    RecordId,
>
    decreases n,
{
    if n <= 0 {
        Set::empty()
    } else {
        let prev = out_targets(rs, t, f, n - 1);
        let r = rs[n - 1];
        if r.tenant == t && f.contains(r.id) {
            prev.union(r.edges.to_set())
        } else {
            prev
        }
    }
}

/// One hop from frontier `f`: outbound to the targets of its edges, inbound to
/// the records with an edge into it; either way only records the next step
/// stands for.
pub open spec fn hop_spec(
    rs: Seq<GraphRecordV>,
    t: Seq<char>,
    f: Set<RecordId>,
    dir: PlanTraversalDirection,
    step: TraversalStepV,
) -> Result<Set<RecordId>, Seq<char>> {
    let n = rs.len() as int;
    match dir {
        PlanTraversalDirection::Outbound => {
            let targets = out_targets(rs, t, f, n);
            if step_fails(rs, t, scope_in(targets), step, n) {
                Err(step_error_text(step))
            } else {
                Ok(step_selects(rs, t, scope_in(targets), step, n))
            }
        },
        PlanTraversalDirection::Inbound => {
            if step_fails(rs, t, scope_all(), step, n) {
                Err(step_error_text(step))
            } else {
                Ok(step_selects(rs, t, scope_hits(f), step, n))
            }
        },
    }
}

/// The frontier after the first step and `h` hops.
pub open spec fn frontier_after(
    rs: Seq<GraphRecordV>,
    t: Seq<char>,
    steps: Seq<TraversalStepV>,
    dirs: Seq<PlanTraversalDirection>,
    h: nat,
) -> Result<Set<RecordId>, Seq<char>>
    decreases h,
{
    if h == 0 {
        let n = rs.len() as int;
        if step_fails(rs, t, scope_all(), steps[0], n) {
            Err(step_error_text(steps[0]))
        } else {
            Ok(step_selects(rs, t, scope_all(), steps[0], n))
        }
    } else {
        match frontier_after(rs, t, steps, dirs, (h - 1) as nat) {
            Err(e) => Err(e),
            Ok(f) => hop_spec(rs, t, f, dirs[h - 1], steps[h as int]),
        }
    }
}

pub open spec fn traversal_shape_text() -> Seq<char> {
    "invalid traversal shape: steps must be exactly one more than directions"@
}

/// The records of tenant `t` a traversal reaches: those the first step stands
/// for, then hop by hop along the directions.
pub open spec fn traversal_spec(
    rs: Seq<GraphRecordV>,
    t: Seq<char>,
    steps: Seq<TraversalStepV>,
    dirs: Seq<PlanTraversalDirection>,
) -> Result<Set<RecordId>, Seq<char>> {
    if steps.len() == 0 {
        Ok(Set::empty())
    } else if steps.len() != dirs.len() + 1 {
        Err(traversal_shape_text())
    } else {
        frontier_after(rs, t, steps, dirs, dirs.len())
    }
}

// ----- lemmas -----
pub proof fn lemma_step_fails_monotone(
    rs: Seq<GraphRecordV>,
    t: Seq<char>,
    scope: spec_fn(GraphRecordV) -> bool,
    step: TraversalStepV,
    n: int,
    m: int,
)
    requires
        n <= m,
        step_fails(rs, t, scope, step, n),
    ensures
        step_fails(rs, t, scope, step, m),
    decreases m - n,
{
    if n < m {
        lemma_step_fails_monotone(rs, t, scope, step, n, m - 1);
    }
}

pub proof fn lemma_step_selects_members(
    rs: Seq<GraphRecordV>,
    t: Seq<char>,
    scope: spec_fn(GraphRecordV) -> bool,
    step: TraversalStepV,
    n: int,
    id: RecordId,
)
    requires
        n <= rs.len(),
        step_selects(rs, t, scope, step, n).contains(id),
    ensures
        exists|i: int|
            0 <= i < n && (#[trigger] rs[i]).id == id && rs[i].tenant == t && scope(rs[i])
                && step_check(rs[i], step) == Some(true),
    decreases n,
{
    if n > 0 {
        let r = rs[n - 1];
        if r.tenant == t && scope(r) && step_check(r, step) == Some(true) && r.id == id {
        } else {
            lemma_step_selects_members(rs, t, scope, step, n - 1, id);
        }
    }
}

/// Every record a traversal reaches belongs to the tenant and is one its last
/// step stands for.
pub proof fn lemma_traversal_stays_in_tenant(
    rs: Seq<GraphRecordV>,
    t: Seq<char>,
    steps: Seq<TraversalStepV>,
    dirs: Seq<PlanTraversalDirection>,
    found: Set<RecordId>,
    id: RecordId,
)
    requires
        traversal_spec(rs, t, steps, dirs) == Ok::<Set<RecordId>, Seq<char>>(found),
        found.contains(id),
    ensures
        exists|i: int|
            0 <= i < rs.len() && (#[trigger] rs[i]).id == id && rs[i].tenant == t && step_check(
                rs[i],
                steps.last(),
            ) == Some(true),
{
    let n = rs.len() as int;
    let h = dirs.len();
    if h == 0 {
        lemma_step_selects_members(rs, t, scope_all(), steps[0], n, id);
    } else {
        let prev = frontier_after(rs, t, steps, dirs, (h - 1) as nat);
        let f = prev->Ok_0;
        match dirs[h - 1] {
            PlanTraversalDirection::Outbound => {
                lemma_step_selects_members(
                    rs,
                    t,
                    scope_in(out_targets(rs, t, f, n)),
                    steps[h as int],
                    n,
                    id,
                );
            },
            PlanTraversalDirection::Inbound => {
                lemma_step_selects_members(rs, t, scope_hits(f), steps[h as int], n, id);
            },
        }
    }
}

/// Once a hop fails, the traversal fails with the same error.
pub proof fn lemma_frontier_error_persists(
    rs: Seq<GraphRecordV>,
    t: Seq<char>,
    steps: Seq<TraversalStepV>,
    dirs: Seq<PlanTraversalDirection>,
    k: nat,
    m: nat,
)
    requires
        k <= m,
        frontier_after(rs, t, steps, dirs, k) is Err,
    ensures
        frontier_after(rs, t, steps, dirs, m) == frontier_after(rs, t, steps, dirs, k),
    decreases m - k,
{
    if k < m {
        lemma_frontier_error_persists(rs, t, steps, dirs, k, (m - 1) as nat);
    }
}

// ----- one record against one step, executably -----
/// Whether an entity reference's literal names the record: a number by its
/// id, a string or identifier by a text `name`, a boolean by a boolean `name`.
/// A number that is not a whole number up to 2^64 is an error.
pub fn record_matches_literal_ref(record: &GraphRecord, literal: &LiteralExpr) -> (r: Result<
    bool,
    CoreError,
>)
    ensures
        match r {
            Ok(b) => literal_ref_check(record@, literal@) == Some(b),
            Err(e) => literal_ref_check(record@, literal@) is None && (literal@ matches LiteralV::Number(
                t,
            ) && is_planning_error(
                e,
                "entity ref numeric literal must be non-negative integer, got "@ + reading_text(t),
            )),
        },
{
    match literal {
        LiteralExpr::Number(n) => {
            match literal_whole_value(n.text.as_str()) {
                Some(v) if v <= 0x1_0000_0000_0000_0000u128 => {
                    let id = if v > u64::MAX as u128 {
                        u64::MAX
                    } else {
                        v as u64
                    };
                    Ok(record.record_id.0 == id)
                },
                _ => Err(
                    CoreError::QueryPlanning(
                        concat_str(
                            "entity ref numeric literal must be non-negative integer, got ",
                            literal_reading_text(n.text.as_str()).as_str(),
                        ),
                    ),
                ),
            }
        },
        LiteralExpr::String(value) | LiteralExpr::Ident(value) => {
            match &record.name {
                NameField::Text(s) => Ok(*s == *value),
                _ => Ok(false),
            }
        },
        LiteralExpr::Bool(value) => {
            match &record.name {
                NameField::Flag(b) => Ok(*b == *value),
                _ => Ok(false),
            }
        },
    }
}

/// Whether the record is one the traversal step stands for: of the step's
/// entity type and, for a reference, named by it.
pub fn record_matches_step(record: &GraphRecord, step: &PlanTraversalStep) -> (r: Result<
    bool,
    CoreError,
>)
    ensures
        match r {
            Ok(b) => step_check(record@, step@) == Some(b),
            Err(e) => step_check(record@, step@) is None && is_planning_error(
                e,
                step_error_text(step@),
            ),
        },
{
    match step {
        PlanTraversalStep::EntityScan(entity) => Ok(record.entity_type == *entity),
        PlanTraversalStep::EntityRef { entity, id } => {
            if record.entity_type != *entity {
                return Ok(false);
            }
            record_matches_literal_ref(record, id)
        },
    }
}

// ----- the passes over the stored records -----
fn contains_id(ids: &Vec<RecordId>, id: RecordId) -> (r: bool)
    ensures
        r == ids@.contains(id),
{
    let mut i: usize = 0;
    while i < ids.len()
        invariant
            i <= ids@.len(),
            forall|j: int| 0 <= j < i ==> ids@[j] != id,
        decreases ids@.len() - i,
    {
        if ids[i].0 == id.0 {
            assert(ids@[i as int] == id);
            return true;
        }
        i = i + 1;
    }
    false
}

/// The tenant's records the step stands for, ascending by id; an error where
/// the step cannot be decided on one of the tenant's records.
pub fn resolve_step_records(
    records: &Vec<GraphRecord>,
    tenant_id: &TenantId,
    step: &PlanTraversalStep,
) -> (r: Result<Vec<RecordId>, CoreError>)
    ensures
        ({
            let rs = records_view(records@);
            let n = records@.len() as int;
            match r {
                Ok(ids) => {
                    &&& !step_fails(rs, tenant_id.0@, scope_all(), step@, n)
                    &&& ids_ascending(ids@)
                    &&& ids@.to_set() == step_selects(rs, tenant_id.0@, scope_all(), step@, n)
                },
                Err(e) => step_fails(rs, tenant_id.0@, scope_all(), step@, n)
                    && is_planning_error(e, step_error_text(step@)),
            }
        }),
{
    let ghost rs = records_view(records@);
    let ghost t = tenant_id.0@;
    let mut out: Vec<RecordId> = Vec::new();
    let mut i: usize = 0;
    while i < records.len()
        invariant
            rs == records_view(records@),
            t == tenant_id.0@,
            i <= records@.len(),
            ids_ascending(out@),
            !step_fails(rs, t, scope_all(), step@, i as int),
            forall|id: RecordId| #[trigger]
                out@.contains(id) <==> step_selects(rs, t, scope_all(), step@, i as int).contains(
                    id,
                ),
        decreases records@.len() - i,
    {
        let record = &records[i];
        assert(rs[i as int] == record@);
        if record.tenant_id.same_as(tenant_id) {
            match record_matches_step(record, step) {
                Err(e) => {
                    proof {
                        assert(step_fails(rs, t, scope_all(), step@, i + 1));
                        lemma_step_fails_monotone(
                            rs,
                            t,
                            scope_all(),
                            step@,
                            i + 1,
                            records@.len() as int,
                        );
                    }
                    return Err(e);
                },
                Ok(true) => {
                    insert_id(&mut out, record.record_id);
                },
                Ok(false) => {},
            }
        }
        i = i + 1;
    }
    proof {
        assert(out@.to_set() =~= step_selects(rs, t, scope_all(), step@, records@.len() as int));
    }
    Ok(out)
}

/// The targets of the edges that leave the tenant's records in the frontier.
fn outbound_targets(records: &Vec<GraphRecord>, tenant_id: &TenantId, frontier: &Vec<RecordId>) -> (r:
    Vec<RecordId>)
    ensures
        ids_ascending(r@),
        r@.to_set() == out_targets(
            records_view(records@),
            tenant_id.0@,
            frontier@.to_set(),
            records@.len() as int,
        ),
{
    let ghost rs = records_view(records@);
    let ghost t = tenant_id.0@;
    let ghost f = frontier@.to_set();
    let mut targets: Vec<RecordId> = Vec::new();
    let mut i: usize = 0;
    while i < records.len()
        invariant
            rs == records_view(records@),
            t == tenant_id.0@,
            f == frontier@.to_set(),
            i <= records@.len(),
            ids_ascending(targets@),
            forall|id: RecordId| #[trigger]
                targets@.contains(id) <==> out_targets(rs, t, f, i as int).contains(id),
        decreases records@.len() - i,
    {
        let record = &records[i];
        assert(rs[i as int] == record@);
        if record.tenant_id.same_as(tenant_id) && contains_id(frontier, record.record_id) {
            let ghost before = targets@;
            let mut k: usize = 0;
            while k < record.edge_targets.len()
                invariant
                    k <= record.edge_targets@.len(),
                    ids_ascending(targets@),
                    forall|id: RecordId| #[trigger]
                        targets@.contains(id) <==> (before.contains(id)
                            || record.edge_targets@.take(k as int).contains(id)),
                decreases record.edge_targets@.len() - k,
            {
                insert_id(&mut targets, record.edge_targets[k]);
                proof {
                    let es = record.edge_targets@;
                    assert forall|id: RecordId| #[trigger]
                        targets@.contains(id) <==> (before.contains(id) || es.take(k + 1).contains(
                            id,
                        )) by {
                        if es.take(k + 1).contains(id) && id != es[k as int] {
                            let j = choose|j: int| 0 <= j < k + 1 && #[trigger] es.take(k + 1)[j] == id;
                            assert(es.take(k as int)[j] == id);
                        }
                        if es.take(k as int).contains(id) {
                            let j = choose|j: int| 0 <= j < k && #[trigger] es.take(k as int)[j] == id;
                            assert(es.take(k + 1)[j] == id);
                        }
                        if id == es[k as int] {
                            assert(es.take(k + 1)[k as int] == id);
                        }
                    }
                }
                k = k + 1;
            }
            proof {
                assert(record.edge_targets@.take(record.edge_targets@.len() as int)
                    =~= record.edge_targets@);
            }
        }
        i = i + 1;
    }
    proof {
        assert(targets@.to_set() =~= out_targets(rs, t, f, records@.len() as int));
    }
    targets
}

/// Whether some edge of the record leads into the frontier.
fn edges_into(record: &GraphRecord, frontier: &Vec<RecordId>) -> (r: bool)
    ensures
        r == edges_hit(record.edge_targets@, frontier@.to_set()),
{
    let mut k: usize = 0;
    while k < record.edge_targets.len()
        invariant
            k <= record.edge_targets@.len(),
            forall|j: int| 0 <= j < k ==> !frontier@.contains(#[trigger] record.edge_targets@[j]),
        decreases record.edge_targets@.len() - k,
    {
        if contains_id(frontier, record.edge_targets[k]) {
            assert(frontier@.to_set().contains(record.edge_targets@[k as int]));
            return true;
        }
        k = k + 1;
    }
    false
}

/// One hop of a traversal from the frontier: outbound, the targets of the
/// frontier's edges; inbound, the tenant's records with an edge into the
/// frontier. Either way only the tenant's records the next step stands for,
/// ascending by id.
pub fn expand_frontier(
    records: &Vec<GraphRecord>,
    tenant_id: &TenantId,
    frontier: &Vec<RecordId>,
    direction: PlanTraversalDirection,
    next_step: &PlanTraversalStep,
) -> (r: Result<Vec<RecordId>, CoreError>)
    ensures
        ({
            let spec_result = hop_spec(
                records_view(records@),
                tenant_id.0@,
                frontier@.to_set(),
                direction,
                next_step@,
            );
            match r {
                Ok(ids) => ids_ascending(ids@) && spec_result == Ok::<Set<RecordId>, Seq<char>>(
                    ids@.to_set(),
                ),
                Err(e) => spec_result is Err && is_planning_error(e, spec_result->Err_0),
            }
        }),
{
    let ghost rs = records_view(records@);
    let ghost t = tenant_id.0@;
    let ghost f = frontier@.to_set();
    let ghost n = records@.len() as int;
    let ghost step = next_step@;
    let mut out: Vec<RecordId> = Vec::new();
    match direction {
        PlanTraversalDirection::Outbound => {
            let targets = outbound_targets(records, tenant_id, frontier);
            let ghost ts = targets@.to_set();
            assert(rs.len() == n);
            let mut i: usize = 0;
            while i < records.len()
                invariant
                    rs == records_view(records@),
                    t == tenant_id.0@,
                    n == records@.len(),
                    step == next_step@,
                    direction == PlanTraversalDirection::Outbound,
                    rs.len() == n,
                    ts == targets@.to_set(),
                    ts == out_targets(rs, t, frontier@.to_set(), n),
                    i <= records@.len(),
                    ids_ascending(out@),
                    !step_fails(rs, t, scope_in(ts), step, i as int),
                    forall|id: RecordId| #[trigger]
                        out@.contains(id) <==> step_selects(rs, t, scope_in(ts), step, i as int).contains(
                            id,
                        ),
                decreases records@.len() - i,
            {
                let record = &records[i];
                assert(rs[i as int] == record@);
                if record.tenant_id.same_as(tenant_id) && contains_id(&targets, record.record_id) {
                    match record_matches_step(record, next_step) {
                        Err(e) => {
                            proof {
                                assert(step_fails(rs, t, scope_in(ts), step, i + 1));
                                lemma_step_fails_monotone(rs, t, scope_in(ts), step, i + 1, n);
                                assert(hop_spec(rs, t, frontier@.to_set(), direction, step)
                                    == Err::<Set<RecordId>, Seq<char>>(step_error_text(step)));
                            }
                            return Err(e);
                        },
                        Ok(true) => {
                            insert_id(&mut out, record.record_id);
                        },
                        Ok(false) => {},
                    }
                }
                i = i + 1;
            }
            proof {
                assert(out@.to_set() =~= step_selects(rs, t, scope_in(ts), step, n));
            }
            Ok(out)
        },
        PlanTraversalDirection::Inbound => {
            let mut i: usize = 0;
            while i < records.len()
                invariant
                    rs == records_view(records@),
                    t == tenant_id.0@,
                    f == frontier@.to_set(),
                    n == records@.len(),
                    rs.len() == n,
                    step == next_step@,
                    direction == PlanTraversalDirection::Inbound,
                    i <= records@.len(),
                    ids_ascending(out@),
                    !step_fails(rs, t, scope_all(), step, i as int),
                    forall|id: RecordId| #[trigger]
                        out@.contains(id) <==> step_selects(rs, t, scope_hits(f), step, i as int).contains(
                            id,
                        ),
                decreases records@.len() - i,
            {
                let record = &records[i];
                assert(rs[i as int] == record@);
                if record.tenant_id.same_as(tenant_id) {
                    match record_matches_step(record, next_step) {
                        Err(e) => {
                            proof {
                                assert(step_fails(rs, t, scope_all(), step, i + 1));
                                lemma_step_fails_monotone(rs, t, scope_all(), step, i + 1, n);
                                assert(hop_spec(rs, t, f, direction, step)
                                    == Err::<Set<RecordId>, Seq<char>>(step_error_text(step)));
                            }
                            return Err(e);
                        },
                        Ok(true) => {
                            if edges_into(record, frontier) {
                                insert_id(&mut out, record.record_id);
                            }
                        },
                        Ok(false) => {},
                    }
                }
                i = i + 1;
            }
            proof {
                assert(out@.to_set() =~= step_selects(rs, t, scope_hits(f), step, n));
            }
            Ok(out)
        },
    }
}

/// The tenant's records a traversal reaches, ascending by id: those the first
/// step stands for, then hop by hop along the directions. No steps reach
/// nothing; steps that are not exactly one more than the directions are an error.
pub fn resolve_traversal_candidates(
    records: &Vec<GraphRecord>,
    tenant_id: &TenantId,
    steps: &Vec<PlanTraversalStep>,
    directions: &Vec<PlanTraversalDirection>,
) -> (r: Result<Vec<RecordId>, CoreError>)
    ensures
        ({
            let spec_result = traversal_spec(
                records_view(records@),
                tenant_id.0@,
                plan_steps_view(steps@),
                directions@,
            );
            match r {
                Ok(ids) => ids_ascending(ids@) && spec_result == Ok::<Set<RecordId>, Seq<char>>(
                    ids@.to_set(),
                ),
                Err(e) => spec_result is Err && is_planning_error(e, spec_result->Err_0),
            }
        }),
{
    let ghost rs = records_view(records@);
    let ghost t = tenant_id.0@;
    let ghost sv = plan_steps_view(steps@);
    if steps.len() == 0 {
        let out: Vec<RecordId> = Vec::new();
        assert(out@.to_set() =~= Set::<RecordId>::empty());
        return Ok(out);
    }
    if steps.len() - 1 != directions.len() {
        return Err(
            CoreError::QueryPlanning(
                String::from_str(
                    "invalid traversal shape: steps must be exactly one more than directions",
                ),
            ),
        );
    }
    let mut frontier = match resolve_step_records(records, tenant_id, &steps[0]) {
        Ok(ids) => ids,
        Err(e) => {
            proof {
                assert(sv[0] == steps@[0]@);
                lemma_frontier_error_persists(rs, t, sv, directions@, 0, directions@.len());
            }
            return Err(e);
        },
    };
    assert(sv[0] == steps@[0]@);
    let mut hop: usize = 0;
    while hop < directions.len()
        invariant
            rs == records_view(records@),
            t == tenant_id.0@,
            sv == plan_steps_view(steps@),
            steps@.len() == directions@.len() + 1,
            hop <= directions@.len(),
            ids_ascending(frontier@),
            frontier_after(rs, t, sv, directions@, hop as nat) == Ok::<Set<RecordId>, Seq<char>>(
                frontier@.to_set(),
            ),
        decreases directions@.len() - hop,
    {
        let next = expand_frontier(records, tenant_id, &frontier, directions[hop], &steps[hop + 1]);
        assert(sv[hop + 1] == steps@[hop + 1]@);
        match next {
            Ok(ids) => {
                frontier = ids;
            },
            Err(e) => {
                proof {
                    lemma_frontier_error_persists(
                        rs,
                        t,
                        sv,
                        directions@,
                        (hop + 1) as nat,
                        directions@.len(),
                    );
                }
                return Err(e);
            },
        }
        hop = hop + 1;
    }
    Ok(frontier)
}

} // verus!
