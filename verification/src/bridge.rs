//! What compiling a logical plan into an executor request decides: which
//! plans are refused, the structured predicates, the semantic queries and
//! their thresholds, the ordering and the result bound.
use vstd::prelude::*;

use crate::ast::{LiteralV, NumberLiteral};
use crate::literal::{literal_reading_text, literal_reads_at_most_one, reading_text, reads_at_most_one};
use crate::grammar::parse_query_spec;
use crate::lexer::parser_error_text;
use crate::planner::{
    filters_view, has_semantic_filter, plan_of, plan_query_text, planner_error_text,
    source_kind_of, transforms_view, ComparisonOp, FilterExpr, FilterExprV, LiteralExpr,
    LogicalPlan, LogicalPlanSummary, LogicalPlanV, PlanMode, PlanSource, PlanSourceV,
    PlanSortDirection, PlannerError, PlannerErrorV, TransformExpr, TransformExprV,
};
use crate::query::{PredicateOp as RequestOp, QueryOrderBy, QueryOrderByV, QueryOrderDirection};
use crate::text::{concat_decimal, concat_str, decimal};

verus! {

/// A structured predicate of a request; its value is still a literal.
#[derive(Debug, Clone, PartialEq, Eq)]
pub struct RequestPredicate {
    pub field: String,
    pub op: RequestOp,
    pub value: LiteralExpr,
}

pub ghost struct RequestPredicateV {
    pub field: Seq<char>,
    pub op: RequestOp,
    pub value: LiteralV,
}

impl View for RequestPredicate {
    type V = RequestPredicateV;

    open spec fn view(&self) -> RequestPredicateV {
        RequestPredicateV { field: self.field@, op: self.op, value: self.value@ }
    }
}

/// What planning decides of an executor request; the executor adds the
/// embedding of the semantic queries and its score policy.
#[derive(Debug, Clone, PartialEq, Eq)]
pub struct CompiledRequest {
    pub predicates: Vec<RequestPredicate>,
    pub semantic_queries: Vec<String>,
    pub thresholds: Vec<NumberLiteral>,
    pub order_by: Option<QueryOrderBy>,
    pub top_k: usize,
}

pub ghost struct CompiledRequestV {
    pub predicates: Seq<RequestPredicateV>,
    pub semantic_queries: Seq<Seq<char>>,
    pub thresholds: Seq<Seq<char>>,
    pub order_by: Option<QueryOrderByV>,
    pub top_k: usize,
}

pub open spec fn request_predicates_view(s: Seq<RequestPredicate>) -> Seq<RequestPredicateV> {
    s.map_values(|p: RequestPredicate| p@)
}

pub open spec fn strings_view(s: Seq<String>) -> Seq<Seq<char>> {
    s.map_values(|x: String| x@)
}

pub open spec fn numbers_view(s: Seq<NumberLiteral>) -> Seq<Seq<char>> {
    s.map_values(|n: NumberLiteral| n.text@)
}

pub open spec fn order_view(o: Option<QueryOrderBy>) -> Option<QueryOrderByV> {
    match o {
        Some(x) => Some(x@),
        None => None,
    }
}

impl View for CompiledRequest {
    type V = CompiledRequestV;

    open spec fn view(&self) -> CompiledRequestV {
        CompiledRequestV {
            predicates: request_predicates_view(self.predicates@),
            semantic_queries: strings_view(self.semantic_queries@),
            thresholds: numbers_view(self.thresholds@),
            order_by: order_view(self.order_by),
            top_k: self.top_k,
        }
    }
}

pub open spec fn request_op_of(op: ComparisonOp) -> RequestOp {
    match op {
        ComparisonOp::Eq => RequestOp::Eq,
        ComparisonOp::Ne => RequestOp::Ne,
        ComparisonOp::Lt => RequestOp::Lt,
        ComparisonOp::Lte => RequestOp::Lte,
        ComparisonOp::Gt => RequestOp::Gt,
        ComparisonOp::Gte => RequestOp::Gte,
    }
}

pub open spec fn order_direction_of(d: PlanSortDirection) -> QueryOrderDirection {
    match d {
        PlanSortDirection::Asc => QueryOrderDirection::Asc,
        PlanSortDirection::Desc => QueryOrderDirection::Desc,
    }
}

pub fn predicate_op_from_comparison(op: ComparisonOp) -> (r: RequestOp)
    ensures
        r == request_op_of(op),
{
    match op {
        ComparisonOp::Eq => RequestOp::Eq,
        ComparisonOp::Ne => RequestOp::Ne,
        ComparisonOp::Lt => RequestOp::Lt,
        ComparisonOp::Lte => RequestOp::Lte,
        ComparisonOp::Gt => RequestOp::Gt,
        ComparisonOp::Gte => RequestOp::Gte,
    }
}

pub fn query_order_direction_from_plan(direction: PlanSortDirection) -> (r: QueryOrderDirection)
    ensures
        r == order_direction_of(direction),
{
    match direction {
        PlanSortDirection::Asc => QueryOrderDirection::Asc,
        PlanSortDirection::Desc => QueryOrderDirection::Desc,
    }
}

// ----- filters -----
/// The structured predicates a filter contributes: a comparison gives one, a
/// range gives a lower and an upper bound, a semantic filter gives none.
pub open spec fn filter_predicates(f: FilterExprV) -> Seq<RequestPredicateV> {
    match f {
        FilterExprV::Field { field, op, value } => seq![
            RequestPredicateV { field, op: request_op_of(op), value },
        ],
        FilterExprV::Range { field, start, end } => seq![
            RequestPredicateV { field, op: RequestOp::Gte, value: start },
            RequestPredicateV { field, op: RequestOp::Lte, value: end },
        ],
        FilterExprV::Semantic { .. } => Seq::empty(),
    }
}

pub open spec fn predicates_of(fs: Seq<FilterExprV>) -> Seq<RequestPredicateV>
    decreases fs.len(),
{
    if fs.len() == 0 {
        Seq::empty()
    } else {
        predicates_of(fs.drop_last()) + filter_predicates(fs.last())
    }
}

pub open spec fn semantic_queries_of(fs: Seq<FilterExprV>) -> Seq<Seq<char>>
    decreases fs.len(),
{
    if fs.len() == 0 {
        Seq::empty()
    } else {
        let rest = semantic_queries_of(fs.drop_last());
        match fs.last() {
            FilterExprV::Semantic { query, .. } => rest.push(query),
            _ => rest,
        }
    }
}

pub open spec fn thresholds_of(fs: Seq<FilterExprV>) -> Seq<Seq<char>>
    decreases fs.len(),
{
    if fs.len() == 0 {
        Seq::empty()
    } else {
        let rest = thresholds_of(fs.drop_last());
        match fs.last() {
            FilterExprV::Semantic { threshold: Some(t), .. } => rest.push(t),
            _ => rest,
        }
    }
}

/// A threshold literal that reads as a float within [-1, 1]; literals are
/// never negative.
pub open spec fn threshold_in_range(t: Seq<char>) -> bool {
    reads_at_most_one(t)
}

/// The first threshold out of range, from position `i` on.
pub open spec fn first_bad_threshold_from(ts: Seq<Seq<char>>, i: int) -> Option<Seq<char>>
    decreases ts.len() - i,
{
    if i < 0 || i >= ts.len() {
        None
    } else if !threshold_in_range(ts[i]) {
        Some(ts[i])
    } else {
        first_bad_threshold_from(ts, i + 1)
    }
}

// ----- transforms -----
/// The ordering after asking for `compiled` when `current` is in force.
pub open spec fn order_after(
    current: Option<QueryOrderByV>,
    compiled: QueryOrderByV,
    conflict: Seq<char>,
) -> Result<Option<QueryOrderByV>, PlannerErrorV> {
    match current {
        Some(existing) => if existing != compiled {
            Err(PlannerErrorV::Unsupported(conflict))
        } else {
            Ok(Some(compiled))
        },
        None => Ok(Some(compiled)),
    }
}

/// The bound and ordering after one transform.
pub open spec fn transform_step(top_k: usize, order: Option<QueryOrderByV>, t: TransformExprV) -> Result<
    (usize, Option<QueryOrderByV>),
    PlannerErrorV,
> {
    match t {
        TransformExprV::TopK { k, order_by } => {
            let ordered = match order_by {
                Some(o) => order_after(
                    order,
                    QueryOrderByV { field: o.field, direction: order_direction_of(o.direction) },
                    "conflicting top() order-by clauses are not supported"@,
                ),
                None => Ok(order),
            };
            match ordered {
                Err(e) => Err(e),
                Ok(ord) => if k > usize::MAX {
                    Err(PlannerErrorV::InvalidPlan("top k out of range: "@ + decimal(k as nat)))
                } else {
                    Ok(
                        (
                            if (k as int) < (top_k as int) {
                                k as usize
                            } else {
                                top_k
                            },
                            ord,
                        ),
                    )
                },
            }
        },
        TransformExprV::Sort { field, direction } => match order_after(
            order,
            QueryOrderByV { field, direction: order_direction_of(direction) },
            "conflicting ordering transforms are not supported"@,
        ) {
            Err(e) => Err(e),
            Ok(ord) => Ok((top_k, ord)),
        },
        TransformExprV::Take { n } => if n > usize::MAX {
            Err(PlannerErrorV::InvalidPlan("take n out of range: "@ + decimal(n as nat)))
        } else {
            Ok(
                (
                    if (n as int) < (top_k as int) {
                        n as usize
                    } else {
                        top_k
                    },
                    order,
                ),
            )
        },
        _ => Err(
            PlannerErrorV::Unsupported(
                "only sort/top/take transforms are currently supported in CPU request bridge"@,
            ),
        ),
    }
}

/// The transforms from position `i` on, applied in turn.
pub open spec fn fold_transforms_from(
    ts: Seq<TransformExprV>,
    i: int,
    top_k: usize,
    order: Option<QueryOrderByV>,
) -> Result<(usize, Option<QueryOrderByV>), PlannerErrorV>
    decreases ts.len() - i,
{
    if i < 0 || i >= ts.len() {
        Ok((top_k, order))
    } else {
        match transform_step(top_k, order, ts[i]) {
            Err(e) => Err(e),
            Ok((k2, o2)) => fold_transforms_from(ts, i + 1, k2, o2),
        }
    }
}

/// What compiling a plan decides, or why the plan is refused.
pub open spec fn compile_spec(
    plan: LogicalPlanV,
    top_k_default: usize,
    semantic_embedding_dims: usize,
    enforce_entity_scan_source: bool,
) -> Result<CompiledRequestV, PlannerErrorV> {
    if plan.mode == PlanMode::Watch {
        Err(
            PlannerErrorV::Unsupported(
                "watch mode requires changefeed orchestration and cannot map to one-shot QueryRequest"@,
            ),
        )
    } else if enforce_entity_scan_source && plan.source is Traversal {
        Err(PlannerErrorV::Unsupported("traversal sources are not in the CPU request bridge subset"@))
    } else {
        let sem = semantic_queries_of(plan.filters);
        let ths = thresholds_of(plan.filters);
        match first_bad_threshold_from(ths, 0) {
            Some(t) => Err(
                PlannerErrorV::InvalidPlan(
                    "semantic threshold must be between -1.0 and 1.0, got "@ + reading_text(t),
                ),
            ),
            None => if sem.len() > 0 && semantic_embedding_dims == 0 {
                Err(PlannerErrorV::InvalidPlan("semantic embedding dimensions must be > 0"@))
            } else {
                match fold_transforms_from(plan.transforms, 0, top_k_default, None) {
                    Err(e) => Err(e),
                    Ok((top_k, order_by)) => if top_k == 0 {
                        Err(
                            PlannerErrorV::InvalidPlan(
                                "top_k resolved to 0, expected positive bound"@,
                            ),
                        )
                    } else {
                        Ok(
                            CompiledRequestV {
                                predicates: predicates_of(plan.filters),
                                semantic_queries: sem,
                                thresholds: ths,
                                order_by,
                                top_k,
                            },
                        )
                    },
                }
            },
        }
    }
}

proof fn lemma_fold_bound(ts: Seq<TransformExprV>, i: int, top_k: usize, order: Option<QueryOrderByV>)
    ensures
        fold_transforms_from(ts, i, top_k, order) matches Ok((k, _)) ==> k <= top_k,
    decreases ts.len() - i,
{
    if 0 <= i < ts.len() {
        if let Ok((k2, o2)) = transform_step(top_k, order, ts[i]) {
            lemma_fold_bound(ts, i + 1, k2, o2);
        }
    }
}

/// A compiled request asks for at least one result and never for more than
/// the default bound.
pub proof fn lemma_compiled_top_k_bounds(
    plan: LogicalPlanV,
    top_k_default: usize,
    semantic_embedding_dims: usize,
    enforce_entity_scan_source: bool,
)
    ensures
        compile_spec(plan, top_k_default, semantic_embedding_dims, enforce_entity_scan_source) matches Ok(
            c,
        ) ==> 0 < c.top_k <= top_k_default,
{
    lemma_fold_bound(plan.transforms, 0, top_k_default, None);
}

fn threshold_ok(t: &NumberLiteral) -> (r: bool)
    ensures
        r == threshold_in_range(t.text@),
{
    literal_reads_at_most_one(t.text.as_str())
}

fn apply_order(current: &Option<QueryOrderBy>, compiled: QueryOrderBy, conflict: &str) -> (r: Result<
    Option<QueryOrderBy>,
    PlannerError,
>)
    ensures
        match (r, order_after(order_view(*current), compiled@, conflict@)) {
            (Ok(a), Ok(b)) => order_view(a) == b,
            (Err(e), Err(f)) => e@ == f,
            _ => false,
        },
{
    match current {
        Some(existing) => {
            if !(existing.field == compiled.field && existing.direction == compiled.direction) {
                return Err(PlannerError::Unsupported(String::from_str(conflict)));
            }
            Ok(Some(compiled))
        },
        None => Ok(Some(compiled)),
    }
}

/// Decides the request a plan compiles to. `enforce_entity_scan_source` refuses
/// traversal sources.
#[verifier::loop_isolation(false)]
pub fn compile_request_plan(
    plan: &LogicalPlan,
    top_k_default: usize,
    semantic_embedding_dims: usize,
    enforce_entity_scan_source: bool,
) -> (r: Result<CompiledRequest, PlannerError>)
    ensures
        match (
            r,
            compile_spec(plan@, top_k_default, semantic_embedding_dims, enforce_entity_scan_source),
        ) {
            (Ok(c), Ok(d)) => c@ == d,
            (Err(e), Err(f)) => e@ == f,
            _ => false,
        },
{
    if let PlanMode::Watch = plan.mode {
        return Err(
            PlannerError::Unsupported(
                String::from_str(
                    "watch mode requires changefeed orchestration and cannot map to one-shot QueryRequest",
                ),
            ),
        );
    }
    if enforce_entity_scan_source {
        if let PlanSource::Traversal { .. } = &plan.source {
            return Err(
                PlannerError::Unsupported(
                    String::from_str("traversal sources are not in the CPU request bridge subset"),
                ),
            );
        }
    }
    let ghost fv = filters_view(plan.filters@);
    let mut predicates: Vec<RequestPredicate> = Vec::new();
    let mut semantic_queries: Vec<String> = Vec::new();
    let mut thresholds: Vec<NumberLiteral> = Vec::new();
    let mut i: usize = 0;
    assert(fv.take(0) =~= Seq::<FilterExprV>::empty());
    assert(request_predicates_view(predicates@) =~= Seq::<RequestPredicateV>::empty());
    assert(strings_view(semantic_queries@) =~= Seq::<Seq<char>>::empty());
    assert(numbers_view(thresholds@) =~= Seq::<Seq<char>>::empty());
    while i < plan.filters.len()
        invariant
            fv == filters_view(plan.filters@),
            i <= plan.filters@.len(),
            request_predicates_view(predicates@) == predicates_of(fv.take(i as int)),
            strings_view(semantic_queries@) == semantic_queries_of(fv.take(i as int)),
            numbers_view(thresholds@) == thresholds_of(fv.take(i as int)),
        decreases plan.filters@.len() - i,
    {
        let ghost before_p = request_predicates_view(predicates@);
        let ghost before_s = strings_view(semantic_queries@);
        let ghost before_t = numbers_view(thresholds@);
        assert(fv.take(i + 1).drop_last() =~= fv.take(i as int));
        assert(fv.take(i + 1).last() == plan.filters@[i as int]@);
        match &plan.filters[i] {
            FilterExpr::Field { field, op, value } => {
                predicates.push(
                    RequestPredicate {
                        field: field.clone(),
                        op: predicate_op_from_comparison(*op),
                        value: value.duplicate(),
                    },
                );
                assert(request_predicates_view(predicates@) =~= before_p + filter_predicates(
                    plan.filters@[i as int]@,
                ));
            },
            FilterExpr::Range { field, start, end } => {
                predicates.push(
                    RequestPredicate {
                        field: field.clone(),
                        op: RequestOp::Gte,
                        value: start.duplicate(),
                    },
                );
                predicates.push(
                    RequestPredicate {
                        field: field.clone(),
                        op: RequestOp::Lte,
                        value: end.duplicate(),
                    },
                );
                assert(request_predicates_view(predicates@) =~= before_p + filter_predicates(
                    plan.filters@[i as int]@,
                ));
            },
            FilterExpr::Semantic { query, threshold } => {
                semantic_queries.push(query.clone());
                assert(strings_view(semantic_queries@) =~= before_s.push(query@));
                if let Some(t) = threshold {
                    thresholds.push(NumberLiteral { text: t.text.clone() });
                    assert(numbers_view(thresholds@) =~= before_t.push(t.text@));
                }
                assert(request_predicates_view(predicates@) =~= before_p + filter_predicates(
                    plan.filters@[i as int]@,
                ));
            },
        }
        i = i + 1;
    }
    assert(fv.take(plan.filters@.len() as int) =~= fv);
    let ghost ths = numbers_view(thresholds@);
    let mut j: usize = 0;
    while j < thresholds.len()
        invariant
            ths == numbers_view(thresholds@),
            j <= thresholds@.len(),
            first_bad_threshold_from(ths, j as int) == first_bad_threshold_from(ths, 0),
        decreases thresholds@.len() - j,
    {
        if !threshold_ok(&thresholds[j]) {
            return Err(
                PlannerError::InvalidPlan(
                    concat_str(
                        "semantic threshold must be between -1.0 and 1.0, got ",
                        literal_reading_text(thresholds[j].text.as_str()).as_str(),
                    ),
                ),
            );
        }
        j = j + 1;
    }
    if semantic_queries.len() > 0 && semantic_embedding_dims == 0 {
        return Err(
            PlannerError::InvalidPlan(String::from_str("semantic embedding dimensions must be > 0")),
        );
    }
    let ghost tv = transforms_view(plan.transforms@);
    let mut top_k = top_k_default;
    let mut order_by: Option<QueryOrderBy> = None;
    let mut k: usize = 0;
    while k < plan.transforms.len()
        invariant
            tv == transforms_view(plan.transforms@),
            k <= plan.transforms@.len(),
            fold_transforms_from(tv, k as int, top_k, order_view(order_by)) == fold_transforms_from(
                tv,
                0,
                top_k_default,
                None,
            ),
        decreases plan.transforms@.len() - k,
    {
        match &plan.transforms[k] {
            TransformExpr::TopK { k: bound, order_by: top_order } => {
                match top_order {
                    Some(o) => {
                        let compiled = QueryOrderBy {
                            field: o.field.clone(),
                            direction: query_order_direction_from_plan(o.direction),
                        };
                        match apply_order(
                            &order_by,
                            compiled,
                            "conflicting top() order-by clauses are not supported",
                        ) {
                            Ok(next) => {
                                order_by = next;
                            },
                            Err(e) => {
                                return Err(e);
                            },
                        }
                    },
                    None => {},
                }
                if *bound > usize::MAX as u64 {
                    return Err(
                        PlannerError::InvalidPlan(concat_decimal("top k out of range: ", *bound)),
                    );
                }
                let b = *bound as usize;
                if b < top_k {
                    top_k = b;
                }
            },
            TransformExpr::Sort { field, direction } => {
                let compiled = QueryOrderBy {
                    field: field.clone(),
                    direction: query_order_direction_from_plan(*direction),
                };
                match apply_order(
                    &order_by,
                    compiled,
                    "conflicting ordering transforms are not supported",
                ) {
                    Ok(next) => {
                        order_by = next;
                    },
                    Err(e) => {
                        return Err(e);
                    },
                }
            },
            TransformExpr::Take { n } => {
                if *n > usize::MAX as u64 {
                    return Err(
                        PlannerError::InvalidPlan(concat_decimal("take n out of range: ", *n)),
                    );
                }
                let b = *n as usize;
                if b < top_k {
                    top_k = b;
                }
            },
            _ => {
                return Err(
                    PlannerError::Unsupported(
                        String::from_str(
                            "only sort/top/take transforms are currently supported in CPU request bridge",
                        ),
                    ),
                );
            },
        }
        k = k + 1;
    }
    if top_k == 0 {
        return Err(
            PlannerError::InvalidPlan(
                String::from_str("top_k resolved to 0, expected positive bound"),
            ),
        );
    }
    Ok(CompiledRequest { predicates, semantic_queries, thresholds, order_by, top_k })
}

/// Whether a plan projects onto an executor request, and if not, why.
#[derive(Debug, Clone, PartialEq, Eq)]
pub enum RequestProjectionStatus {
    Supported(CompiledRequest),
    Unsupported { reason: String },
}

/// A planned query, its shape, and its projection onto an executor request.
#[derive(Debug, Clone, PartialEq, Eq)]
pub struct QueryExplain {
    pub plan: LogicalPlan,
    pub summary: LogicalPlanSummary,
    pub request_projection: RequestProjectionStatus,
}

/// The projection of a plan, as a request or the text of the reason it has none.
pub open spec fn projection_of(
    plan: LogicalPlanV,
    top_k_default: usize,
    semantic_embedding_dims: usize,
) -> Result<CompiledRequestV, Seq<char>> {
    match compile_spec(plan, top_k_default, semantic_embedding_dims, false) {
        Ok(c) => Ok(c),
        Err(e) => Err(planner_error_text(e)),
    }
}

/// Plans query text and reports the plan's shape and whether it projects onto
/// an executor request (traversal sources included). Only a parse failure is
/// an error; a plan without a projection is explained with its reason.
pub fn explain_query_text(query: &str, top_k_default: usize, semantic_embedding_dims: usize) -> (r:
    Result<QueryExplain, PlannerError>)
    ensures
        match (r, parse_query_spec(query@)) {
            (Ok(x), Ok(a)) => {
                &&& x.plan@ == plan_of(a)
                &&& x.summary.mode == x.plan.mode
                &&& x.summary.source_kind == source_kind_of(x.plan.source@)
                &&& x.summary.filter_count == x.plan.filters@.len()
                &&& x.summary.transform_count == x.plan.transforms@.len()
                &&& x.summary.has_semantic_filter == has_semantic_filter(x.plan@.filters)
                &&& match (x.request_projection, projection_of(
                    plan_of(a),
                    top_k_default,
                    semantic_embedding_dims,
                )) {
                    (RequestProjectionStatus::Supported(c), Ok(d)) => c@ == d,
                    (RequestProjectionStatus::Unsupported { reason }, Err(t)) => reason@ == t,
                    _ => false,
                }
            },
            (Err(e), Err(f)) => e@ == PlannerErrorV::Parse(parser_error_text(f)),
            _ => false,
        },
{
    let plan = match plan_query_text(query) {
        Ok(p) => p,
        Err(e) => {
            return Err(e);
        },
    };
    let summary = LogicalPlanSummary::from_plan(&plan);
    let request_projection = match compile_request_plan(
        &plan,
        top_k_default,
        semantic_embedding_dims,
        false,
    ) {
        Ok(c) => RequestProjectionStatus::Supported(c),
        Err(e) => RequestProjectionStatus::Unsupported { reason: e.message() },
    };
    Ok(QueryExplain { plan, summary, request_projection })
}

proof fn lemma_predicates_prefix(fs: Seq<FilterExprV>, j: int)
    requires
        0 <= j <= fs.len(),
    ensures
        predicates_of(fs.take(j)).len() <= predicates_of(fs).len(),
        predicates_of(fs.take(j)) =~= predicates_of(fs).take(predicates_of(fs.take(j)).len() as int),
    decreases fs.len(),
{
    if j < fs.len() {
        lemma_predicates_prefix(fs.drop_last(), j);
        assert(fs.drop_last().take(j) =~= fs.take(j));
        let a = predicates_of(fs.drop_last());
        let b = filter_predicates(fs.last());
        let n = predicates_of(fs.take(j)).len() as int;
        assert((a + b).take(n) =~= a.take(n));
    } else {
        assert(fs.take(j) =~= fs);
    }
}

/// Each filter's predicates, in the order of the filters: the predicates a
/// filter contributes sit right after those of the filters before it. A
/// comparison contributes one predicate on its field and literal that a record
/// passes exactly when its field value satisfies the comparison; a range
/// `start..end` contributes a lower bound at `start` (passed by values at least
/// `start`) and then an upper bound at `end` (passed by values at most `end`);
/// a semantic filter contributes none.
pub proof fn lemma_predicates_mean_the_filters(fs: Seq<FilterExprV>, i: int)
    requires
        0 <= i < fs.len(),
    ensures
        ({
            let k = predicates_of(fs.take(i)).len() as int;
            let ps = predicates_of(fs);
            match fs[i] {
                FilterExprV::Field { field, op, value } => {
                    &&& k < ps.len()
                    &&& ps[k].field == field
                    &&& ps[k].value == value
                    &&& forall|x: int, v: int| #[trigger] ps[k].op.compares(x, v) == op.compares(x, v)
                },
                FilterExprV::Range { field, start, end } => {
                    &&& k + 1 < ps.len()
                    &&& ps[k].field == field && ps[k].value == start
                    &&& ps[k + 1].field == field && ps[k + 1].value == end
                    &&& forall|x: int, v: int| #[trigger] ps[k].op.compares(x, v) == (x >= v)
                    &&& forall|x: int, v: int| #[trigger] ps[k + 1].op.compares(x, v) == (x <= v)
                },
                FilterExprV::Semantic { .. } => predicates_of(fs.take(i + 1)).len() == k,
            }
        }),
{
    lemma_predicates_prefix(fs, i + 1);
    let t = fs.take(i + 1);
    assert(t.drop_last() =~= fs.take(i));
    assert(t.last() == fs[i]);
    let k = predicates_of(fs.take(i)).len() as int;
    let mine = filter_predicates(fs[i]);
    assert(predicates_of(t) == predicates_of(fs.take(i)) + mine);
    if mine.len() > 0 {
        assert(predicates_of(fs)[k] == predicates_of(t)[k]);
        assert(predicates_of(t)[k] == mine[0]);
    }
    if mine.len() > 1 {
        assert(predicates_of(fs)[k + 1] == predicates_of(t)[k + 1]);
        assert(predicates_of(t)[k + 1] == mine[1]);
    }
}

/// A compiled request's predicates are those of the plan's filters, in order,
/// with each filter's meaning (see `lemma_predicates_mean_the_filters`): for
/// instance `price > 100` compiles to one predicate on `price` and `100` that a
/// record passes exactly when its price is greater than 100.
pub proof fn lemma_compiled_predicates_mean_the_filters(
    plan: LogicalPlanV,
    top_k_default: usize,
    semantic_embedding_dims: usize,
    enforce_entity_scan_source: bool,
    i: int,
)
    requires
        0 <= i < plan.filters.len(),
    ensures
        compile_spec(plan, top_k_default, semantic_embedding_dims, enforce_entity_scan_source) matches Ok(
            c,
        ) ==> c.predicates == predicates_of(plan.filters),
        ({
            let k = predicates_of(plan.filters.take(i)).len() as int;
            let ps = predicates_of(plan.filters);
            match plan.filters[i] {
                FilterExprV::Field { field, op, value } => {
                    &&& k < ps.len()
                    &&& ps[k].field == field
                    &&& ps[k].value == value
                    &&& forall|x: int, v: int| #[trigger] ps[k].op.compares(x, v) == op.compares(x, v)
                },
                FilterExprV::Range { field, start, end } => {
                    &&& k + 1 < ps.len()
                    &&& ps[k].field == field && ps[k].value == start
                    &&& ps[k + 1].field == field && ps[k + 1].value == end
                    &&& forall|x: int, v: int| #[trigger] ps[k].op.compares(x, v) == (x >= v)
                    &&& forall|x: int, v: int| #[trigger] ps[k + 1].op.compares(x, v) == (x <= v)
                },
                FilterExprV::Semantic { .. } => predicates_of(plan.filters.take(i + 1)).len() == k,
            }
        }),
{
    lemma_predicates_mean_the_filters(plan.filters, i);
}

} // verus!
