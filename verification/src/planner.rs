//! Logical planning of parsed queries, and the decisions of compiling a plan
//! into an executor request.
use vstd::prelude::*;

use crate::ast::{
    has_semantic, mode_text, node_has_semantic, node_hops, node_predicate_count, AggregateOp,
    Literal, LiteralV, NumberLiteral, OrderBy, Predicate, PredicateOp, PredicateV, QueryAst,
    QueryAstV, QueryMode, QueryNode, QueryNodeV, SortDirection, TraversalDirection, TraversalStep,
    TraversalStepV,
};
use crate::grammar::parse_query_spec;
use crate::lexer::{parser_error_text, ParserErrorV};
use crate::parser::parse_query;
use crate::query::{PredicateOp as RequestOp, QueryOrderBy, QueryOrderByV, QueryOrderDirection};
use crate::text::{concat_decimal, concat_str, decimal};

verus! {

#[derive(Debug, Clone, Copy, PartialEq, Eq, Structural)]
pub enum PlanMode {
    Once,
    Watch,
}

#[derive(Debug, Clone, Copy, PartialEq, Eq, Structural)]
pub enum PlanTraversalDirection {
    Outbound,
    Inbound,
}

#[derive(Debug, Clone, Copy, PartialEq, Eq, Structural)]
pub enum ComparisonOp {
    Eq,
    Ne,
    Lt,
    Lte,
    Gt,
    Gte,
}

impl ComparisonOp {
    /// What the filter asks of a field value `x` against the literal `v`.
    pub open spec fn compares(self, x: int, v: int) -> bool {
        match self {
            ComparisonOp::Eq => x == v,
            ComparisonOp::Ne => x != v,
            ComparisonOp::Lt => x < v,
            ComparisonOp::Lte => x <= v,
            ComparisonOp::Gt => x > v,
            ComparisonOp::Gte => x >= v,
        }
    }
}

#[derive(Debug, Clone, Copy, PartialEq, Eq, Structural)]
pub enum PlanSortDirection {
    Asc,
    Desc,
}

#[derive(Debug, Clone, Copy, PartialEq, Eq, Structural)]
pub enum PlanAggregateOp {
    Count,
    Sum,
    Avg,
    Min,
    Max,
}

#[derive(Debug, Clone, PartialEq, Eq)]
pub enum LiteralExpr {
    String(String),
    Number(NumberLiteral),
    Bool(bool),
    Ident(String),
}

#[derive(Debug, Clone, PartialEq, Eq)]
pub enum PlanTraversalStep {
    EntityScan(String),
    EntityRef { entity: String, id: LiteralExpr },
}

#[derive(Debug, Clone, PartialEq, Eq)]
pub enum PlanSource {
    EntityScan { entity: String },
    Traversal { steps: Vec<PlanTraversalStep>, directions: Vec<PlanTraversalDirection> },
}

#[derive(Debug, Clone, PartialEq, Eq)]
pub enum FilterExpr {
    Field { field: String, op: ComparisonOp, value: LiteralExpr },
    Range { field: String, start: LiteralExpr, end: LiteralExpr },
    Semantic { query: String, threshold: Option<NumberLiteral> },
}

#[derive(Debug, Clone, PartialEq, Eq)]
pub struct PlanOrderBy {
    pub field: String,
    pub direction: PlanSortDirection,
}

#[derive(Debug, Clone, PartialEq, Eq)]
pub enum TransformExpr {
    TopK { k: u64, order_by: Option<PlanOrderBy> },
    Sort { field: String, direction: PlanSortDirection },
    Group { field: String },
    Aggregate { op: PlanAggregateOp, field: Option<String> },
    Take { n: u64 },
}

#[derive(Debug, Clone, PartialEq, Eq)]
pub struct LogicalPlan {
    pub mode: PlanMode,
    pub source: PlanSource,
    pub filters: Vec<FilterExpr>,
    pub transforms: Vec<TransformExpr>,
}

#[derive(Debug, Clone, PartialEq, Eq)]
pub enum PlannerError {
    Parse(String),
    Unsupported(String),
    InvalidPlan(String),
}

#[derive(Debug, Clone, Copy, PartialEq, Eq, Structural)]
pub enum PlanSourceKind {
    EntityScan,
    Traversal,
}

#[derive(Debug, Clone, Copy, PartialEq, Eq, Structural)]
pub struct LogicalPlanSummary {
    pub mode: PlanMode,
    pub source_kind: PlanSourceKind,
    pub filter_count: usize,
    pub transform_count: usize,
    pub has_semantic_filter: bool,
}

// ----- mathematical values -----
pub ghost enum PlanSourceV {
    EntityScan { entity: Seq<char> },
    Traversal { steps: Seq<TraversalStepV>, directions: Seq<PlanTraversalDirection> },
}

pub ghost enum FilterExprV {
    Field { field: Seq<char>, op: ComparisonOp, value: LiteralV },
    Range { field: Seq<char>, start: LiteralV, end: LiteralV },
    Semantic { query: Seq<char>, threshold: Option<Seq<char>> },
}

pub ghost struct PlanOrderByV {
    pub field: Seq<char>,
    pub direction: PlanSortDirection,
}

pub ghost enum TransformExprV {
    TopK { k: u64, order_by: Option<PlanOrderByV> },
    Sort { field: Seq<char>, direction: PlanSortDirection },
    Group { field: Seq<char> },
    Aggregate { op: PlanAggregateOp, field: Option<Seq<char>> },
    Take { n: u64 },
}

pub ghost struct LogicalPlanV {
    pub mode: PlanMode,
    pub source: PlanSourceV,
    pub filters: Seq<FilterExprV>,
    pub transforms: Seq<TransformExprV>,
}

pub ghost enum PlannerErrorV {
    Parse(Seq<char>),
    Unsupported(Seq<char>),
    InvalidPlan(Seq<char>),
}

impl View for LiteralExpr {
    type V = LiteralV;

    open spec fn view(&self) -> LiteralV {
        match self {
            LiteralExpr::String(s) => LiteralV::String(s@),
            LiteralExpr::Number(n) => LiteralV::Number(n.text@),
            LiteralExpr::Bool(b) => LiteralV::Bool(*b),
            LiteralExpr::Ident(s) => LiteralV::Ident(s@),
        }
    }
}

impl LiteralExpr {
    /// A copy of this literal.
    pub fn duplicate(&self) -> (r: Self)
        ensures
            r@ == self@,
    {
        match self {
            LiteralExpr::String(v) => LiteralExpr::String(v.clone()),
            LiteralExpr::Number(v) => LiteralExpr::Number(NumberLiteral { text: v.text.clone() }),
            LiteralExpr::Bool(v) => LiteralExpr::Bool(*v),
            LiteralExpr::Ident(v) => LiteralExpr::Ident(v.clone()),
        }
    }
}

impl View for PlanTraversalStep {
    type V = TraversalStepV;

    open spec fn view(&self) -> TraversalStepV {
        match self {
            PlanTraversalStep::EntityScan(e) => TraversalStepV::EntityScan(e@),
            PlanTraversalStep::EntityRef { entity, id } => TraversalStepV::EntityRef {
                entity: entity@,
                id: id@,
            },
        }
    }
}

pub open spec fn plan_steps_view(s: Seq<PlanTraversalStep>) -> Seq<TraversalStepV> {
    s.map_values(|t: PlanTraversalStep| t@)
}

impl View for PlanSource {
    type V = PlanSourceV;

    open spec fn view(&self) -> PlanSourceV {
        match self {
            PlanSource::EntityScan { entity } => PlanSourceV::EntityScan { entity: entity@ },
            PlanSource::Traversal { steps, directions } => PlanSourceV::Traversal {
                steps: plan_steps_view(steps@),
                directions: directions@,
            },
        }
    }
}

impl View for FilterExpr {
    type V = FilterExprV;

    open spec fn view(&self) -> FilterExprV {
        match self {
            FilterExpr::Field { field, op, value } => FilterExprV::Field {
                field: field@,
                op: *op,
                value: value@,
            },
            FilterExpr::Range { field, start, end } => FilterExprV::Range {
                field: field@,
                start: start@,
                end: end@,
            },
            FilterExpr::Semantic { query, threshold } => FilterExprV::Semantic {
                query: query@,
                threshold: crate::ast::optional_number(*threshold),
            },
        }
    }
}

pub open spec fn filters_view(s: Seq<FilterExpr>) -> Seq<FilterExprV> {
    s.map_values(|f: FilterExpr| f@)
}

impl View for PlanOrderBy {
    type V = PlanOrderByV;

    open spec fn view(&self) -> PlanOrderByV {
        PlanOrderByV { field: self.field@, direction: self.direction }
    }
}

impl View for TransformExpr {
    type V = TransformExprV;

    open spec fn view(&self) -> TransformExprV {
        match self {
            TransformExpr::TopK { k, order_by } => TransformExprV::TopK {
                k: *k,
                order_by: match order_by {
                    Some(o) => Some(o@),
                    None => None,
                },
            },
            TransformExpr::Sort { field, direction } => TransformExprV::Sort {
                field: field@,
                direction: *direction,
            },
            TransformExpr::Group { field } => TransformExprV::Group { field: field@ },
            TransformExpr::Aggregate { op, field } => TransformExprV::Aggregate {
                op: *op,
                field: crate::ast::optional_text(*field),
            },
            TransformExpr::Take { n } => TransformExprV::Take { n: *n },
        }
    }
}

pub open spec fn transforms_view(s: Seq<TransformExpr>) -> Seq<TransformExprV> {
    s.map_values(|t: TransformExpr| t@)
}

impl View for LogicalPlan {
    type V = LogicalPlanV;

    open spec fn view(&self) -> LogicalPlanV {
        LogicalPlanV {
            mode: self.mode,
            source: self.source@,
            filters: filters_view(self.filters@),
            transforms: transforms_view(self.transforms@),
        }
    }
}

impl View for PlannerError {
    type V = PlannerErrorV;

    open spec fn view(&self) -> PlannerErrorV {
        match self {
            PlannerError::Parse(s) => PlannerErrorV::Parse(s@),
            PlannerError::Unsupported(s) => PlannerErrorV::Unsupported(s@),
            PlannerError::InvalidPlan(s) => PlannerErrorV::InvalidPlan(s@),
        }
    }
}

/// The human-readable text of a planning error.
pub open spec fn planner_error_text(e: PlannerErrorV) -> Seq<char> {
    match e {
        PlannerErrorV::Parse(s) => "parse failure: "@ + s,
        PlannerErrorV::Unsupported(s) => "unsupported plan feature: "@ + s,
        PlannerErrorV::InvalidPlan(s) => "invalid plan: "@ + s,
    }
}

impl PlannerError {
    /// Renders the error as text.
    pub fn message(&self) -> (r: String)
        ensures
            r@ == planner_error_text(self@),
    {
        match self {
            PlannerError::Parse(s) => concat_str("parse failure: ", s.as_str()),
            PlannerError::Unsupported(s) => concat_str("unsupported plan feature: ", s.as_str()),
            PlannerError::InvalidPlan(s) => concat_str("invalid plan: ", s.as_str()),
        }
    }
}

// ----- from syntax tree to plan -----
pub open spec fn comparison_of(op: PredicateOp) -> ComparisonOp {
    match op {
        PredicateOp::Eq => ComparisonOp::Eq,
        PredicateOp::Ne => ComparisonOp::Ne,
        PredicateOp::Lt => ComparisonOp::Lt,
        PredicateOp::Lte => ComparisonOp::Lte,
        PredicateOp::Gt => ComparisonOp::Gt,
        PredicateOp::Gte => ComparisonOp::Gte,
    }
}

pub open spec fn plan_sort_of(d: SortDirection) -> PlanSortDirection {
    match d {
        SortDirection::Asc => PlanSortDirection::Asc,
        SortDirection::Desc => PlanSortDirection::Desc,
    }
}

pub open spec fn plan_aggregate_of(op: AggregateOp) -> PlanAggregateOp {
    match op {
        AggregateOp::Count => PlanAggregateOp::Count,
        AggregateOp::Sum => PlanAggregateOp::Sum,
        AggregateOp::Avg => PlanAggregateOp::Avg,
        AggregateOp::Min => PlanAggregateOp::Min,
        AggregateOp::Max => PlanAggregateOp::Max,
    }
}

pub open spec fn plan_hop_of(d: TraversalDirection) -> PlanTraversalDirection {
    match d {
        TraversalDirection::Outbound => PlanTraversalDirection::Outbound,
        TraversalDirection::Inbound => PlanTraversalDirection::Inbound,
    }
}

pub open spec fn filter_of(p: PredicateV) -> FilterExprV {
    match p {
        PredicateV::Field { field, op, value } => FilterExprV::Field {
            field,
            op: comparison_of(op),
            value,
        },
        PredicateV::Range { field, start, end } => FilterExprV::Range { field, start, end },
        PredicateV::Semantic { query, threshold } => FilterExprV::Semantic { query, threshold },
    }
}

/// The transform a pipeline node applies (sources apply none).
pub open spec fn transform_of(n: QueryNodeV) -> Option<TransformExprV> {
    match n {
        QueryNodeV::TopK { k, order_by, .. } => Some(
            TransformExprV::TopK {
                k,
                order_by: match order_by {
                    Some(o) => Some(PlanOrderByV { field: o.field, direction: plan_sort_of(o.direction) }),
                    None => None,
                },
            },
        ),
        QueryNodeV::Sort { field, direction, .. } => Some(
            TransformExprV::Sort { field, direction: plan_sort_of(direction) },
        ),
        QueryNodeV::Group { field, .. } => Some(TransformExprV::Group { field }),
        QueryNodeV::Aggregate { op, field, .. } => Some(
            TransformExprV::Aggregate { op: plan_aggregate_of(op), field },
        ),
        QueryNodeV::Take { n, .. } => Some(TransformExprV::Take { n }),
        _ => None,
    }
}

/// The source node under a chain of transforms.
pub open spec fn pipeline_source(n: QueryNodeV) -> QueryNodeV
    decreases n,
{
    match n {
        QueryNodeV::TopK { source, .. } => pipeline_source(*source),
        QueryNodeV::Sort { source, .. } => pipeline_source(*source),
        QueryNodeV::Group { source, .. } => pipeline_source(*source),
        QueryNodeV::Aggregate { source, .. } => pipeline_source(*source),
        QueryNodeV::Take { source, .. } => pipeline_source(*source),
        _ => n,
    }
}

/// The transforms of a pipeline, from the source towards the sink.
pub open spec fn pipeline_transforms(n: QueryNodeV) -> Seq<TransformExprV>
    decreases n,
{
    match n {
        QueryNodeV::TopK { source, .. } => pipeline_transforms(*source).push(
            transform_of(n)->Some_0,
        ),
        QueryNodeV::Sort { source, .. } => pipeline_transforms(*source).push(
            transform_of(n)->Some_0,
        ),
        QueryNodeV::Group { source, .. } => pipeline_transforms(*source).push(
            transform_of(n)->Some_0,
        ),
        QueryNodeV::Aggregate { source, .. } => pipeline_transforms(*source).push(
            transform_of(n)->Some_0,
        ),
        QueryNodeV::Take { source, .. } => pipeline_transforms(*source).push(
            transform_of(n)->Some_0,
        ),
        _ => Seq::empty(),
    }
}

pub open spec fn plan_mode_of(m: QueryMode) -> PlanMode {
    match m {
        QueryMode::Once => PlanMode::Once,
        QueryMode::Watch => PlanMode::Watch,
    }
}

pub open spec fn source_predicates(n: QueryNodeV) -> Seq<PredicateV> {
    match n {
        QueryNodeV::EntityScan { predicates, .. } => predicates,
        QueryNodeV::Traversal { predicates, .. } => predicates,
        _ => Seq::empty(),
    }
}

pub open spec fn plan_source_of(n: QueryNodeV) -> PlanSourceV {
    match n {
        QueryNodeV::Traversal { steps, directions, .. } => PlanSourceV::Traversal {
            steps,
            directions: directions.map_values(|d: TraversalDirection| plan_hop_of(d)),
        },
        QueryNodeV::EntityScan { entity, .. } => PlanSourceV::EntityScan { entity },
        _ => PlanSourceV::EntityScan { entity: Seq::empty() },
    }
}

pub proof fn lemma_pipeline_source_is_source(n: QueryNodeV)
    ensures
        pipeline_source(n) is EntityScan || pipeline_source(n) is Traversal,
    decreases n,
{
    match n {
        QueryNodeV::TopK { source, .. } => lemma_pipeline_source_is_source(*source),
        QueryNodeV::Sort { source, .. } => lemma_pipeline_source_is_source(*source),
        QueryNodeV::Group { source, .. } => lemma_pipeline_source_is_source(*source),
        QueryNodeV::Aggregate { source, .. } => lemma_pipeline_source_is_source(*source),
        QueryNodeV::Take { source, .. } => lemma_pipeline_source_is_source(*source),
        _ => {},
    }
}

/// The logical plan of a syntax tree: its source, the source's predicates as
/// filters, and its transforms from source to sink.
pub open spec fn plan_of(a: QueryAstV) -> LogicalPlanV {
    let src = pipeline_source(a.root);
    LogicalPlanV {
        mode: plan_mode_of(a.mode),
        source: plan_source_of(src),
        filters: source_predicates(src).map_values(|p: PredicateV| filter_of(p)),
        transforms: pipeline_transforms(a.root),
    }
}

proof fn lemma_source_shape(n: QueryNodeV)
    ensures
        node_predicate_count(n) == source_predicates(pipeline_source(n)).len(),
        node_has_semantic(n) == has_semantic(source_predicates(pipeline_source(n))),
        match (pipeline_source(n), node_hops(n)) {
            (QueryNodeV::Traversal { directions, .. }, Some(h)) => directions.len() == h,
            (QueryNodeV::EntityScan { .. }, None) => true,
            _ => false,
        },
    decreases n,
{
    lemma_pipeline_source_is_source(n);
    match n {
        QueryNodeV::TopK { source, .. } => lemma_source_shape(*source),
        QueryNodeV::Sort { source, .. } => lemma_source_shape(*source),
        QueryNodeV::Group { source, .. } => lemma_source_shape(*source),
        QueryNodeV::Aggregate { source, .. } => lemma_source_shape(*source),
        QueryNodeV::Take { source, .. } => lemma_source_shape(*source),
        _ => {},
    }
}

/// Planning keeps what the parser reports of a query: its mode, the number of
/// its predicates, whether one of them is semantic, the hops of a traversal
/// source; and the outermost transform becomes the last stage of the plan.
pub proof fn lemma_plan_preserves_query_shape(a: QueryAstV)
    ensures
        plan_of(a).mode == plan_mode_of(a.mode),
        plan_of(a).filters.len() == node_predicate_count(a.root),
        has_semantic_filter(plan_of(a).filters) == node_has_semantic(a.root),
        match (plan_of(a).source, node_hops(a.root)) {
            (PlanSourceV::Traversal { directions, .. }, Some(h)) => directions.len() == h,
            (PlanSourceV::EntityScan { .. }, None) => true,
            _ => false,
        },
        transform_of(a.root) matches Some(t) ==> plan_of(a).transforms.len() > 0
            && plan_of(a).transforms.last() == t,
        transform_of(a.root) is None ==> plan_of(a).transforms.len() == 0,
{
    lemma_source_shape(a.root);
    let ps = source_predicates(pipeline_source(a.root));
    let fs = plan_of(a).filters;
    assert(fs.len() == ps.len());
    if has_semantic(ps) {
        let i = choose|i: int| 0 <= i < ps.len() && #[trigger] ps[i] is Semantic;
        assert(fs[i] is Semantic);
    }
    if has_semantic_filter(fs) {
        let i = choose|i: int| 0 <= i < fs.len() && #[trigger] fs[i] is Semantic;
        assert(ps[i] is Semantic);
    }
}

pub fn comparison_from_ast(op: PredicateOp) -> (r: ComparisonOp)
    ensures
        r == comparison_of(op),
{
    match op {
        PredicateOp::Eq => ComparisonOp::Eq,
        PredicateOp::Ne => ComparisonOp::Ne,
        PredicateOp::Lt => ComparisonOp::Lt,
        PredicateOp::Lte => ComparisonOp::Lte,
        PredicateOp::Gt => ComparisonOp::Gt,
        PredicateOp::Gte => ComparisonOp::Gte,
    }
}

pub fn sort_direction_from_ast(direction: SortDirection) -> (r: PlanSortDirection)
    ensures
        r == plan_sort_of(direction),
{
    match direction {
        SortDirection::Asc => PlanSortDirection::Asc,
        SortDirection::Desc => PlanSortDirection::Desc,
    }
}

pub fn aggregate_op_from_ast(op: AggregateOp) -> (r: PlanAggregateOp)
    ensures
        r == plan_aggregate_of(op),
{
    match op {
        AggregateOp::Count => PlanAggregateOp::Count,
        AggregateOp::Sum => PlanAggregateOp::Sum,
        AggregateOp::Avg => PlanAggregateOp::Avg,
        AggregateOp::Min => PlanAggregateOp::Min,
        AggregateOp::Max => PlanAggregateOp::Max,
    }
}

pub fn order_by_from_ast(order_by: &OrderBy) -> (r: PlanOrderBy)
    ensures
        r@ == (PlanOrderByV { field: order_by.field@, direction: plan_sort_of(order_by.direction) }),
{
    PlanOrderBy {
        field: order_by.field.clone(),
        direction: sort_direction_from_ast(order_by.direction),
    }
}

pub fn literal_from_ast(literal: &Literal) -> (r: LiteralExpr)
    ensures
        r@ == literal@,
{
    match literal {
        Literal::String(v) => LiteralExpr::String(v.clone()),
        Literal::Number(v) => LiteralExpr::Number(NumberLiteral { text: v.text.clone() }),
        Literal::Bool(v) => LiteralExpr::Bool(*v),
        Literal::Ident(v) => LiteralExpr::Ident(v.clone()),
    }
}

pub fn filter_from_ast(predicate: &Predicate) -> (r: Result<FilterExpr, PlannerError>)
    ensures
        match r {
            Ok(f) => f@ == filter_of(predicate@),
            Err(_) => false,
        },
{
    match predicate {
        Predicate::Field { field, op, value } => Ok(
            FilterExpr::Field {
                field: field.clone(),
                op: comparison_from_ast(*op),
                value: literal_from_ast(value),
            },
        ),
        Predicate::Range { field, start, end } => Ok(
            FilterExpr::Range {
                field: field.clone(),
                start: literal_from_ast(start),
                end: literal_from_ast(end),
            },
        ),
        Predicate::Semantic { query, threshold } => Ok(
            FilterExpr::Semantic {
                query: query.clone(),
                threshold: match threshold {
                    Some(t) => Some(NumberLiteral { text: t.text.clone() }),
                    None => None,
                },
            },
        ),
    }
}

pub fn traversal_step_from_ast(step: &TraversalStep) -> (r: Result<PlanTraversalStep, PlannerError>)
    ensures
        match r {
            Ok(s) => s@ == step@,
            Err(_) => false,
        },
{
    match step {
        TraversalStep::EntityScan(entity) => Ok(PlanTraversalStep::EntityScan(entity.clone())),
        TraversalStep::EntityRef { entity, id } => Ok(
            PlanTraversalStep::EntityRef { entity: entity.clone(), id: literal_from_ast(id) },
        ),
    }
}

/// The transform of a pipeline node; a source node is refused.
pub fn transform_from_ast(node: &QueryNode) -> (r: Result<TransformExpr, PlannerError>)
    ensures
        match (r, transform_of(node@)) {
            (Ok(t), Some(u)) => t@ == u,
            (Err(e), None) => e@ == PlannerErrorV::InvalidPlan(
                "attempted to convert non-transform node to transform"@,
            ),
            _ => false,
        },
{
    match node {
        QueryNode::TopK { k, order_by, .. } => Ok(
            TransformExpr::TopK {
                k: *k,
                order_by: match order_by {
                    Some(o) => Some(order_by_from_ast(o)),
                    None => None,
                },
            },
        ),
        QueryNode::Sort { field, direction, .. } => Ok(
            TransformExpr::Sort {
                field: field.clone(),
                direction: sort_direction_from_ast(*direction),
            },
        ),
        QueryNode::Group { field, .. } => Ok(TransformExpr::Group { field: field.clone() }),
        QueryNode::Aggregate { op, field, .. } => Ok(
            TransformExpr::Aggregate { op: aggregate_op_from_ast(*op), field: field.clone() },
        ),
        QueryNode::Take { n, .. } => Ok(TransformExpr::Take { n: *n }),
        _ => Err(
            PlannerError::InvalidPlan(
                String::from_str("attempted to convert non-transform node to transform"),
            ),
        ),
    }
}

/// Appends the transforms of `node` to `out`, source first, and gives the
/// source node under them.
fn split_pipeline<'a>(node: &'a QueryNode, out: &mut Vec<TransformExpr>) -> (src: &'a QueryNode)
    ensures
        transforms_view(final(out)@) == transforms_view(old(out)@) + pipeline_transforms(node@),
        src@ == pipeline_source(node@),
    decreases node,
{
    let inner = match node {
        QueryNode::TopK { source, .. } => source,
        QueryNode::Sort { source, .. } => source,
        QueryNode::Group { source, .. } => source,
        QueryNode::Aggregate { source, .. } => source,
        QueryNode::Take { source, .. } => source,
        _ => {
            assert(transforms_view(out@) =~= transforms_view(out@) + Seq::empty());
            return node;
        },
    };
    let src = split_pipeline(inner, out);
    match transform_from_ast(node) {
        Ok(t) => {
            let ghost before = transforms_view(out@);
            out.push(t);
            assert(transforms_view(out@) =~= before.push(t@));
        },
        Err(_) => {},
    }
    assert(transforms_view(out@) =~= transforms_view(old(out)@) + pipeline_transforms(node@));
    src
}

fn filters_from_ast(predicates: &Vec<Predicate>) -> (r: Vec<FilterExpr>)
    ensures
        filters_view(r@) == crate::ast::predicates_view(predicates@).map_values(
            |p: PredicateV| filter_of(p),
        ),
{
    let mut out: Vec<FilterExpr> = Vec::new();
    let mut i: usize = 0;
    while i < predicates.len()
        invariant
            i <= predicates@.len(),
            filters_view(out@) == crate::ast::predicates_view(predicates@).take(i as int).map_values(
                |p: PredicateV| filter_of(p),
            ),
        decreases predicates@.len() - i,
    {
        let ghost before = filters_view(out@);
        assert(crate::ast::predicates_view(predicates@)[i as int] == predicates@[i as int]@);
        assert(crate::ast::predicates_view(predicates@).take(i + 1) =~= crate::ast::predicates_view(
            predicates@,
        ).take(i as int).push(predicates@[i as int]@));
        match filter_from_ast(&predicates[i]) {
            Ok(f) => {
                out.push(f);
                assert(filters_view(out@) =~= before.push(f@));
            },
            Err(_) => {},
        }
        assert(filters_view(out@) =~= crate::ast::predicates_view(predicates@).take(i + 1).map_values(
            |p: PredicateV| filter_of(p),
        ));
        i = i + 1;
    }
    assert(crate::ast::predicates_view(predicates@).take(predicates@.len() as int)
        =~= crate::ast::predicates_view(predicates@));
    out
}

fn steps_from_ast(steps: &Vec<TraversalStep>) -> (r: Vec<PlanTraversalStep>)
    ensures
        plan_steps_view(r@) == crate::ast::steps_view(steps@),
{
    let mut out: Vec<PlanTraversalStep> = Vec::new();
    let mut i: usize = 0;
    while i < steps.len()
        invariant
            i <= steps@.len(),
            plan_steps_view(out@) == crate::ast::steps_view(steps@).take(i as int),
        decreases steps@.len() - i,
    {
        assert(crate::ast::steps_view(steps@).take(i + 1) =~= crate::ast::steps_view(steps@).take(
            i as int,
        ).push(steps@[i as int]@));
        match traversal_step_from_ast(&steps[i]) {
            Ok(s) => {
                out.push(s);
            },
            Err(_) => {},
        }
        assert(plan_steps_view(out@) =~= crate::ast::steps_view(steps@).take(i + 1));
        i = i + 1;
    }
    assert(crate::ast::steps_view(steps@).take(steps@.len() as int) =~= crate::ast::steps_view(
        steps@,
    ));
    out
}

fn hops_from_ast(directions: &Vec<TraversalDirection>) -> (r: Vec<PlanTraversalDirection>)
    ensures
        r@ == directions@.map_values(|d: TraversalDirection| plan_hop_of(d)),
{
    let mut out: Vec<PlanTraversalDirection> = Vec::new();
    let mut i: usize = 0;
    while i < directions.len()
        invariant
            i <= directions@.len(),
            out@ == directions@.take(i as int).map_values(|d: TraversalDirection| plan_hop_of(d)),
        decreases directions@.len() - i,
    {
        let d = match directions[i] {
            TraversalDirection::Outbound => PlanTraversalDirection::Outbound,
            TraversalDirection::Inbound => PlanTraversalDirection::Inbound,
        };
        out.push(d);
        assert(out@ =~= directions@.take(i + 1).map_values(|d: TraversalDirection| plan_hop_of(d)));
        i = i + 1;
    }
    assert(directions@.take(directions@.len() as int) =~= directions@);
    out
}

/// The logical plan of a syntax tree.
pub fn logical_plan_from_ast(ast: &QueryAst) -> (r: Result<LogicalPlan, PlannerError>)
    ensures
        match r {
            Ok(p) => p@ == plan_of(ast@),
            Err(_) => false,
        },
{
    let mut transforms: Vec<TransformExpr> = Vec::new();
    assert(transforms_view(transforms@) =~= Seq::<TransformExprV>::empty());
    let src = split_pipeline(&ast.root, &mut transforms);
    proof {
        lemma_pipeline_source_is_source(ast.root@);
    }
    assert(transforms_view(transforms@) =~= pipeline_transforms(ast.root@));
    let (source, filters) = match src {
        QueryNode::EntityScan { entity, predicates } => (
            PlanSource::EntityScan { entity: entity.clone() },
            filters_from_ast(predicates),
        ),
        QueryNode::Traversal { steps, directions, predicates } => (
            PlanSource::Traversal {
                steps: steps_from_ast(steps),
                directions: hops_from_ast(directions),
            },
            filters_from_ast(predicates),
        ),
        _ => {
            return Err(
                PlannerError::InvalidPlan(
                    String::from_str("unexpected non-source AST node after transform split"),
                ),
            );
        },
    };
    let mode = match ast.mode {
        QueryMode::Once => PlanMode::Once,
        QueryMode::Watch => PlanMode::Watch,
    };
    Ok(LogicalPlan { mode, source, filters, transforms })
}

/// Parses query text and plans it; a parse failure is reported with its text.
pub fn plan_query_text(query: &str) -> (r: Result<LogicalPlan, PlannerError>)
    ensures
        match (r, parse_query_spec(query@)) {
            (Ok(p), Ok(a)) => p@ == plan_of(a),
            (Err(e), Err(f)) => e@ == PlannerErrorV::Parse(parser_error_text(f)),
            _ => false,
        },
{
    match parse_query(query) {
        Ok(ast) => logical_plan_from_ast(&ast),
        Err(e) => Err(PlannerError::Parse(e.message())),
    }
}

// ----- plan summary -----
pub open spec fn source_kind_of(s: PlanSourceV) -> PlanSourceKind {
    match s {
        PlanSourceV::EntityScan { .. } => PlanSourceKind::EntityScan,
        PlanSourceV::Traversal { .. } => PlanSourceKind::Traversal,
    }
}

pub open spec fn has_semantic_filter(fs: Seq<FilterExprV>) -> bool {
    exists|i: int| 0 <= i < fs.len() && #[trigger] fs[i] is Semantic
}

fn filters_have_semantic(fs: &Vec<FilterExpr>) -> (r: bool)
    ensures
        r == has_semantic_filter(filters_view(fs@)),
{
    let mut i: usize = 0;
    while i < fs.len()
        invariant
            i <= fs@.len(),
            forall|j: int| 0 <= j < i ==> !(#[trigger] filters_view(fs@)[j] is Semantic),
        decreases fs@.len() - i,
    {
        if let FilterExpr::Semantic { .. } = &fs[i] {
            assert(filters_view(fs@)[i as int] is Semantic);
            return true;
        }
        i = i + 1;
    }
    false
}

impl LogicalPlanSummary {
    /// The shape of a plan.
    pub fn from_plan(plan: &LogicalPlan) -> (r: Self)
        ensures
            r.mode == plan.mode,
            r.source_kind == source_kind_of(plan.source@),
            r.filter_count == plan.filters@.len(),
            r.transform_count == plan.transforms@.len(),
            r.has_semantic_filter == has_semantic_filter(plan@.filters),
    {
        let source_kind = match plan.source {
            PlanSource::EntityScan { .. } => PlanSourceKind::EntityScan,
            PlanSource::Traversal { .. } => PlanSourceKind::Traversal,
        };
        let has_semantic = filters_have_semantic(&plan.filters);
        LogicalPlanSummary {
            mode: plan.mode,
            source_kind,
            filter_count: plan.filters.len(),
            transform_count: plan.transforms.len(),
            has_semantic_filter: has_semantic,
        }
    }
}

/// Planning keeps each predicate of the query's source in place and in
/// meaning: the filter at its position is, for a comparison, a comparison on
/// the same field and literal that asks the same of every field value; for a
/// range, a range on the same field whose start and end are the range's own
/// start and end; for a semantic predicate, the same query and threshold.
pub proof fn lemma_plan_keeps_predicates(a: QueryAstV, i: int)
    requires
        0 <= i < source_predicates(pipeline_source(a.root)).len(),
    ensures
        i < plan_of(a).filters.len(),
        match (source_predicates(pipeline_source(a.root))[i], plan_of(a).filters[i]) {
            (
                PredicateV::Field { field, op, value },
                FilterExprV::Field { field: f, op: o, value: w },
            ) => f == field && w == value && forall|x: int, v: int| #[trigger]
                o.compares(x, v) == op.compares(x, v),
            (
                PredicateV::Range { field, start, end },
                FilterExprV::Range { field: f, start: s, end: e },
            ) => f == field && s == start && e == end,
            (
                PredicateV::Semantic { query, threshold },
                FilterExprV::Semantic { query: q, threshold: t },
            ) => q == query && t == threshold,
            _ => false,
        },
{
}

} // verus!
