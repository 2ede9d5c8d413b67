//! Abstract syntax of the query language, with its mathematical value.
use vstd::prelude::*;

verus! {

#[derive(Debug, Clone, Copy, PartialEq, Eq, Structural)]
pub enum QueryMode {
    Once,
    Watch,
}

#[derive(Debug, Clone, Copy, PartialEq, Eq, Structural)]
pub enum TraversalDirection {
    Outbound,
    Inbound,
}

#[derive(Debug, Clone, Copy, PartialEq, Eq, Structural)]
pub enum PredicateOp {
    Eq,
    Ne,
    Lt,
    Lte,
    Gt,
    Gte,
}

impl PredicateOp {
    /// What the operator asks of a field value `x` against the literal `v`.
    pub open spec fn compares(self, x: int, v: int) -> bool {
        match self {
            PredicateOp::Eq => x == v,
            PredicateOp::Ne => x != v,
            PredicateOp::Lt => x < v,
            PredicateOp::Lte => x <= v,
            PredicateOp::Gt => x > v,
            PredicateOp::Gte => x >= v,
        }
    }
}

#[derive(Debug, Clone, Copy, PartialEq, Eq, Structural)]
pub enum SortDirection {
    Asc,
    Desc,
}

#[derive(Debug, Clone, Copy, PartialEq, Eq, Structural)]
pub enum AggregateOp {
    Count,
    Sum,
    Avg,
    Min,
    Max,
}

/// A numeric literal, kept exactly as written: decimal digits, optionally
/// followed by a point and more digits.
#[derive(Debug, Clone, PartialEq, Eq)]
pub struct NumberLiteral {
    pub text: String,
}

#[derive(Debug, Clone, PartialEq, Eq)]
pub enum Literal {
    String(String),
    Number(NumberLiteral),
    Bool(bool),
    Ident(String),
}

#[derive(Debug, Clone, PartialEq, Eq)]
pub struct OrderBy {
    pub field: String,
    pub direction: SortDirection,
}

#[derive(Debug, Clone, PartialEq, Eq)]
pub enum TraversalStep {
    EntityScan(String),
    EntityRef { entity: String, id: Literal },
}

#[derive(Debug, Clone, PartialEq, Eq)]
pub enum Predicate {
    Field { field: String, op: PredicateOp, value: Literal },
    Range { field: String, start: Literal, end: Literal },
    Semantic { query: String, threshold: Option<NumberLiteral> },
}

#[derive(Debug, PartialEq, Eq)]
pub enum QueryNode {
    EntityScan { entity: String, predicates: Vec<Predicate> },
    Traversal {
        steps: Vec<TraversalStep>,
        directions: Vec<TraversalDirection>,
        predicates: Vec<Predicate>,
    },
    TopK { k: u64, order_by: Option<OrderBy>, source: Box<QueryNode> },
    Sort { field: String, direction: SortDirection, source: Box<QueryNode> },
    Group { field: String, source: Box<QueryNode> },
    Aggregate { op: AggregateOp, field: Option<String>, source: Box<QueryNode> },
    Take { n: u64, source: Box<QueryNode> },
}

#[derive(Debug, PartialEq, Eq)]
pub struct QueryAst {
    pub mode: QueryMode,
    pub root: QueryNode,
}

// ----- mathematical values -----
pub ghost enum LiteralV {
    String(Seq<char>),
    Number(Seq<char>),
    Bool(bool),
    Ident(Seq<char>),
}

pub ghost struct OrderByV {
    pub field: Seq<char>,
    pub direction: SortDirection,
}

pub ghost enum TraversalStepV {
    EntityScan(Seq<char>),
    EntityRef { entity: Seq<char>, id: LiteralV },
}

pub ghost enum PredicateV {
    Field { field: Seq<char>, op: PredicateOp, value: LiteralV },
    Range { field: Seq<char>, start: LiteralV, end: LiteralV },
    Semantic { query: Seq<char>, threshold: Option<Seq<char>> },
}

pub ghost enum QueryNodeV {
    EntityScan { entity: Seq<char>, predicates: Seq<PredicateV> },
    Traversal {
        steps: Seq<TraversalStepV>,
        directions: Seq<TraversalDirection>,
        predicates: Seq<PredicateV>,
    },
    TopK { k: u64, order_by: Option<OrderByV>, source: Box<QueryNodeV> },
    Sort { field: Seq<char>, direction: SortDirection, source: Box<QueryNodeV> },
    Group { field: Seq<char>, source: Box<QueryNodeV> },
    Aggregate { op: AggregateOp, field: Option<Seq<char>>, source: Box<QueryNodeV> },
    Take { n: u64, source: Box<QueryNodeV> },
}

pub ghost struct QueryAstV {
    pub mode: QueryMode,
    pub root: QueryNodeV,
}

impl View for Literal {
    type V = LiteralV;

    open spec fn view(&self) -> LiteralV {
        match self {
            Literal::String(s) => LiteralV::String(s@),
            Literal::Number(n) => LiteralV::Number(n.text@),
            Literal::Bool(b) => LiteralV::Bool(*b),
            Literal::Ident(s) => LiteralV::Ident(s@),
        }
    }
}

impl View for OrderBy {
    type V = OrderByV;

    open spec fn view(&self) -> OrderByV {
        OrderByV { field: self.field@, direction: self.direction }
    }
}

impl View for TraversalStep {
    type V = TraversalStepV;

    open spec fn view(&self) -> TraversalStepV {
        match self {
            TraversalStep::EntityScan(e) => TraversalStepV::EntityScan(e@),
            TraversalStep::EntityRef { entity, id } => TraversalStepV::EntityRef {
                entity: entity@,
                id: id@,
            },
        }
    }
}

pub open spec fn optional_text(t: Option<String>) -> Option<Seq<char>> {
    match t {
        Some(s) => Some(s@),
        None => None,
    }
}

pub open spec fn optional_number(t: Option<NumberLiteral>) -> Option<Seq<char>> {
    match t {
        Some(n) => Some(n.text@),
        None => None,
    }
}

impl View for Predicate {
    type V = PredicateV;

    open spec fn view(&self) -> PredicateV {
        match self {
            Predicate::Field { field, op, value } => PredicateV::Field {
                field: field@,
                op: *op,
                value: value@,
            },
            Predicate::Range { field, start, end } => PredicateV::Range {
                field: field@,
                start: start@,
                end: end@,
            },
            Predicate::Semantic { query, threshold } => PredicateV::Semantic {
                query: query@,
                threshold: optional_number(*threshold),
            },
        }
    }
}

pub open spec fn predicates_view(ps: Seq<Predicate>) -> Seq<PredicateV> {
    ps.map_values(|p: Predicate| p@)
}

pub open spec fn steps_view(ss: Seq<TraversalStep>) -> Seq<TraversalStepV> {
    ss.map_values(|s: TraversalStep| s@)
}

impl QueryNode {
    pub open spec fn node_view(self) -> QueryNodeV
        decreases self,
    {
        match self {
            QueryNode::EntityScan { entity, predicates } => QueryNodeV::EntityScan {
                entity: entity@,
                predicates: predicates_view(predicates@),
            },
            QueryNode::Traversal { steps, directions, predicates } => QueryNodeV::Traversal {
                steps: steps_view(steps@),
                directions: directions@,
                predicates: predicates_view(predicates@),
            },
            QueryNode::TopK { k, order_by, source } => QueryNodeV::TopK {
                k,
                order_by: match order_by {
                    Some(o) => Some(o@),
                    None => None,
                },
                source: Box::new((*source).node_view()),
            },
            QueryNode::Sort { field, direction, source } => QueryNodeV::Sort {
                field: field@,
                direction,
                source: Box::new((*source).node_view()),
            },
            QueryNode::Group { field, source } => QueryNodeV::Group {
                field: field@,
                source: Box::new((*source).node_view()),
            },
            QueryNode::Aggregate { op, field, source } => QueryNodeV::Aggregate {
                op,
                field: optional_text(field),
                source: Box::new((*source).node_view()),
            },
            QueryNode::Take { n, source } => QueryNodeV::Take {
                n,
                source: Box::new((*source).node_view()),
            },
        }
    }
}

impl View for QueryNode {
    type V = QueryNodeV;

    open spec fn view(&self) -> QueryNodeV {
        self.node_view()
    }
}

impl View for QueryAst {
    type V = QueryAstV;

    open spec fn view(&self) -> QueryAstV {
        QueryAstV { mode: self.mode, root: self.root@ }
    }
}

/// Name of the kind of a query node.
pub open spec fn node_kind_name(n: QueryNodeV) -> Seq<char> {
    match n {
        QueryNodeV::EntityScan { .. } => "EntityScan"@,
        QueryNodeV::Traversal { .. } => "Traversal"@,
        QueryNodeV::TopK { .. } => "TopK"@,
        QueryNodeV::Sort { .. } => "Sort"@,
        QueryNodeV::Group { .. } => "Group"@,
        QueryNodeV::Aggregate { .. } => "Aggregate"@,
        QueryNodeV::Take { .. } => "Take"@,
    }
}

pub open spec fn mode_text(m: QueryMode) -> Seq<char> {
    match m {
        QueryMode::Once => "once"@,
        QueryMode::Watch => "watch"@,
    }
}

/// The number of predicates of the source under a chain of transforms.
pub open spec fn node_predicate_count(n: QueryNodeV) -> nat
    decreases n,
{
    match n {
        QueryNodeV::EntityScan { predicates, .. } => predicates.len(),
        QueryNodeV::Traversal { predicates, .. } => predicates.len(),
        QueryNodeV::TopK { source, .. } => node_predicate_count(*source),
        QueryNodeV::Sort { source, .. } => node_predicate_count(*source),
        QueryNodeV::Group { source, .. } => node_predicate_count(*source),
        QueryNodeV::Aggregate { source, .. } => node_predicate_count(*source),
        QueryNodeV::Take { source, .. } => node_predicate_count(*source),
    }
}

pub open spec fn has_semantic(ps: Seq<PredicateV>) -> bool {
    exists|i: int| 0 <= i < ps.len() && #[trigger] ps[i] is Semantic
}

/// Whether the source under a chain of transforms has a semantic predicate.
pub open spec fn node_has_semantic(n: QueryNodeV) -> bool
    decreases n,
{
    match n {
        QueryNodeV::EntityScan { predicates, .. } => has_semantic(predicates),
        QueryNodeV::Traversal { predicates, .. } => has_semantic(predicates),
        QueryNodeV::TopK { source, .. } => node_has_semantic(*source),
        QueryNodeV::Sort { source, .. } => node_has_semantic(*source),
        QueryNodeV::Group { source, .. } => node_has_semantic(*source),
        QueryNodeV::Aggregate { source, .. } => node_has_semantic(*source),
        QueryNodeV::Take { source, .. } => node_has_semantic(*source),
    }
}

/// The number of hops of the traversal under a chain of transforms, if the
/// source is a traversal.
pub open spec fn node_hops(n: QueryNodeV) -> Option<nat>
    decreases n,
{
    match n {
        QueryNodeV::EntityScan { .. } => None,
        QueryNodeV::Traversal { directions, .. } => Some(directions.len()),
        QueryNodeV::TopK { source, .. } => node_hops(*source),
        QueryNodeV::Sort { source, .. } => node_hops(*source),
        QueryNodeV::Group { source, .. } => node_hops(*source),
        QueryNodeV::Aggregate { source, .. } => node_hops(*source),
        QueryNodeV::Take { source, .. } => node_hops(*source),
    }
}

fn predicates_have_semantic(ps: &Vec<Predicate>) -> (r: bool)
    ensures
        r == has_semantic(predicates_view(ps@)),
{
    let mut i: usize = 0;
    while i < ps.len()
        invariant
            i <= ps@.len(),
            forall|j: int| 0 <= j < i ==> !(#[trigger] predicates_view(ps@)[j] is Semantic),
        decreases ps@.len() - i,
    {
        if let Predicate::Semantic { .. } = &ps[i] {
            assert(predicates_view(ps@)[i as int] is Semantic);
            return true;
        }
        i = i + 1;
    }
    false
}

impl QueryNode {
    fn predicate_count(&self) -> (r: usize)
        ensures
            r == node_predicate_count(self@),
        decreases self,
    {
        match self {
            QueryNode::EntityScan { predicates, .. } => predicates.len(),
            QueryNode::Traversal { predicates, .. } => predicates.len(),
            QueryNode::TopK { source, .. } => source.predicate_count(),
            QueryNode::Sort { source, .. } => source.predicate_count(),
            QueryNode::Group { source, .. } => source.predicate_count(),
            QueryNode::Aggregate { source, .. } => source.predicate_count(),
            QueryNode::Take { source, .. } => source.predicate_count(),
        }
    }

    fn has_semantic_predicate(&self) -> (r: bool)
        ensures
            r == node_has_semantic(self@),
        decreases self,
    {
        match self {
            QueryNode::EntityScan { predicates, .. } => predicates_have_semantic(predicates),
            QueryNode::Traversal { predicates, .. } => predicates_have_semantic(predicates),
            QueryNode::TopK { source, .. } => source.has_semantic_predicate(),
            QueryNode::Sort { source, .. } => source.has_semantic_predicate(),
            QueryNode::Group { source, .. } => source.has_semantic_predicate(),
            QueryNode::Aggregate { source, .. } => source.has_semantic_predicate(),
            QueryNode::Take { source, .. } => source.has_semantic_predicate(),
        }
    }

    fn traversal_hops(&self) -> (r: Option<usize>)
        ensures
            match (r, node_hops(self@)) {
                (Some(a), Some(b)) => a == b,
                (None, None) => true,
                _ => false,
            },
        decreases self,
    {
        match self {
            QueryNode::EntityScan { .. } => None,
            QueryNode::Traversal { directions, .. } => Some(directions.len()),
            QueryNode::TopK { source, .. } => source.traversal_hops(),
            QueryNode::Sort { source, .. } => source.traversal_hops(),
            QueryNode::Group { source, .. } => source.traversal_hops(),
            QueryNode::Aggregate { source, .. } => source.traversal_hops(),
            QueryNode::Take { source, .. } => source.traversal_hops(),
        }
    }
}

impl QueryAst {
    /// The kind of the outermost node.
    pub fn root_name(&self) -> (r: &'static str)
        ensures
            r@ == node_kind_name(self.root@),
    {
        match self.root {
            QueryNode::EntityScan { .. } => "EntityScan",
            QueryNode::Traversal { .. } => "Traversal",
            QueryNode::TopK { .. } => "TopK",
            QueryNode::Sort { .. } => "Sort",
            QueryNode::Group { .. } => "Group",
            QueryNode::Aggregate { .. } => "Aggregate",
            QueryNode::Take { .. } => "Take",
        }
    }

    pub fn mode_name(&self) -> (r: &'static str)
        ensures
            r@ == mode_text(self.mode),
    {
        match self.mode {
            QueryMode::Once => "once",
            QueryMode::Watch => "watch",
        }
    }

    pub fn predicate_count(&self) -> (r: usize)
        ensures
            r == node_predicate_count(self.root@),
    {
        self.root.predicate_count()
    }

    pub fn has_semantic_predicate(&self) -> (r: bool)
        ensures
            r == node_has_semantic(self.root@),
    {
        self.root.has_semantic_predicate()
    }

    pub fn traversal_hops(&self) -> (r: Option<usize>)
        ensures
            match (r, node_hops(self.root@)) {
                (Some(a), Some(b)) => a == b,
                (None, None) => true,
                _ => false,
            },
    {
        self.root.traversal_hops()
    }
}

} // verus!
