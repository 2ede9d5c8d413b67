//! Query request vocabulary shared by the planner and the executors.
use vstd::prelude::*;

verus! {

#[derive(Debug, Clone, Copy, PartialEq, Eq, Structural)]
pub enum QueryOrderDirection {
    Asc,
    Desc,
}

#[derive(Debug, Clone, PartialEq, Eq)]
pub struct QueryOrderBy {
    pub field: String,
    pub direction: QueryOrderDirection,
}

pub ghost struct QueryOrderByV {
    pub field: Seq<char>,
    pub direction: QueryOrderDirection,
}

impl View for QueryOrderBy {
    type V = QueryOrderByV;

    open spec fn view(&self) -> QueryOrderByV {
        QueryOrderByV { field: self.field@, direction: self.direction }
    }
}

/// An inclusive range of space keys.
#[derive(Debug, Clone, Copy, PartialEq, Eq, Structural)]
pub struct KeyRange {
    pub min: u128,
    pub max: u128,
}

#[derive(Debug, Clone, PartialEq, Eq)]
pub struct AnnProbeHint {
    pub field: String,
    pub probe_factor: Option<u32>,
}

#[derive(Debug, Clone, PartialEq, Eq)]
pub struct CandidateGenerationHint {
    pub key_ranges: Vec<KeyRange>,
    pub ann_probe: Option<AnnProbeHint>,
}

#[derive(Debug, Clone, Copy, PartialEq, Eq, Structural)]
pub enum PredicateOp {
    Eq,
    Ne,
    Lt,
    Lte,
    Gt,
    Gte,
}

impl PredicateOp {
    /// Whether a record whose field value is `x` passes the predicate against `v`.
    pub open spec fn compares(self, x: int, v: int) -> bool {
        match self {
            PredicateOp::Eq => x == v,
            PredicateOp::Ne => x != v,
            PredicateOp::Lt => x < v,
            PredicateOp::Lte => x <= v,
            PredicateOp::Gt => x > v,
            PredicateOp::Gte => x >= v,
        }
    }
}

#[derive(Debug, Clone, Copy, PartialEq, Eq, Structural)]
pub enum StageType {
    CandidateGeneration,
    ScoringAndRanking,
    Hydration,
}

#[derive(Debug, Clone, Copy, PartialEq, Eq, Structural)]
pub struct StageTrace {
    pub stage: StageType,
    pub input_count: usize,
    pub output_count: usize,
    pub elapsed_micros: u128,
}

} // verus!
