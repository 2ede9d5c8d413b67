//! How the dimensions of the space are named and sourced, and the similarity
//! policies of the n-dimensional space.
use vstd::prelude::*;

verus! {

#[derive(Debug, Clone, Copy, PartialEq, Eq, Structural)]
pub enum ProjectionPolicy {
    FirstN { index: usize },
}

#[derive(Debug, Clone, PartialEq, Eq)]
pub enum DimensionSource {
    StructuredField(String),
    EmbeddingProjection { field: String, projection: ProjectionPolicy },
    Derived(String),
}

#[derive(Debug, Clone, Copy, PartialEq, Eq, Structural)]
pub enum DimensionType {
    Numeric,
    CategoricalOrdinal,
    Temporal,
    ProjectedFloat,
}

#[derive(Debug, Clone, Copy, PartialEq, Eq, Structural)]
pub enum MissingValuePolicy {
    Zero,
    SkipRecord,
    Error,
}

#[derive(Debug, Clone, Copy, PartialEq, Eq, Structural)]
pub enum StructuredSimilarityPolicy {
    RelativeL1,
}

#[derive(Debug, Clone, Copy, PartialEq, Eq, Structural)]
pub enum SemanticSimilarityPolicy {
    CosineToUnitInterval,
}

#[derive(Debug, Clone, Copy, PartialEq, Eq, Structural)]
pub enum TopologySimilarityPolicy {
    WeightedJaccard,
}

} // verus!
