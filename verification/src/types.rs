//! Identifiers shared by every component.
use vstd::prelude::*;

verus! {

#[derive(Debug, Clone, Copy, PartialEq, Eq, Structural, Hash, PartialOrd, Ord)]
pub struct RecordId(pub u64);

#[derive(Debug, Clone, PartialEq, Eq, Hash)]
pub struct TenantId(pub String);

impl TenantId {
    /// A copy of this tenant id.
    pub fn duplicate(&self) -> (r: Self)
        ensures
            r == *self,
    {
        TenantId(self.0.clone())
    }

    /// Whether two tenant ids name the same tenant.
    pub fn same_as(&self, other: &TenantId) -> (r: bool)
        ensures
            r == (self.0@ == other.0@),
    {
        self.0 == other.0
    }
}

#[derive(Debug, Clone, PartialEq, Eq, Hash)]
pub struct EntityType(pub String);

#[derive(Debug, Clone, PartialEq, Eq)]
pub struct BlobRef {
    pub field: String,
    pub blob_id: String,
}

#[derive(Debug, Clone, PartialEq, Eq)]
pub struct EdgeRef {
    pub edge_type: String,
    pub target_record_id: RecordId,
}

} // verus!
