//! Page metadata and split/merge thresholds.
use vstd::prelude::*;

use crate::types::TenantId;

verus! {

#[derive(Debug, Clone, PartialEq, Eq)]
pub struct PageMetadata {
    pub page_id: u64,
    pub tenant_id: TenantId,
    pub key_min: u128,
    pub key_max: u128,
    pub record_count: u32,
    pub version: u64,
}

#[derive(Debug, Clone, Copy, PartialEq, Eq, Structural)]
pub struct PageConfig {
    pub max_records_per_page: u32,
    pub min_records_for_merge: u32,
}

impl Default for PageConfig {
    fn default() -> (r: Self)
        ensures
            r == (PageConfig { max_records_per_page: 1024, min_records_for_merge: 128 }),
    {
        Self { max_records_per_page: 1024, min_records_for_merge: 128 }
    }
}

impl PageMetadata {
    pub fn should_split(&self, config: &PageConfig) -> (r: bool)
        ensures
            r == (self.record_count > config.max_records_per_page),
    {
        self.record_count > config.max_records_per_page
    }

    pub fn merge_eligible(&self, config: &PageConfig) -> (r: bool)
        ensures
            r == (self.record_count < config.min_records_for_merge),
    {
        self.record_count < config.min_records_for_merge
    }
}

} // verus!
