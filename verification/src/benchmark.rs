//! Synthetic benchmark corpus descriptions.
use vstd::prelude::*;

use crate::text::{concat_decimal, decimal};

verus! {

#[derive(Debug, Clone, Copy, PartialEq, Eq, Structural)]
pub enum WorkloadClass {
    ReadHeavy,
    WriteHeavy,
    Mixed,
}

#[derive(Debug, Clone, Copy, PartialEq, Eq, Structural)]
pub enum WorkloadOperation {
    Insert,
    Update,
    Delete,
    StructuredQuery,
    HybridQuery,
    PointLookup,
}

#[derive(Debug, Clone, PartialEq, Eq)]
pub struct BenchmarkCorpusSpec {
    pub name: String,
    pub entities: Vec<String>,
    pub total_records: u64,
    pub vector_dimension: usize,
    pub tenants: u32,
    pub workload_class: WorkloadClass,
    pub operation_mix: Vec<(WorkloadOperation, u8)>,
}

/// Sum of the weights of an operation mix.
pub open spec fn weight_total(mix: Seq<(WorkloadOperation, u8)>) -> int
    decreases mix.len(),
{
    if mix.len() == 0 {
        0
    } else {
        weight_total(mix.drop_last()) + mix.last().1
    }
}

/// Outcome of validating a corpus description: the first rule it breaks.
pub open spec fn corpus_check(spec: BenchmarkCorpusSpec) -> Result<(), Seq<char>> {
    if spec.total_records == 0 {
        Err("total_records must be > 0"@)
    } else if spec.vector_dimension == 0 {
        Err("vector_dimension must be > 0"@)
    } else if spec.tenants == 0 {
        Err("tenants must be > 0"@)
    } else if weight_total(spec.operation_mix@) != 100 {
        Err("operation mix must sum to 100, got "@ + decimal(weight_total(spec.operation_mix@) as nat))
    } else {
        Ok(())
    }
}

impl BenchmarkCorpusSpec {
    pub fn v0_default() -> (r: Self)
        ensures
            r.name@ == "idb-v0-synthetic"@,
            r.entities@.len() == 3,
            r.entities@[0]@ == "Product"@,
            r.entities@[1]@ == "Order"@,
            r.entities@[2]@ == "Customer"@,
            r.total_records == 1_000_000,
            r.vector_dimension == 384,
            r.tenants == 100,
            r.workload_class == WorkloadClass::Mixed,
            r.operation_mix@ == seq![
                (WorkloadOperation::Insert, 15u8),
                (WorkloadOperation::Update, 10u8),
                (WorkloadOperation::Delete, 5u8),
                (WorkloadOperation::StructuredQuery, 30u8),
                (WorkloadOperation::HybridQuery, 35u8),
                (WorkloadOperation::PointLookup, 5u8),
            ],
    {
        let mut entities: Vec<String> = Vec::new();
        entities.push(String::from_str("Product"));
        entities.push(String::from_str("Order"));
        entities.push(String::from_str("Customer"));
        let mut operation_mix: Vec<(WorkloadOperation, u8)> = Vec::new();
        operation_mix.push((WorkloadOperation::Insert, 15));
        operation_mix.push((WorkloadOperation::Update, 10));
        operation_mix.push((WorkloadOperation::Delete, 5));
        operation_mix.push((WorkloadOperation::StructuredQuery, 30));
        operation_mix.push((WorkloadOperation::HybridQuery, 35));
        operation_mix.push((WorkloadOperation::PointLookup, 5));
        assert(operation_mix@ =~= seq![
            (WorkloadOperation::Insert, 15u8),
            (WorkloadOperation::Update, 10u8),
            (WorkloadOperation::Delete, 5u8),
            (WorkloadOperation::StructuredQuery, 30u8),
            (WorkloadOperation::HybridQuery, 35u8),
            (WorkloadOperation::PointLookup, 5u8),
        ]);
        Self {
            name: String::from_str("idb-v0-synthetic"),
            entities,
            total_records: 1_000_000,
            vector_dimension: 384,
            tenants: 100,
            workload_class: WorkloadClass::Mixed,
            operation_mix,
        }
    }

    pub fn validate(&self) -> (r: Result<(), String>)
        requires
            weight_total(self.operation_mix@) <= u32::MAX,
        ensures
            match (r, corpus_check(*self)) {
                (Ok(()), Ok(())) => true,
                (Err(m), Err(t)) => m@ == t,
                _ => false,
            },
    {
        if self.total_records == 0 {
            return Err(String::from_str("total_records must be > 0"));
        }
        if self.vector_dimension == 0 {
            return Err(String::from_str("vector_dimension must be > 0"));
        }
        if self.tenants == 0 {
            return Err(String::from_str("tenants must be > 0"));
        }

        let mut weight_sum: u32 = 0;
        let n = self.operation_mix.len();
        for i in 0..n
            invariant
                n == self.operation_mix@.len(),
                weight_total(self.operation_mix@) <= u32::MAX,
                weight_sum == weight_total(self.operation_mix@.subrange(0, i as int)),
        {
            proof {
                lemma_weight_total_prefix_monotone(self.operation_mix@, i + 1);
                assert(self.operation_mix@.subrange(0, i + 1).drop_last() =~= self.operation_mix@.subrange(
                    0,
                    i as int,
                ));
            }
            weight_sum = weight_sum + self.operation_mix[i].1 as u32;
        }
        assert(self.operation_mix@.subrange(0, n as int) =~= self.operation_mix@);
        if weight_sum != 100 {
            return Err(concat_decimal("operation mix must sum to 100, got ", weight_sum as u64));
        }
        Ok(())
    }
}

/// The weights of a prefix never exceed the weights of the whole mix.
proof fn lemma_weight_total_prefix_monotone(mix: Seq<(WorkloadOperation, u8)>, k: int)
    requires
        0 <= k <= mix.len(),
    ensures
        weight_total(mix.subrange(0, k)) <= weight_total(mix),
    decreases mix.len(),
{
    if k < mix.len() {
        lemma_weight_total_prefix_monotone(mix.drop_last(), k);
        assert(mix.drop_last().subrange(0, k) =~= mix.subrange(0, k));
    } else {
        assert(mix.subrange(0, k) =~= mix);
    }
}

} // verus!
