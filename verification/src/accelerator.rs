//! The contract of the accelerator backend stub: which kernel envelopes it
//! accepts and how it refuses the operations it does not offer.
use vstd::prelude::*;

use crate::errors::CoreError;
use crate::text::{concat_decimal, concat_str, decimal};
use crate::types::{RecordId, TenantId};

verus! {

pub const SUPPORTED_ENVELOPE_VERSION: u16 = 1;

#[derive(Debug, Clone, Copy, PartialEq, Eq, Structural)]
pub enum KernelOperation {
    CandidateScan,
    ScoreAndRank,
    Hydrate,
}

/// A request to a kernel; the payload is handed through as it is.
#[derive(Debug, Clone, PartialEq)]
pub struct KernelInputEnvelope {
    pub version: u16,
    pub operation: KernelOperation,
    pub tenant_id: TenantId,
    pub payload: serde_json::Value,
}

/// The text of the error for an envelope of another version.
pub open spec fn version_error_text(version: u16) -> Seq<char> {
    "unsupported kernel envelope version "@ + decimal(version as nat) + ", expected "@ + decimal(
        SUPPORTED_ENVELOPE_VERSION as nat,
    )
}

/// The stub of the accelerator backend: it only answers score-and-rank
/// requests, leaving hydration to the host.
#[derive(Debug, Default)]
pub struct CerebrasStubBackend;

impl CerebrasStubBackend {
    pub fn new() -> (r: Self) {
        CerebrasStubBackend
    }

    /// The error for an operation the stub does not offer.
    pub fn unsupported(op: &str) -> (r: CoreError)
        ensures
            r is Storage,
            r->Storage_0@ == "cerebras stub backend does not support operation: "@ + op@,
    {
        CoreError::Storage(concat_str("cerebras stub backend does not support operation: ", op))
    }

    /// Only envelopes of the supported version are accepted.
    pub fn validate_envelope(&self, envelope: &KernelInputEnvelope) -> (r: Result<(), CoreError>)
        ensures
            r is Ok <==> envelope.version == SUPPORTED_ENVELOPE_VERSION,
            r matches Err(e) ==> e is Storage && e->Storage_0@ == version_error_text(envelope.version),
    {
        if envelope.version != SUPPORTED_ENVELOPE_VERSION {
            let mut m = concat_decimal("unsupported kernel envelope version ", envelope.version as u64);
            m.append(", expected ");
            let expected = concat_decimal("", SUPPORTED_ENVELOPE_VERSION as u64);
            m.append(expected.as_str());
            proof {
                reveal_strlit("");
            }
            return Err(CoreError::Storage(m));
        }
        Ok(())
    }

    /// What the stub does with an operation: score-and-rank is answered with
    /// no candidates and hydration left to the host; the others are refused.
    pub fn dispatch_operation(&self, envelope: &KernelInputEnvelope) -> (r: Result<
        KernelOperation,
        CoreError,
    >)
        ensures
            envelope.version != SUPPORTED_ENVELOPE_VERSION ==> (r matches Err(e) && e is Storage
                && e->Storage_0@ == version_error_text(envelope.version)),
            envelope.version == SUPPORTED_ENVELOPE_VERSION ==> match envelope.operation {
                KernelOperation::ScoreAndRank => r == Ok::<KernelOperation, CoreError>(
                    KernelOperation::ScoreAndRank,
                ),
                KernelOperation::CandidateScan => r matches Err(e) && e is Storage
                    && e->Storage_0@ == "cerebras stub backend does not support operation: "@
                    + "CandidateScan"@,
                KernelOperation::Hydrate => r matches Err(e) && e is Storage && e->Storage_0@
                    == "cerebras stub backend does not support operation: "@ + "Hydrate"@,
            },
    {
        match self.validate_envelope(envelope) {
            Ok(_) => {},
            Err(e) => {
                return Err(e);
            },
        }
        match envelope.operation {
            KernelOperation::ScoreAndRank => Ok(KernelOperation::ScoreAndRank),
            KernelOperation::CandidateScan => Err(Self::unsupported("CandidateScan")),
            KernelOperation::Hydrate => Err(Self::unsupported("Hydrate")),
        }
    }
}

/// Why an accelerator's ranking does not conform to the CPU's.
#[derive(Debug, Clone, Copy, PartialEq, Eq, Structural)]
pub enum ConformanceMismatch {
    /// The two rankings have different lengths.
    RowCount { cpu: usize, accel: usize },
    /// At some row the two rankings name different records.
    RecordId { cpu: u64, accel: u64 },
    /// At row `index` the scores differ by more than the tolerance.
    Score { index: usize },
}

/// The first row at or after `i` where the rankings disagree: another record,
/// or scores apart by more than the tolerance.
pub open spec fn first_disagreement_from(
    cpu: Seq<RecordId>,
    accel: Seq<u64>,
    scores_agree: Seq<bool>,
    i: int,
) -> Option<int>
    decreases cpu.len() - i,
{
    if i < 0 || i >= cpu.len() {
        None
    } else if cpu[i].0 != accel[i] || !scores_agree[i] {
        Some(i)
    } else {
        first_disagreement_from(cpu, accel, scores_agree, i + 1)
    }
}

/// Checks an accelerator's ranking against the CPU's, row by row: the same
/// number of rows, then at each row the same record and (as `scores_agree`
/// says) a score within tolerance. The first failing row decides.
pub fn check_conformance(cpu: &[RecordId], accel: &[u64], scores_agree: &[bool]) -> (r: Result<
    (),
    ConformanceMismatch,
>)
    requires
        cpu.len() == accel.len() ==> scores_agree.len() == cpu.len(),
    ensures
        cpu.len() != accel.len() ==> r == Err::<(), ConformanceMismatch>(
            ConformanceMismatch::RowCount { cpu: cpu.len(), accel: accel.len() },
        ),
        cpu.len() == accel.len() ==> match first_disagreement_from(cpu@, accel@, scores_agree@, 0) {
            None => r == Ok::<(), ConformanceMismatch>(()),
            Some(i) => r == Err::<(), ConformanceMismatch>(
                if cpu@[i].0 != accel@[i] {
                    ConformanceMismatch::RecordId { cpu: cpu@[i].0, accel: accel@[i] }
                } else {
                    ConformanceMismatch::Score { index: i as usize }
                },
            ),
        },
{
    if cpu.len() != accel.len() {
        return Err(ConformanceMismatch::RowCount { cpu: cpu.len(), accel: accel.len() });
    }
    let mut i: usize = 0;
    while i < cpu.len()
        invariant
            cpu.len() == accel.len(),
            scores_agree.len() == cpu.len(),
            i <= cpu.len(),
            first_disagreement_from(cpu@, accel@, scores_agree@, i as int)
                == first_disagreement_from(cpu@, accel@, scores_agree@, 0),
        decreases cpu.len() - i,
    {
        if cpu[i].0 != accel[i] {
            return Err(ConformanceMismatch::RecordId { cpu: cpu[i].0, accel: accel[i] });
        }
        if !scores_agree[i] {
            return Err(ConformanceMismatch::Score { index: i });
        }
        i = i + 1;
    }
    Ok(())
}

} // verus!
