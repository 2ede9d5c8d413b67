//! Errors reported by the core engine.
use vstd::prelude::*;

use crate::text::concat_str;

verus! {

#[derive(Debug, Clone, PartialEq, Eq)]
pub enum CoreError {
    MissingField(String),
    InvalidFieldType { field: String, expected: &'static str },
    MissingEmbedding(String),
    InvalidDimension(String),
    Normalization(String),
    TenantMismatch,
    Storage(String),
    Serialization(String),
    QueryPlanning(String),
    AuthorizationDenied(String),
}

pub type CoreResult<T> = Result<T, CoreError>;

impl CoreError {
    /// The human-readable text of the error.
    pub open spec fn text(self) -> Seq<char> {
        match self {
            CoreError::MissingField(s) => "missing field: "@ + s@,
            CoreError::InvalidFieldType { field, expected } => "invalid field type for "@ + field@
                + ": expected "@ + expected@,
            CoreError::MissingEmbedding(s) => "missing embedding field: "@ + s@,
            CoreError::InvalidDimension(s) => "invalid dimension definition: "@ + s@,
            CoreError::Normalization(s) => "normalization error: "@ + s@,
            CoreError::TenantMismatch => "tenant mismatch in operation"@,
            CoreError::Storage(s) => "storage error: "@ + s@,
            CoreError::Serialization(s) => "serialization error: "@ + s@,
            CoreError::QueryPlanning(s) => "query planning error: "@ + s@,
            CoreError::AuthorizationDenied(s) => "authorization denied: "@ + s@,
        }
    }

    /// Renders the error as text.
    pub fn message(&self) -> (r: String)
        ensures
            r@ == self.text(),
    {
        match self {
            CoreError::MissingField(s) => concat_str("missing field: ", s.as_str()),
            CoreError::InvalidFieldType { field, expected } => {
                let mut r = concat_str("invalid field type for ", field.as_str());
                r.append(": expected ");
                r.append(expected);
                r
            },
            CoreError::MissingEmbedding(s) => concat_str("missing embedding field: ", s.as_str()),
            CoreError::InvalidDimension(s) => concat_str(
                "invalid dimension definition: ",
                s.as_str(),
            ),
            CoreError::Normalization(s) => concat_str("normalization error: ", s.as_str()),
            CoreError::TenantMismatch => String::from_str("tenant mismatch in operation"),
            CoreError::Storage(s) => concat_str("storage error: ", s.as_str()),
            CoreError::Serialization(s) => concat_str("serialization error: ", s.as_str()),
            CoreError::QueryPlanning(s) => concat_str("query planning error: ", s.as_str()),
            CoreError::AuthorizationDenied(s) => concat_str("authorization denied: ", s.as_str()),
        }
    }
}

} // verus!
