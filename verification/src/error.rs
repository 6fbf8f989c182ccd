//! Errors surfaced by the analysis.

use vstd::prelude::*;

verus! {

/// What can go wrong during boundary construction or selectivity analysis.
/// Every error is surfaced to the caller at once; nothing is retried or
/// swallowed.
#[derive(Clone, Copy, Debug, PartialEq, Eq)]
pub enum AnalysisError {
    /// A value-level type problem: interval bounds of incomparable types, or
    /// bounds whose cardinality cannot be told, met while computing a
    /// cardinality ratio.
    TypeConversion,
    /// The propagation graph under investigation has no node for the
    /// predicate's own root expression. This signals a defect in graph
    /// construction, never an input problem, and is kept loudly distinct
    /// from ordinary validation failures.
    InternalConsistency,
}

impl AnalysisError {
    /// A short description of the error, for callers that report it.
    pub fn message(&self) -> &'static str {
        match self {
            AnalysisError::TypeConversion => "interval bounds cannot be compared or counted",
            AnalysisError::InternalConsistency => "the interval graph under investigation does not have any nodes",
        }
    }
}

} // verus!
