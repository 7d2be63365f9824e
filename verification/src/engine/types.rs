//! What the ranking says of a model build.
use vstd::prelude::*;

verus! {

/// Where a model build runs.
#[derive(Debug, Clone, Copy, PartialEq, Eq, Structural)]
pub enum FitType {
    FullGpu,
    PartialOffload,
    CpuOnly,
}

/// How much the benchmark score of a ranked model can be trusted.
#[derive(Debug, Clone, Copy, PartialEq, Eq, Structural)]
pub enum ScoreMarker {
    /// No marker: the score is a direct measurement.
    Unmarked,
    Inferred,
    NoData,
    SelfReported,
}

} // verus!
