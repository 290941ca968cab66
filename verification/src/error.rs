use vstd::prelude::*;

verus! {

/// Why an analysis, or one averaging period of it, produced nothing.
#[derive(Clone, Copy, Debug, PartialEq, Eq, Structural)]
pub enum AnalysisError {
    /// There is no sample to analyse.
    EmptyInput,
    /// An averaging period asks for windows of zero samples.
    ClusterTooSmall,
    /// The samples fill fewer than two windows of the requested size.
    InsufficientClusters,
}

impl AnalysisError {
    /// Only `EmptyInput` ends the analysis of a recording. The other two
    /// concern a single averaging period, which is left out of the result.
    pub open spec fn fatal(self) -> bool {
        self == AnalysisError::EmptyInput
    }

    /// Whether this error ends the analysis of the whole recording.
    pub fn is_fatal(&self) -> (b: bool)
        ensures
            b == self.fatal(),
    {
        match self {
            AnalysisError::EmptyInput => true,
            AnalysisError::ClusterTooSmall => false,
            AnalysisError::InsufficientClusters => false,
        }
    }
}

} // verus!
