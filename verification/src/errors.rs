//! Errors a library caller can receive from the checked entry points.

use vstd::prelude::*;

verus! {

/// What went wrong with a checked solver operation.
#[derive(Clone, Copy, Debug, PartialEq, Eq, Structural)]
pub enum SolverError {
    /// A word was not exactly five lowercase ASCII letters.
    InvalidWord,
    /// A feedback token was not exactly five characters drawn from `G`, `Y`, `B`.
    InvalidPattern,
    /// Elimination left no candidate: the observed feedback contradicts the
    /// dictionary or earlier feedback.
    NoConsistentCandidates,
    /// The allowed-guess list was empty.
    EmptyDictionary,
}

} // verus!
