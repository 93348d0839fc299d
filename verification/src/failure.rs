//! What can go wrong while a pipeline runs.

use vstd::prelude::*;

verus! {

/// A failure of one round of the benchmark.
#[derive(Debug, Clone, PartialEq, Eq)]
pub enum Failure {
    /// The stage at `stage_index` could not be started.
    SpawnFailure { stage_index: usize, cause: String },
    /// Draining the final stage's output, or waiting for it, failed.
    CollectionFailure { cause: String },
    /// The captured output differs from the configured expectation.
    ExpectationMismatch { expected: String, actual: String },
}

/// The mathematical value of a [`Failure`].
pub enum FailureModel {
    SpawnFailure { stage_index: nat, cause: Seq<char> },
    CollectionFailure { cause: Seq<char> },
    ExpectationMismatch { expected: Seq<char>, actual: Seq<char> },
}

impl View for Failure {
    type V = FailureModel;

    open spec fn view(&self) -> FailureModel {
        match *self {
            Failure::SpawnFailure { stage_index, cause } => FailureModel::SpawnFailure {
                stage_index: stage_index as nat,
                cause: cause@,
            },
            Failure::CollectionFailure { cause } => FailureModel::CollectionFailure {
                cause: cause@,
            },
            Failure::ExpectationMismatch { expected, actual } => FailureModel::ExpectationMismatch {
                expected: expected@,
                actual: actual@,
            },
        }
    }
}

} // verus!
