use vstd::prelude::*;

verus! {

/// Failure taxonomy of the pipeline.
///
/// Fetch and ref-resolution failures (`NetworkError`, `RefNotFoundError`,
/// `AmbiguousRefError`) and branch-lifecycle inconsistencies come from the
/// version-control layer; `VersionResolutionError` and `ToolchainParseError`
/// come from the version resolver; the remaining variants report filesystem
/// and external-process failures observed while a run executes.
#[derive(Clone, Copy, Debug, PartialEq, Eq, Structural)]
pub enum PipelineError {
    NetworkError,
    RefNotFoundError,
    AmbiguousRefError,
    BranchExistsError,
    BranchNotFoundError,
    VersionResolutionError,
    ToolchainParseError,
    GraftIOError,
    BuildFailure,
    BenchmarkFailure,
    ArchiveIOError,
}

} // verus!
