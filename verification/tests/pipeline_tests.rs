use pr_bench::errors::PipelineError;
use pr_bench::pipeline::Action;
use pr_bench::pipeline::PipelineState;
use pr_bench::pipeline::Stage;
use pr_bench::pipeline::StageOutcome;
use pr_bench::pipeline::advance;
use pr_bench::tree::HeadRef;
use pr_bench::tree::WorkingTree;

fn fresh_run(master: bool) -> (PipelineState, WorkingTree, WorkingTree) {
    (
        PipelineState::start(master),
        WorkingTree::new_baseline(),
        WorkingTree::new_baseline(),
    )
}

#[test]
fn a_successful_run_walks_all_stages_and_returns_to_idle() {
    let (mut s, mut up, mut tool) = fresh_run(false);
    assert_eq!(s.current_action(), Action::FetchChange);
    advance(&mut s, &mut up, &mut tool, StageOutcome::Success, 0);
    assert_eq!(s.current_action(), Action::ResolveTarget);
    advance(&mut s, &mut up, &mut tool, StageOutcome::Success, 0);
    assert_eq!(up.head, HeadRef::Target);
    assert_eq!(s.current_action(), Action::GraftChange);
    advance(&mut s, &mut up, &mut tool, StageOutcome::Success, 7);
    assert_eq!(up.head, HeadRef::Integration);
    assert!(up.has_integration_branch);
    assert!(up.dirty);
    assert_eq!(up.untracked, 7);
    assert_eq!(s.current_action(), Action::RunBuild);
    advance(&mut s, &mut up, &mut tool, StageOutcome::Success, 0);
    assert_eq!(s.current_action(), Action::RunBenchmark);
    advance(&mut s, &mut up, &mut tool, StageOutcome::Success, 0);
    assert_eq!(s.current_action(), Action::ArchiveResults);
    advance(&mut s, &mut up, &mut tool, StageOutcome::Success, 0);
    assert_eq!(s.current_action(), Action::RunCleanup);
    advance(&mut s, &mut up, &mut tool, StageOutcome::Success, 0);
    // Both trees are back on their baseline branch with zero untracked
    // paths and no integration branch.
    assert_eq!(s.stage, Stage::Idle);
    assert_eq!(up, WorkingTree::new_baseline());
    assert_eq!(tool, WorkingTree::new_baseline());
    assert_eq!(s.failure, None);
}

#[test]
fn a_build_failure_skips_benchmarking_and_still_cleans_up() {
    let (mut s, mut up, mut tool) = fresh_run(false);
    advance(&mut s, &mut up, &mut tool, StageOutcome::Success, 0); // fetched
    advance(&mut s, &mut up, &mut tool, StageOutcome::Success, 0); // resolved
    advance(&mut s, &mut up, &mut tool, StageOutcome::Success, 3); // grafted
    assert_eq!(s.stage, Stage::Building);
    advance(
        &mut s,
        &mut up,
        &mut tool,
        StageOutcome::Failure(PipelineError::BuildFailure),
        0,
    );
    // The benchmark stage is never entered: the machine goes straight to
    // cleanup, reporting the build failure.
    assert_eq!(s.stage, Stage::CleaningUp);
    assert_eq!(s.current_action(), Action::RunCleanup);
    assert_eq!(s.failure, Some(PipelineError::BuildFailure));
    assert_eq!(s.benchmark_error, None);
    advance(&mut s, &mut up, &mut tool, StageOutcome::Success, 0);
    assert_eq!(s.stage, Stage::Idle);
    assert_eq!(up, WorkingTree::new_baseline());
    assert_eq!(tool, WorkingTree::new_baseline());
    assert_eq!(s.failure, Some(PipelineError::BuildFailure));
}

#[test]
fn a_fetch_failure_aborts_before_any_tree_mutation() {
    let (mut s, mut up, mut tool) = fresh_run(false);
    advance(
        &mut s,
        &mut up,
        &mut tool,
        StageOutcome::Failure(PipelineError::NetworkError),
        0,
    );
    assert_eq!(s.stage, Stage::CleaningUp);
    assert_eq!(s.failure, Some(PipelineError::NetworkError));
    assert_eq!(up, WorkingTree::new_baseline());
    assert_eq!(tool, WorkingTree::new_baseline());
}

#[test]
fn resolution_and_graft_failures_are_recorded_as_reported() {
    let (mut s, mut up, mut tool) = fresh_run(false);
    advance(&mut s, &mut up, &mut tool, StageOutcome::Success, 0);
    advance(
        &mut s,
        &mut up,
        &mut tool,
        StageOutcome::Failure(PipelineError::VersionResolutionError),
        0,
    );
    assert_eq!(s.failure, Some(PipelineError::VersionResolutionError));

    let (mut s2, mut up2, mut tool2) = fresh_run(false);
    advance(&mut s2, &mut up2, &mut tool2, StageOutcome::Success, 0);
    advance(&mut s2, &mut up2, &mut tool2, StageOutcome::Success, 0);
    advance(
        &mut s2,
        &mut up2,
        &mut tool2,
        StageOutcome::Failure(PipelineError::GraftIOError),
        0,
    );
    assert_eq!(s2.failure, Some(PipelineError::GraftIOError));
    assert_eq!(s2.stage, Stage::CleaningUp);
}

#[test]
fn ref_errors_reported_by_the_shell_pass_through() {
    let (mut s, mut up, mut tool) = fresh_run(false);
    advance(
        &mut s,
        &mut up,
        &mut tool,
        StageOutcome::Failure(PipelineError::RefNotFoundError),
        0,
    );
    assert_eq!(s.failure, Some(PipelineError::RefNotFoundError));

    let (mut s2, mut up2, mut tool2) = fresh_run(false);
    advance(
        &mut s2,
        &mut up2,
        &mut tool2,
        StageOutcome::Failure(PipelineError::AmbiguousRefError),
        0,
    );
    assert_eq!(s2.failure, Some(PipelineError::AmbiguousRefError));
}

#[test]
fn a_benchmark_failure_is_reported_but_does_not_stop_the_run() {
    let (mut s, mut up, mut tool) = fresh_run(false);
    for _ in 0..4 {
        advance(&mut s, &mut up, &mut tool, StageOutcome::Success, 0);
    }
    assert_eq!(s.stage, Stage::Benchmarking);
    advance(
        &mut s,
        &mut up,
        &mut tool,
        StageOutcome::Failure(PipelineError::BenchmarkFailure),
        0,
    );
    // Partial benchmark data is preserved: the run still archives and
    // cleans up, with no fatal error.
    assert_eq!(s.stage, Stage::Archiving);
    assert_eq!(s.benchmark_error, Some(PipelineError::BenchmarkFailure));
    assert_eq!(s.failure, None);
    advance(&mut s, &mut up, &mut tool, StageOutcome::Success, 0);
    advance(&mut s, &mut up, &mut tool, StageOutcome::Success, 0);
    assert_eq!(s.stage, Stage::Idle);
    assert_eq!(s.failure, None);
}

#[test]
fn a_missing_result_file_is_a_recoverable_archive_error() {
    let (mut s, mut up, mut tool) = fresh_run(false);
    for _ in 0..5 {
        advance(&mut s, &mut up, &mut tool, StageOutcome::Success, 0);
    }
    assert_eq!(s.stage, Stage::Archiving);
    advance(
        &mut s,
        &mut up,
        &mut tool,
        StageOutcome::Failure(PipelineError::ArchiveIOError),
        0,
    );
    assert_eq!(s.stage, Stage::CleaningUp);
    assert_eq!(s.archive_error, Some(PipelineError::ArchiveIOError));
    assert_eq!(s.failure, None);
}

#[test]
fn a_master_comparison_run_builds_and_benchmarks_twice() {
    let (mut s, mut up, mut tool) = fresh_run(true);
    for _ in 0..4 {
        advance(&mut s, &mut up, &mut tool, StageOutcome::Success, 0);
    }
    assert_eq!(s.stage, Stage::Benchmarking);
    assert!(!s.baseline_round);
    advance(&mut s, &mut up, &mut tool, StageOutcome::Success, 0);
    // After the change's benchmark, the machine re-enters the build stage
    // for the baseline comparison.
    assert_eq!(s.stage, Stage::Building);
    assert!(s.baseline_round);
    advance(&mut s, &mut up, &mut tool, StageOutcome::Success, 0);
    assert_eq!(s.stage, Stage::Benchmarking);
    advance(&mut s, &mut up, &mut tool, StageOutcome::Success, 0);
    assert_eq!(s.stage, Stage::Archiving);
    advance(&mut s, &mut up, &mut tool, StageOutcome::Success, 0);
    advance(&mut s, &mut up, &mut tool, StageOutcome::Success, 0);
    assert_eq!(s.stage, Stage::Idle);
    assert_eq!(up, WorkingTree::new_baseline());
    assert_eq!(tool, WorkingTree::new_baseline());
}

#[test]
fn a_cleanup_io_failure_is_surfaced() {
    let (mut s, mut up, mut tool) = fresh_run(false);
    advance(
        &mut s,
        &mut up,
        &mut tool,
        StageOutcome::Failure(PipelineError::NetworkError),
        0,
    );
    assert_eq!(s.stage, Stage::CleaningUp);
    // A genuine I/O failure during cleanup does not displace the first
    // fatal error.
    advance(
        &mut s,
        &mut up,
        &mut tool,
        StageOutcome::Failure(PipelineError::GraftIOError),
        0,
    );
    assert_eq!(s.stage, Stage::Idle);
    assert_eq!(s.failure, Some(PipelineError::NetworkError));
}
