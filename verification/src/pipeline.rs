//! The orchestrator: a state machine that sequences one benchmark run.
//!
//! A run walks the stages fetch → resolve → graft → build → benchmark →
//! archive → cleanup.  Each stage's external work (repository operations,
//! the build toolchain, the benchmark collector) is performed by the
//! unverified shell, which reports the outcome of the current stage back
//! into the machine.  The machine decides the next stage and, through
//! [`advance`], keeps the two working-tree models in step.  Any fatal
//! failure jumps straight to cleanup, never past it, so both trees return
//! to their baseline whether the run succeeded or not.  A failed build is
//! fatal — benchmarking consumes its output — while a failed benchmark or
//! archive step is recorded and the run still winds down normally.

use vstd::prelude::*;

use crate::errors::PipelineError;
use crate::tree::HeadRef;
use crate::tree::WorkingTree;
use crate::tree::checkout_spec;
use crate::tree::cleanup_spec;

verus! {

/// The stage a run is in.  `Idle` is both the initial and the terminal
/// state; a run in any other stage is waiting for that stage's external
/// work to finish.
#[derive(Clone, Copy, Debug, PartialEq, Eq, Structural)]
pub enum Stage {
    Idle,
    Fetching,
    Resolving,
    Grafting,
    Building,
    Benchmarking,
    Archiving,
    CleaningUp,
}

/// Outcome of one stage's external work, as the shell observed it.
#[derive(Clone, Copy, Debug, PartialEq, Eq, Structural)]
pub enum StageOutcome {
    Success,
    Failure(PipelineError),
}

/// What the shell must do next for the current stage.
#[derive(Clone, Copy, Debug, PartialEq, Eq, Structural)]
pub enum Action {
    /// Fetch the change's remote ref and check it out in the tool tree.
    FetchChange,
    /// Read the pinned toolchain, resolve the target revision, and check
    /// it out in the upstream tree.
    ResolveTarget,
    /// Create the integration branch, check it out, and replace the tool
    /// subdirectory with the change's working copy.
    GraftChange,
    /// Run the build toolchain on the grafted tree.
    RunBuild,
    /// Run the benchmark collector against the built binaries.
    RunBenchmark,
    /// Move the collector's result database into the archive.
    ArchiveResults,
    /// Restore both trees to their baseline.
    RunCleanup,
    /// Nothing: no run is in progress.
    NoAction,
}

/// One run's control state.
#[derive(Clone, Copy, Debug, PartialEq, Eq)]
pub struct PipelineState {
    pub stage: Stage,
    /// Whether a baseline ("master") comparison benchmark was requested.
    pub master_requested: bool,
    /// Whether the current build/benchmark round is the baseline
    /// comparison round rather than the change itself.
    pub baseline_round: bool,
    /// The fatal error that aborted the run, if any.
    pub failure: Option<PipelineError>,
    /// A benchmark-stage failure: reported, but it does not stop cleanup,
    /// and partial benchmark data is preserved.
    pub benchmark_error: Option<PipelineError>,
    /// An archive-stage failure: logged and recoverable, typically a
    /// missing result file when the benchmark never produced output.
    pub archive_error: Option<PipelineError>,
}

/// The state a fresh run starts from.
pub open spec fn initial_state(master_requested: bool) -> PipelineState {
    PipelineState {
        stage: Stage::Fetching,
        master_requested: master_requested,
        baseline_round: false,
        failure: None,
        benchmark_error: None,
        archive_error: None,
    }
}

/// A fatal outcome: record the first fatal error and jump straight to
/// cleanup.
pub open spec fn fatal(s: PipelineState, e: PipelineError) -> PipelineState {
    PipelineState {
        stage: Stage::CleaningUp,
        failure: if s.failure is None { Some(e) } else { s.failure },
        ..s
    }
}

/// The transition relation of the machine, as a function of the current
/// state and the reported outcome of the current stage's external work.
pub open spec fn step_spec(s: PipelineState, ev: StageOutcome) -> PipelineState {
    match s.stage {
        Stage::Idle => s,
        Stage::Fetching => match ev {
            StageOutcome::Success => PipelineState { stage: Stage::Resolving, ..s },
            StageOutcome::Failure(e) => fatal(s, e),
        },
        Stage::Resolving => match ev {
            StageOutcome::Success => PipelineState { stage: Stage::Grafting, ..s },
            StageOutcome::Failure(e) => fatal(s, e),
        },
        Stage::Grafting => match ev {
            StageOutcome::Success => PipelineState { stage: Stage::Building, ..s },
            StageOutcome::Failure(e) => fatal(s, e),
        },
        Stage::Building => match ev {
            StageOutcome::Success => PipelineState { stage: Stage::Benchmarking, ..s },
            StageOutcome::Failure(_) => fatal(s, PipelineError::BuildFailure),
        },
        Stage::Benchmarking => {
            let s1 = match ev {
                StageOutcome::Success => s,
                StageOutcome::Failure(_) => PipelineState {
                    benchmark_error: Some(PipelineError::BenchmarkFailure),
                    ..s
                },
            };
            if s.master_requested && !s.baseline_round {
                PipelineState { stage: Stage::Building, baseline_round: true, ..s1 }
            } else {
                PipelineState { stage: Stage::Archiving, ..s1 }
            }
        },
        Stage::Archiving => match ev {
            StageOutcome::Success => PipelineState { stage: Stage::CleaningUp, ..s },
            StageOutcome::Failure(_) => PipelineState {
                stage: Stage::CleaningUp,
                archive_error: Some(PipelineError::ArchiveIOError),
                ..s
            },
        },
        Stage::CleaningUp => match ev {
            StageOutcome::Success => PipelineState { stage: Stage::Idle, ..s },
            StageOutcome::Failure(e) => PipelineState {
                stage: Stage::Idle,
                failure: if s.failure is None { Some(e) } else { s.failure },
                ..s
            },
        },
    }
}

/// The external work each stage waits on.
pub open spec fn action_spec(s: PipelineState) -> Action {
    match s.stage {
        Stage::Idle => Action::NoAction,
        Stage::Fetching => Action::FetchChange,
        Stage::Resolving => Action::ResolveTarget,
        Stage::Grafting => Action::GraftChange,
        Stage::Building => Action::RunBuild,
        Stage::Benchmarking => Action::RunBenchmark,
        Stage::Archiving => Action::ArchiveResults,
        Stage::CleaningUp => Action::RunCleanup,
    }
}

/// The state reached after feeding the machine a whole sequence of stage
/// outcomes.
pub open spec fn run_spec(s: PipelineState, evs: Seq<StageOutcome>) -> PipelineState
    decreases evs.len(),
{
    if evs.len() == 0 {
        s
    } else {
        run_spec(step_spec(s, evs[0]), evs.drop_first())
    }
}

/// A run that has reached cleanup (or finished) is winding down: no later
/// outcome can take it anywhere but cleanup and idle.
pub open spec fn winding_down(s: PipelineState) -> bool {
    s.stage == Stage::CleaningUp || s.stage == Stage::Idle
}

/// Winding down is closed under the transition relation, and a fatal
/// error recorded by then is never overwritten.
pub proof fn lemma_winding_down_closed(s: PipelineState, evs: Seq<StageOutcome>)
    requires
        winding_down(s),
    ensures
        winding_down(run_spec(s, evs)),
        s.failure is Some ==> run_spec(s, evs).failure == s.failure,
    decreases evs.len(),
{
    if evs.len() > 0 {
        lemma_winding_down_closed(step_spec(s, evs[0]), evs.drop_first());
    }
}

/// A run, successful or failed, ends with cleanup: the machine returns to
/// idle only out of the cleanup stage, so the baseline-restoring work is
/// never skipped.
pub proof fn lemma_idle_only_after_cleanup(s: PipelineState, ev: StageOutcome)
    requires
        s.stage != Stage::Idle,
    ensures
        step_spec(s, ev).stage == Stage::Idle ==> s.stage == Stage::CleaningUp,
{
}

/// A state in which a failed build has been recorded for good: the run is
/// winding down, it reports `BuildFailure`, and it is not in — and will
/// not ask for — the benchmarking stage.
pub open spec fn settled_after_build_failure(s: PipelineState) -> bool {
    &&& winding_down(s)
    &&& s.failure == Some(PipelineError::BuildFailure)
    &&& s.stage != Stage::Benchmarking
    &&& action_spec(s) != Action::RunBenchmark
}

/// A build failure is fatal but orderly: the machine reports
/// `BuildFailure`, moves straight to cleanup — so cleanup still runs —
/// and no continuation of the run ever reaches the benchmarking stage
/// again or asks for the benchmark collector.
pub proof fn lemma_build_failure_skips_benchmark(s: PipelineState, e: PipelineError)
    requires
        s.stage == Stage::Building,
        s.failure is None,
    ensures
        step_spec(s, StageOutcome::Failure(e)).stage == Stage::CleaningUp,
        step_spec(s, StageOutcome::Failure(e)).failure == Some(PipelineError::BuildFailure),
        action_spec(step_spec(s, StageOutcome::Failure(e))) == Action::RunCleanup,
        forall|evs: Seq<StageOutcome>|
            settled_after_build_failure(
                #[trigger] run_spec(step_spec(s, StageOutcome::Failure(e)), evs),
            ),
{
    let s1 = step_spec(s, StageOutcome::Failure(e));
    assert forall|evs: Seq<StageOutcome>|
        settled_after_build_failure(#[trigger] run_spec(s1, evs)) by {
        lemma_winding_down_closed(s1, evs);
    }
}

impl PipelineState {
    /// A fresh run, ready to fetch the change.
    pub fn start(master_requested: bool) -> (s: PipelineState)
        ensures
            s == initial_state(master_requested),
    {
        PipelineState {
            stage: Stage::Fetching,
            master_requested: master_requested,
            baseline_round: false,
            failure: None,
            benchmark_error: None,
            archive_error: None,
        }
    }

    /// The external work the shell must perform next.
    pub fn current_action(&self) -> (a: Action)
        ensures
            a == action_spec(*self),
    {
        match self.stage {
            Stage::Idle => Action::NoAction,
            Stage::Fetching => Action::FetchChange,
            Stage::Resolving => Action::ResolveTarget,
            Stage::Grafting => Action::GraftChange,
            Stage::Building => Action::RunBuild,
            Stage::Benchmarking => Action::RunBenchmark,
            Stage::Archiving => Action::ArchiveResults,
            Stage::CleaningUp => Action::RunCleanup,
        }
    }

    /// Feeds the outcome of the current stage's external work into the
    /// machine.
    pub fn step(&mut self, ev: StageOutcome)
        ensures
            *final(self) == step_spec(*old(self), ev),
    {
        match self.stage {
            Stage::Idle => {},
            Stage::Fetching => match ev {
                StageOutcome::Success => {
                    self.stage = Stage::Resolving;
                },
                StageOutcome::Failure(e) => {
                    self.record_fatal(e);
                },
            },
            Stage::Resolving => match ev {
                StageOutcome::Success => {
                    self.stage = Stage::Grafting;
                },
                StageOutcome::Failure(e) => {
                    self.record_fatal(e);
                },
            },
            Stage::Grafting => match ev {
                StageOutcome::Success => {
                    self.stage = Stage::Building;
                },
                StageOutcome::Failure(e) => {
                    self.record_fatal(e);
                },
            },
            Stage::Building => match ev {
                StageOutcome::Success => {
                    self.stage = Stage::Benchmarking;
                },
                StageOutcome::Failure(_) => {
                    self.record_fatal(PipelineError::BuildFailure);
                },
            },
            Stage::Benchmarking => {
                if matches!(ev, StageOutcome::Failure(_)) {
                    self.benchmark_error = Some(PipelineError::BenchmarkFailure);
                }
                if self.master_requested && !self.baseline_round {
                    self.baseline_round = true;
                    self.stage = Stage::Building;
                } else {
                    self.stage = Stage::Archiving;
                }
            },
            Stage::Archiving => {
                if matches!(ev, StageOutcome::Failure(_)) {
                    self.archive_error = Some(PipelineError::ArchiveIOError);
                }
                self.stage = Stage::CleaningUp;
            },
            Stage::CleaningUp => {
                if let StageOutcome::Failure(e) = ev {
                    if matches!(self.failure, None) {
                        self.failure = Some(e);
                    }
                }
                self.stage = Stage::Idle;
            },
        }
    }

    /// Records the first fatal error and jumps to cleanup.
    fn record_fatal(&mut self, e: PipelineError)
        ensures
            *final(self) == fatal(*old(self), e),
    {
        if matches!(self.failure, None) {
            self.failure = Some(e);
        }
        self.stage = Stage::CleaningUp;
    }
}

/// The invariant [`advance`] maintains between the control state and the
/// two tree models: a run never creates untracked paths or an integration
/// branch in the tool tree, and whenever the machine is idle both trees
/// are in their clean baseline state.
pub open spec fn run_inv(s: PipelineState, upstream: WorkingTree, tool: WorkingTree) -> bool {
    &&& tool.untracked == 0
    &&& !tool.has_integration_branch
    &&& (s.stage == Stage::Idle ==> upstream.is_clean_baseline() && tool.is_clean_baseline())
}

/// The effect of one stage's reported outcome on the two tree models: a
/// fetched change leaves the tool tree on the change ref, a resolved
/// target leaves the upstream tree on the target revision, a successful
/// graft leaves the upstream tree on a fresh integration branch with
/// modified and untracked contents, and cleanup restores both trees; a
/// failed stage leaves the trees as they were.
pub open spec fn stage_tree_effect(
    stage_was: Stage,
    ev: StageOutcome,
    upstream: WorkingTree,
    tool: WorkingTree,
    graft_untracked: u64,
) -> (WorkingTree, WorkingTree) {
    let ok = ev == StageOutcome::Success;
    match stage_was {
        Stage::Fetching => if ok {
            (upstream, checkout_spec(tool, HeadRef::Target))
        } else {
            (upstream, tool)
        },
        Stage::Resolving => if ok {
            (checkout_spec(upstream, HeadRef::Target), tool)
        } else {
            (upstream, tool)
        },
        Stage::Grafting => if ok {
            (
                WorkingTree {
                    head: HeadRef::Integration,
                    has_integration_branch: true,
                    dirty: true,
                    untracked: (upstream.untracked + graft_untracked) as u64,
                },
                tool,
            )
        } else {
            (upstream, tool)
        },
        Stage::CleaningUp => (cleanup_spec(upstream), checkout_spec(tool, HeadRef::Baseline)),
        _ => (upstream, tool),
    }
}

/// Advances the machine on a stage outcome and applies the stage's effect
/// to the two working-tree models, as [`stage_tree_effect`] states it.
/// Whatever the outcomes were, once the machine returns to idle both
/// trees are back on their clean baseline.
pub fn advance(
    s: &mut PipelineState,
    upstream: &mut WorkingTree,
    tool: &mut WorkingTree,
    ev: StageOutcome,
    graft_untracked: u64,
)
    requires
        run_inv(*old(s), *old(upstream), *old(tool)),
        old(upstream).untracked + graft_untracked <= u64::MAX,
    ensures
        *final(s) == step_spec(*old(s), ev),
        (*final(upstream), *final(tool)) == stage_tree_effect(
            old(s).stage,
            ev,
            *old(upstream),
            *old(tool),
            graft_untracked,
        ),
        run_inv(*final(s), *final(upstream), *final(tool)),
        final(s).stage == Stage::Idle && old(s).stage != Stage::Idle
            ==> final(upstream).is_clean_baseline() && final(tool).is_clean_baseline(),
{
    proof {
        lemma_run_inv_preserved(*s, *upstream, *tool, ev, graft_untracked);
    }
    let stage_was = s.stage;
    let ok = matches!(ev, StageOutcome::Success);
    s.step(ev);
    match stage_was {
        Stage::Fetching => {
            if ok {
                let r = tool.checkout(HeadRef::Target);
                assert(r == Ok::<(), PipelineError>(()));
            }
        },
        Stage::Resolving => {
            if ok {
                let r = upstream.checkout(HeadRef::Target);
                assert(r == Ok::<(), PipelineError>(()));
            }
        },
        Stage::Grafting => {
            if ok {
                let created = upstream.create_integration_branch(true);
                assert(created == Ok::<(), PipelineError>(()));
                let checked_out = upstream.checkout(HeadRef::Integration);
                assert(checked_out == Ok::<(), PipelineError>(()));
                upstream.record_graft(graft_untracked);
            }
        },
        Stage::CleaningUp => {
            let cleaned = upstream.cleanup();
            assert(cleaned == Ok::<(), PipelineError>(()));
            let tool_cleaned = tool.cleanup_tool();
            assert(tool_cleaned == Ok::<(), PipelineError>(()));
        },
        _ => {},
    }
}

/// One coupled transition preserves the run invariant.
proof fn lemma_run_inv_preserved(
    s: PipelineState,
    upstream: WorkingTree,
    tool: WorkingTree,
    ev: StageOutcome,
    graft_untracked: u64,
)
    requires
        run_inv(s, upstream, tool),
    ensures
        ({
            let trees = stage_tree_effect(s.stage, ev, upstream, tool, graft_untracked);
            run_inv(step_spec(s, ev), trees.0, trees.1)
        }),
{
}

/// The machine and the two trees after a whole run: each entry of `evs`
/// is one stage outcome together with the untracked-path count a graft
/// reported.
pub open spec fn run_coupled(
    s: PipelineState,
    upstream: WorkingTree,
    tool: WorkingTree,
    evs: Seq<(StageOutcome, u64)>,
) -> (PipelineState, WorkingTree, WorkingTree)
    decreases evs.len(),
{
    if evs.len() == 0 {
        (s, upstream, tool)
    } else {
        let trees = stage_tree_effect(s.stage, evs[0].0, upstream, tool, evs[0].1);
        run_coupled(step_spec(s, evs[0].0), trees.0, trees.1, evs.drop_first())
    }
}

/// After any run — any sequence of stage outcomes, successful or failed —
/// the run invariant still holds: in particular, whenever the machine has
/// returned to idle, both working trees are on their baseline branch with
/// zero untracked paths and no integration branch present.
pub proof fn lemma_any_run_restores_baseline(
    s: PipelineState,
    upstream: WorkingTree,
    tool: WorkingTree,
    evs: Seq<(StageOutcome, u64)>,
)
    requires
        run_inv(s, upstream, tool),
    ensures
        ({
            let r = run_coupled(s, upstream, tool, evs);
            &&& run_inv(r.0, r.1, r.2)
            &&& r.0.stage == Stage::Idle ==> r.1.is_clean_baseline() && r.2.is_clean_baseline()
        }),
    decreases evs.len(),
{
    if evs.len() > 0 {
        let trees = stage_tree_effect(s.stage, evs[0].0, upstream, tool, evs[0].1);
        lemma_run_inv_preserved(s, upstream, tool, evs[0].0, evs[0].1);
        lemma_any_run_restores_baseline(step_spec(s, evs[0].0), trees.0, trees.1, evs.drop_first());
    }
}

} // verus!
