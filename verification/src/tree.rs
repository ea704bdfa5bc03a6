//! Model of a version-control working tree as the pipeline observes it.
//!
//! Each of the two repositories (the upstream source tree and the linting
//! tool's source tree) is mutated only through the operations of a thin
//! repository adapter: checkout, branch creation and deletion, hard reset,
//! and untracked-path enumeration.  This module models the state those
//! operations act on — which ref is checked out, whether the disposable
//! integration branch exists, how many untracked paths the tree holds, and
//! whether the tracked contents carry uncommitted modifications — and gives
//! every operation an exact contract.  The unverified shell performs the
//! real repository work and keeps a value of [`WorkingTree`] in step with
//! it.  Cleanup, the hard correctness requirement, is verified here: from
//! any state it restores the clean baseline, it never fails, and running it
//! twice changes nothing more than running it once.

use vstd::prelude::*;

use crate::errors::PipelineError;

verus! {

/// The ref a working tree can have checked out: the baseline (default)
/// branch, the target revision chosen for the run (a tag, a pre-release
/// branch, or the fetched change ref), or the disposable integration
/// branch.
#[derive(Clone, Copy, Debug, PartialEq, Eq, Structural)]
pub enum HeadRef {
    Baseline,
    Target,
    Integration,
}

/// Observable state of one repository's working tree.
#[derive(Clone, Copy, Debug, PartialEq, Eq, Structural)]
pub struct WorkingTree {
    /// Which ref is currently checked out.
    pub head: HeadRef,
    /// Whether the local integration branch exists.
    pub has_integration_branch: bool,
    /// Number of paths present in the tree but not tracked.
    pub untracked: u64,
    /// Whether tracked contents carry uncommitted modifications.
    pub dirty: bool,
}

/// The clean baseline state both trees must return to after every run.
pub open spec fn baseline_tree() -> WorkingTree {
    WorkingTree { head: HeadRef::Baseline, has_integration_branch: false, untracked: 0, dirty: false }
}

/// State after a forced checkout of `target`: the head moves and
/// uncommitted modifications are discarded; untracked paths and the
/// integration branch are untouched.
pub open spec fn checkout_spec(t: WorkingTree, target: HeadRef) -> WorkingTree {
    WorkingTree { head: target, dirty: false, ..t }
}

/// Whether a checkout of `target` can resolve its ref: the baseline branch
/// and the run's target revision always exist; the integration branch only
/// after it has been created.
pub open spec fn checkout_resolves(t: WorkingTree, target: HeadRef) -> bool {
    target != HeadRef::Integration || t.has_integration_branch
}

/// State after a hard reset: uncommitted modifications are discarded, and
/// with `purge_untracked` every untracked path is removed as well.
pub open spec fn hard_reset_spec(t: WorkingTree, purge_untracked: bool) -> WorkingTree {
    WorkingTree {
        dirty: false,
        untracked: if purge_untracked { 0 } else { t.untracked },
        ..t
    }
}

/// State after the upstream tree's whole cleanup sequence: whatever state
/// `t` the run left behind, the tree is driven all the way back to the
/// clean baseline.
pub open spec fn cleanup_spec(t: WorkingTree) -> WorkingTree {
    WorkingTree { head: HeadRef::Baseline, has_integration_branch: false, untracked: 0, dirty: false }
}

impl WorkingTree {
    /// Whether this tree is in the clean baseline state.
    pub open spec fn is_clean_baseline(self) -> bool {
        self == baseline_tree()
    }

    /// A tree in the clean baseline state, as the one-time provisioning
    /// step leaves it.
    pub fn new_baseline() -> (t: WorkingTree)
        ensures
            t == baseline_tree(),
    {
        WorkingTree { head: HeadRef::Baseline, has_integration_branch: false, untracked: 0, dirty: false }
    }

    /// Forced checkout of `target`: resolves the ref, forces the working
    /// tree to match it, and moves the head.  Fails with
    /// `RefNotFoundError`, leaving the state unchanged, when the ref does
    /// not exist.
    pub fn checkout(&mut self, target: HeadRef) -> (r: Result<(), PipelineError>)
        ensures
            checkout_resolves(*old(self), target) ==> r == Ok::<(), PipelineError>(())
                && *final(self) == checkout_spec(*old(self), target),
            !checkout_resolves(*old(self), target) ==> r == Err::<(), PipelineError>(
                PipelineError::RefNotFoundError,
            ) && *final(self) == *old(self),
    {
        if matches!(target, HeadRef::Integration) && !self.has_integration_branch {
            Err(PipelineError::RefNotFoundError)
        } else {
            self.head = target;
            self.dirty = false;
            Ok(())
        }
    }

    /// Creates the integration branch at the current commit.  Fails with
    /// `BranchExistsError` unless `overwrite` is set; the pipeline forces
    /// `overwrite` so a stale branch from a crashed run never blocks it.
    pub fn create_integration_branch(&mut self, overwrite: bool) -> (r: Result<(), PipelineError>)
        ensures
            (!old(self).has_integration_branch || overwrite) ==> r == Ok::<(), PipelineError>(())
                && *final(self) == (WorkingTree { has_integration_branch: true, ..*old(self) }),
            old(self).has_integration_branch && !overwrite ==> r == Err::<(), PipelineError>(
                PipelineError::BranchExistsError,
            ) && *final(self) == *old(self),
    {
        if self.has_integration_branch && !overwrite {
            Err(PipelineError::BranchExistsError)
        } else {
            self.has_integration_branch = true;
            Ok(())
        }
    }

    /// Deletes the integration branch.  Fails with `BranchNotFoundError`,
    /// leaving the state unchanged, when the branch does not exist —
    /// callers that need idempotence check for the branch first.
    pub fn delete_integration_branch(&mut self) -> (r: Result<(), PipelineError>)
        ensures
            old(self).has_integration_branch ==> r == Ok::<(), PipelineError>(()) && *final(self)
                == (WorkingTree { has_integration_branch: false, ..*old(self) }),
            !old(self).has_integration_branch ==> r == Err::<(), PipelineError>(
                PipelineError::BranchNotFoundError,
            ) && *final(self) == *old(self),
    {
        if self.has_integration_branch {
            self.has_integration_branch = false;
            Ok(())
        } else {
            Err(PipelineError::BranchNotFoundError)
        }
    }

    /// Hard reset to the current head: discards uncommitted modifications
    /// and, when `purge_untracked` is set, removes untracked paths too.
    pub fn hard_reset(&mut self, purge_untracked: bool)
        ensures
            *final(self) == hard_reset_spec(*old(self), purge_untracked),
    {
        self.dirty = false;
        if purge_untracked {
            self.untracked = 0;
        }
    }

    /// Records the effect of grafting foreign contents into this tree:
    /// tracked files now differ from the checked-out commit, and `added`
    /// new paths are present untracked.
    pub fn record_graft(&mut self, added: u64)
        requires
            old(self).untracked + added <= u64::MAX,
        ensures
            *final(self) == (WorkingTree {
                dirty: true,
                untracked: (old(self).untracked + added) as u64,
                ..*old(self)
            }),
    {
        self.dirty = true;
        self.untracked = self.untracked + added;
    }

    /// Forcibly removes one untracked path reported by the status
    /// enumeration.
    pub fn remove_untracked_path(&mut self)
        requires
            old(self).untracked >= 1,
        ensures
            *final(self) == (WorkingTree { untracked: (old(self).untracked - 1) as u64, ..*old(self) }),
    {
        self.untracked = self.untracked - 1;
    }

    /// Cleanup for the upstream tree.  Always runs to completion and never
    /// reports an error: a hard reset discards uncommitted state, the
    /// baseline branch is checked out, the integration branch is deleted
    /// only if it exists (a missing branch means the tree is already
    /// clean, not a failure), a second hard reset purges untracked paths,
    /// and any path the status enumeration still reports is removed one by
    /// one.
    pub fn cleanup(&mut self) -> (r: Result<(), PipelineError>)
        ensures
            r == Ok::<(), PipelineError>(()),
            *final(self) == cleanup_spec(*old(self)),
            final(self).is_clean_baseline(),
    {
        self.hard_reset(false);
        let checked_out = self.checkout(HeadRef::Baseline);
        assert(checked_out == Ok::<(), PipelineError>(()));
        if self.has_integration_branch {
            let deleted = self.delete_integration_branch();
            assert(deleted == Ok::<(), PipelineError>(()));
        }
        self.hard_reset(true);
        while self.untracked > 0
            invariant
                self.head == HeadRef::Baseline,
                !self.has_integration_branch,
                !self.dirty,
            decreases self.untracked,
        {
            self.remove_untracked_path();
        }
        Ok(())
    }

    /// Cleanup for the linting tool's tree: its contents were copied, not
    /// committed, so checking out the baseline branch is all the run has
    /// to undo.  Untracked paths and branches are untouched.
    pub fn cleanup_tool(&mut self) -> (r: Result<(), PipelineError>)
        ensures
            r == Ok::<(), PipelineError>(()),
            *final(self) == checkout_spec(*old(self), HeadRef::Baseline),
            old(self).untracked == 0 && !old(self).has_integration_branch
                ==> final(self).is_clean_baseline(),
    {
        let checked_out = self.checkout(HeadRef::Baseline);
        assert(checked_out == Ok::<(), PipelineError>(()));
        Ok(())
    }
}

/// Cleanup restores the clean baseline from every state.
pub proof fn lemma_cleanup_reaches_baseline(t: WorkingTree)
    ensures
        cleanup_spec(t) == baseline_tree(),
        cleanup_spec(t).is_clean_baseline(),
{
}

/// Cleanup is idempotent: running it twice in a row leaves the same state
/// as running it once — and by [`WorkingTree::cleanup`]'s contract the
/// second run reports no error either.
pub proof fn lemma_cleanup_idempotent(t: WorkingTree)
    ensures
        cleanup_spec(cleanup_spec(t)) == cleanup_spec(t),
{
}

} // verus!
