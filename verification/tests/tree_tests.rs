use pr_bench::errors::PipelineError;
use pr_bench::tree::HeadRef;
use pr_bench::tree::WorkingTree;

fn messy_tree() -> WorkingTree {
    WorkingTree {
        head: HeadRef::Integration,
        has_integration_branch: true,
        untracked: 5,
        dirty: true,
    }
}

#[test]
fn cleanup_restores_the_clean_baseline_from_a_messy_state() {
    let mut t = messy_tree();
    assert_eq!(t.cleanup(), Ok(()));
    assert_eq!(t, WorkingTree::new_baseline());
}

#[test]
fn cleanup_twice_equals_cleanup_once() {
    let mut once = messy_tree();
    assert_eq!(once.cleanup(), Ok(()));
    let mut twice = messy_tree();
    assert_eq!(twice.cleanup(), Ok(()));
    // The second cleanup reports no error and changes nothing.
    assert_eq!(twice.cleanup(), Ok(()));
    assert_eq!(once, twice);
}

#[test]
fn checkout_of_a_missing_integration_branch_fails() {
    let mut t = WorkingTree::new_baseline();
    let before = t;
    assert_eq!(
        t.checkout(HeadRef::Integration),
        Err(PipelineError::RefNotFoundError)
    );
    assert_eq!(t, before);
}

#[test]
fn forced_checkout_discards_modifications_and_keeps_untracked() {
    let mut t = WorkingTree {
        head: HeadRef::Baseline,
        has_integration_branch: false,
        untracked: 2,
        dirty: true,
    };
    assert_eq!(t.checkout(HeadRef::Target), Ok(()));
    assert_eq!(t.head, HeadRef::Target);
    assert!(!t.dirty);
    assert_eq!(t.untracked, 2);
}

#[test]
fn creating_an_existing_branch_needs_overwrite() {
    let mut t = WorkingTree::new_baseline();
    assert_eq!(t.create_integration_branch(false), Ok(()));
    assert_eq!(
        t.create_integration_branch(false),
        Err(PipelineError::BranchExistsError)
    );
    assert_eq!(t.create_integration_branch(true), Ok(()));
    assert!(t.has_integration_branch);
}

#[test]
fn deleting_a_missing_branch_fails() {
    let mut t = WorkingTree::new_baseline();
    assert_eq!(
        t.delete_integration_branch(),
        Err(PipelineError::BranchNotFoundError)
    );
    assert_eq!(t.create_integration_branch(true), Ok(()));
    assert_eq!(t.delete_integration_branch(), Ok(()));
    assert!(!t.has_integration_branch);
}

#[test]
fn hard_reset_purges_untracked_paths_only_when_asked() {
    let mut t = WorkingTree {
        head: HeadRef::Target,
        has_integration_branch: false,
        untracked: 3,
        dirty: true,
    };
    t.hard_reset(false);
    assert!(!t.dirty);
    assert_eq!(t.untracked, 3);
    t.hard_reset(true);
    assert_eq!(t.untracked, 0);
}

#[test]
fn graft_effect_marks_the_tree_dirty_with_new_untracked_paths() {
    let mut t = WorkingTree::new_baseline();
    t.record_graft(4);
    assert!(t.dirty);
    assert_eq!(t.untracked, 4);
    t.remove_untracked_path();
    assert_eq!(t.untracked, 3);
}

#[test]
fn tool_tree_cleanup_checks_out_the_baseline_only() {
    let mut t = WorkingTree {
        head: HeadRef::Target,
        has_integration_branch: false,
        untracked: 0,
        dirty: true,
    };
    assert_eq!(t.cleanup_tool(), Ok(()));
    assert_eq!(t, WorkingTree::new_baseline());
}
