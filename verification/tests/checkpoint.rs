use poker_cfr::checkpoint::{checkpoint_after, CheckpointStep, CHECKPOINT_INTERVAL};
use std::collections::BTreeSet;

/// Carries out every step of a run and returns the saves that are there when
/// it ends.
fn saves_left_by(num_iter: usize) -> BTreeSet<usize> {
    let mut saved = BTreeSet::new();
    for done in 1..=num_iter {
        if let Some(step) = checkpoint_after(done) {
            if let Some(earlier) = step.remove {
                assert!(saved.remove(&earlier));
            }
            assert!(saved.insert(step.write));
            assert_eq!(saved.len(), 1);
        }
    }
    saved
}

#[test]
fn no_save_between_thousands() {
    assert_eq!(checkpoint_after(0), None);
    assert_eq!(checkpoint_after(1), None);
    assert_eq!(checkpoint_after(999), None);
    assert_eq!(checkpoint_after(1001), None);
    assert_eq!(checkpoint_after(2500), None);
}

#[test]
fn first_save_removes_nothing() {
    assert_eq!(checkpoint_after(1000), Some(CheckpointStep { write: 1000, remove: None }));
}

#[test]
fn later_saves_remove_the_save_before() {
    assert_eq!(
        checkpoint_after(2000),
        Some(CheckpointStep { write: 2000, remove: Some(1000) })
    );
    assert_eq!(
        checkpoint_after(10_000),
        Some(CheckpointStep { write: 10_000, remove: Some(9000) })
    );
}

#[test]
fn a_run_of_a_thousand_iterations_keeps_its_save() {
    assert_eq!(saves_left_by(1000), BTreeSet::from([1000]));
}

#[test]
fn a_run_leaves_its_last_save() {
    assert_eq!(saves_left_by(0), BTreeSet::new());
    assert_eq!(saves_left_by(999), BTreeSet::new());
    assert_eq!(saves_left_by(1999), BTreeSet::from([1000]));
    assert_eq!(saves_left_by(2000), BTreeSet::from([2000]));
    assert_eq!(saves_left_by(12_345), BTreeSet::from([12_000]));
}

#[test]
fn a_run_has_one_save_at_a_time() {
    // `saves_left_by` looks at the saves after every step
    assert_eq!(saves_left_by(4321).len(), 1);
    assert_eq!(CHECKPOINT_INTERVAL, 1000);
}
