//! When a training run saves its running average strategy.
//!
//! A run saves after every thousandth iteration. Each save replaces the one
//! before it, so a run has at most one save at a time. Nothing is removed
//! when the run ends: the last save stays.

use vstd::prelude::*;

verus! {

/// Number of iterations between two saves.
pub const CHECKPOINT_INTERVAL: usize = 1000;

/// What to do after an iteration at which a save is due. Saves are named by
/// the number of iterations done when they were made.
#[derive(Clone, Copy, Debug, PartialEq, Eq, Structural)]
pub struct CheckpointStep {
    /// The save to write now.
    pub write: usize,
    /// The earlier save to remove, if there is one.
    pub remove: Option<usize>,
}

/// Whether a save is due once `done` iterations are done.
pub open spec fn checkpoint_due(done: nat) -> bool {
    done > 0 && done % 1000 == 0
}

/// The step at `done` iterations, at which a save is due.
pub open spec fn checkpoint_step_at(done: nat) -> CheckpointStep {
    CheckpointStep {
        write: done as usize,
        remove: if done > 1000 {
            Some((done - 1000) as usize)
        } else {
            None
        },
    }
}

/// The saves that are there once `done` iterations are done and every step
/// up to then has been carried out.
pub open spec fn saves_after(done: nat) -> Set<usize>
    decreases done,
{
    if done == 0 {
        Set::empty()
    } else if checkpoint_due(done) {
        let before = saves_after((done - 1) as nat);
        let step = checkpoint_step_at(done);
        let kept = match step.remove {
            Some(earlier) => before.remove(earlier),
            None => before,
        };
        kept.insert(step.write)
    } else {
        saves_after((done - 1) as nat)
    }
}

/// What to save and what to remove once `done` iterations are done: nothing
/// unless a save is due.
pub fn checkpoint_after(done: usize) -> (r: Option<CheckpointStep>)
    ensures
        r == if checkpoint_due(done as nat) {
            Some(checkpoint_step_at(done as nat))
        } else {
            None
        },
{
    if done > 0 && done % CHECKPOINT_INTERVAL == 0 {
        let remove = if done > CHECKPOINT_INTERVAL {
            Some(done - CHECKPOINT_INTERVAL)
        } else {
            None
        };
        Some(CheckpointStep { write: done, remove })
    } else {
        None
    }
}

/// A step removes the save that the step before it wrote, and the first
/// step, before which there is no save, removes nothing.
pub proof fn lemma_checkpoint_chain(done: nat)
    requires
        checkpoint_due(done),
        done <= usize::MAX,
    ensures
        checkpoint_step_at(done).remove matches Some(earlier) ==> checkpoint_due(earlier as nat)
            && checkpoint_step_at(earlier as nat).write == earlier,
        checkpoint_step_at(done).remove is None ==> forall|k: nat|
            k < done ==> !checkpoint_due(k),
{
    if done <= 1000 {
        assert forall|k: nat| k < done implies !checkpoint_due(k) by {
            if k > 0 {
                assert(k % 1000 == k);
            }
        }
    }
}

/// A run has one save at a time, and its last save stays: after `done`
/// iterations the only save there is the one written at the last multiple of
/// a thousand, and there is none before the first thousand.
pub proof fn lemma_last_save_stays(done: nat)
    requires
        done <= usize::MAX,
    ensures
        saves_after(done) == if done >= 1000 {
            set![(done - done % 1000) as usize]
        } else {
            Set::<usize>::empty()
        },
    decreases done,
{
    if done > 0 {
        lemma_last_save_stays((done - 1) as nat);
        let before = saves_after((done - 1) as nat);
        if checkpoint_due(done) {
            if done > 1000 {
                let earlier = (done - 1000) as usize;
                assert((done - 1) - (done - 1) % 1000 == done - 1000);
                assert(before =~= set![earlier]);
                assert(before.remove(earlier).insert(done as usize) =~= set![done as usize]);
            } else {
                assert(before =~= Set::<usize>::empty());
                assert(before.insert(done as usize) =~= set![done as usize]);
            }
        } else {
            assert(done - done % 1000 == (done - 1) - (done - 1) % 1000);
        }
    }
}

} // verus!
