//! Heads-up push/fold: the small blind goes all-in or folds, and the big
//! blind, facing the all-in, calls or folds.
//!
//! Action 0 is fold, action 1 is all-in or call. Player 0 posts the small
//! blind, player 1 the big blind, which is twice the small blind.

use crate::game_node::{GameNode, PublicInfoSet};
use crate::payoff::{blind_of, fold_swing, outcomes_balance, Outcome};
use vstd::prelude::*;

verus! {

/// A node of the push/fold tree.
#[derive(Debug)]
pub struct PushFoldNode {
    small_blind: u64,
    eff_stack: u64,
    public_info_set: PublicInfoSet,
}

/// Mathematical description of a push/fold node.
pub struct PushFoldState {
    /// The small blind, in chips.
    pub small_blind: nat,
    /// The effective stack, in chips.
    pub eff_stack: nat,
    /// The actions taken so far.
    pub history: Seq<u8>,
}

/// The histories that can arise: nothing, a fold, an all-in, or an all-in and
/// an answer.
pub open spec fn push_fold_reachable(h: Seq<u8>) -> bool {
    &&& h.len() <= 2
    &&& forall|i: int| 0 <= i < h.len() ==> h[i] < 2
    &&& h.len() == 2 ==> h[0] == 1
}

/// The game is over once the small blind has folded or the big blind has
/// answered.
pub open spec fn push_fold_terminal(h: Seq<u8>) -> bool {
    (h.len() == 1 && h[0] == 0) || h.len() == 2
}

/// How the hand ends for `player` at a terminal node. The player who folds
/// loses the blind that player posted; at a showdown the effective stack is at
/// stake.
pub open spec fn push_fold_outcome(m: PushFoldState, player: int) -> Outcome {
    if m.history.last() == 0 {
        let folder = (m.history.len() - 1) % 2;
        Outcome::Fold(fold_swing(folder, player, blind_of(folder, m.small_blind as int)) as i64)
    } else {
        Outcome::Showdown(m.eff_stack as u64)
    }
}

/// At every terminal node the outcomes of the two players balance.
pub proof fn lemma_push_fold_zero_sum(m: PushFoldState)
    requires
        PushFoldNode::valid(m),
        push_fold_terminal(m.history),
    ensures
        outcomes_balance(push_fold_outcome(m, 0), push_fold_outcome(m, 1)),
{
}

impl View for PushFoldNode {
    type V = PushFoldState;

    closed spec fn view(&self) -> PushFoldState {
        PushFoldState {
            small_blind: self.small_blind as nat,
            eff_stack: self.eff_stack as nat,
            history: self.public_info_set@,
        }
    }
}

impl Clone for PushFoldNode {
    fn clone(&self) -> (r: Self)
        ensures
            r@ == self@,
    {
        PushFoldNode {
            small_blind: self.small_blind,
            eff_stack: self.eff_stack,
            public_info_set: self.public_info_set.clone(),
        }
    }
}

impl GameNode for PushFoldNode {
    open spec fn valid(m: PushFoldState) -> bool {
        &&& push_fold_reachable(m.history)
        &&& 2 * m.small_blind <= i64::MAX
        &&& m.eff_stack <= u64::MAX
    }

    open spec fn history(m: PushFoldState) -> Seq<u8> {
        m.history
    }

    open spec fn terminal(m: PushFoldState) -> bool {
        push_fold_terminal(m.history)
    }

    open spec fn to_act(m: PushFoldState) -> nat {
        m.history.len() % 2
    }

    open spec fn fan_out(m: PushFoldState) -> nat {
        2
    }

    open spec fn hand_count(m: PushFoldState) -> nat {
        1326
    }

    open spec fn successor(m: PushFoldState, action: nat) -> PushFoldState {
        PushFoldState { history: m.history.push(action as u8), ..m }
    }

    open spec fn depth_left(m: PushFoldState) -> nat {
        (2 - m.history.len()) as nat
    }

    proof fn lemma_decision_point(m: PushFoldState) {
    }

    proof fn lemma_successor(m: PushFoldState, action: nat) {
    }

    fn is_terminal_node(&self) -> (r: bool) {
        let h = &self.public_info_set;
        (h.len() == 1 && h[0] == 0) || h.len() == 2
    }

    fn current_player(&self) -> (r: usize) {
        self.public_info_set.len() % 2
    }

    fn num_actions(&self) -> (r: usize) {
        2
    }

    fn actions(&self) -> (r: std::ops::Range<usize>) {
        0..self.num_actions()
    }

    fn play(&self, action: usize) -> (r: Self) {
        proof {
            Self::lemma_successor(self@, action as nat);
        }
        let mut ret = self.clone();
        ret.public_info_set.push(action as u8);
        ret
    }

    fn public_info_set(&self) -> (r: &PublicInfoSet) {
        &self.public_info_set
    }

    fn private_info_set_len(&self) -> (r: usize) {
        52 * 51 / 2
    }
}

impl PushFoldNode {
    /// The root of the game with an effective stack of `eff_stack` chips and
    /// a small blind of `small_blind` chips. The big blind must not be more
    /// than `i64::MAX` chips.
    pub fn new(eff_stack: u64, small_blind: u64) -> (r: Self)
        requires
            2 * small_blind <= i64::MAX,
        ensures
            r@ == (PushFoldState {
                small_blind: small_blind as nat,
                eff_stack: eff_stack as nat,
                history: Seq::empty(),
            }),
            Self::valid(r@),
    {
        Self { small_blind, eff_stack, public_info_set: Vec::new() }
    }

    /// The small blind, in chips.
    pub fn small_blind(&self) -> (r: u64)
        ensures
            r == self@.small_blind,
    {
        self.small_blind
    }

    /// How the hand ends for `player` at this terminal node.
    pub fn outcome(&self, player: usize) -> (r: Outcome)
        requires
            Self::valid(self@),
            Self::terminal(self@),
            player < 2,
        ensures
            r == push_fold_outcome(self@, player as int),
    {
        let h = &self.public_info_set;
        if h[h.len() - 1] == 0 {
            let folder = (h.len() - 1) % 2;
            let committed: i64 = if folder == 0 {
                self.small_blind as i64
            } else {
                2 * (self.small_blind as i64)
            };
            if player == folder {
                Outcome::Fold(-committed)
            } else {
                Outcome::Fold(committed)
            }
        } else {
            Outcome::Showdown(self.eff_stack)
        }
    }
}

} // verus!
