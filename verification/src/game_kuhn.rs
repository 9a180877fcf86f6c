//! Kuhn poker: three cards, one each, one bet of one chip.
//!
//! Action 0 is check or fold, action 1 is bet or call. The cards Jack, Queen
//! and King are the hands 0, 1 and 2.

use crate::game_node::{GameNode, PublicInfoSet};
use vstd::prelude::*;

verus! {

/// A node of the Kuhn poker tree.
#[derive(Debug)]
pub struct KuhnNode {
    public_info_set: PublicInfoSet,
}

/// The histories that can arise in Kuhn poker: up to two actions, or check,
/// bet and an answer.
pub open spec fn kuhn_reachable(h: Seq<u8>) -> bool {
    &&& h.len() <= 3
    &&& forall|i: int| 0 <= i < h.len() ==> h[i] < 2
    &&& h.len() == 3 ==> h[0] == 0 && h[1] == 1
}

/// The game is over after two actions, unless they are check and bet, and
/// after three.
pub open spec fn kuhn_terminal(h: Seq<u8>) -> bool {
    if h.len() == 2 {
        !(h[0] == 0 && h[1] == 1)
    } else {
        h.len() == 3
    }
}

/// What `player` wins at a terminal history, holding `my_card` against
/// `opp_card`: one chip at a showdown after two checks, one chip from a player
/// who folded, two chips at a showdown after a call.
pub open spec fn kuhn_payoff(h: Seq<u8>, player: int, my_card: int, opp_card: int) -> int {
    if h.len() == 2 && h[0] == 0 && h[1] == 0 {
        if my_card > opp_card {
            1
        } else {
            -1
        }
    } else if h.len() > 0 && h.last() == 0 {
        if h.len() % 2 == player {
            1
        } else {
            -1
        }
    } else {
        if my_card > opp_card {
            2
        } else {
            -2
        }
    }
}

/// What one player wins at a terminal history the other loses.
pub proof fn lemma_kuhn_zero_sum(h: Seq<u8>, card0: int, card1: int)
    requires
        kuhn_reachable(h),
        kuhn_terminal(h),
        card0 != card1,
    ensures
        kuhn_payoff(h, 0, card0, card1) + kuhn_payoff(h, 1, card1, card0) == 0,
{
}

/// The name of a decision point, as shown to the user.
pub open spec fn kuhn_info_set_name(h: Seq<u8>) -> Seq<char> {
    if h.len() == 0 {
        "(Empty)"@
    } else if h.len() == 1 && h[0] == 0 {
        "Check"@
    } else if h.len() == 1 {
        "Bet"@
    } else {
        "Check => Bet"@
    }
}

impl View for KuhnNode {
    type V = Seq<u8>;

    closed spec fn view(&self) -> Seq<u8> {
        self.public_info_set@
    }
}

impl Clone for KuhnNode {
    fn clone(&self) -> (r: Self)
        ensures
            r@ == self@,
    {
        KuhnNode { public_info_set: self.public_info_set.clone() }
    }
}

impl GameNode for KuhnNode {
    open spec fn valid(m: Seq<u8>) -> bool {
        kuhn_reachable(m)
    }

    open spec fn history(m: Seq<u8>) -> Seq<u8> {
        m
    }

    open spec fn terminal(m: Seq<u8>) -> bool {
        kuhn_terminal(m)
    }

    open spec fn to_act(m: Seq<u8>) -> nat {
        m.len() % 2
    }

    open spec fn fan_out(m: Seq<u8>) -> nat {
        2
    }

    open spec fn hand_count(m: Seq<u8>) -> nat {
        3
    }

    open spec fn successor(m: Seq<u8>, action: nat) -> Seq<u8> {
        m.push(action as u8)
    }

    open spec fn depth_left(m: Seq<u8>) -> nat {
        (3 - m.len()) as nat
    }

    proof fn lemma_decision_point(m: Seq<u8>) {
    }

    proof fn lemma_successor(m: Seq<u8>, action: nat) {
    }

    fn is_terminal_node(&self) -> (r: bool) {
        let h = &self.public_info_set;
        if h.len() == 2 {
            !(h[0] == 0 && h[1] == 1)
        } else {
            h.len() == 3
        }
    }

    fn current_player(&self) -> (r: usize) {
        self.public_info_set.len() % 2
    }

    fn num_actions(&self) -> (r: usize) {
        2
    }

    fn actions(&self) -> (r: std::ops::Range<usize>) {
        0..self.num_actions()
    }

    fn play(&self, action: usize) -> (r: Self) {
        proof {
            Self::lemma_successor(self@, action as nat);
        }
        let mut ret = self.clone();
        ret.public_info_set.push(action as u8);
        ret
    }

    fn public_info_set(&self) -> (r: &PublicInfoSet) {
        &self.public_info_set
    }

    fn private_info_set_len(&self) -> (r: usize) {
        3
    }
}

impl KuhnNode {
    /// The root of the game: nobody has acted.
    pub fn new() -> (r: Self)
        ensures
            r@ == Seq::<u8>::empty(),
            kuhn_reachable(r@),
    {
        Self { public_info_set: Vec::new() }
    }

    /// The name of the decision point `info_set`.
    pub fn public_info_set_str(info_set: &PublicInfoSet) -> (r: String)
        requires
            kuhn_reachable(info_set@),
            !kuhn_terminal(info_set@),
        ensures
            r@ == kuhn_info_set_name(info_set@),
    {
        if info_set.len() == 0 {
            "(Empty)".to_owned()
        } else if info_set.len() == 1 && info_set[0] == 0 {
            "Check".to_owned()
        } else if info_set.len() == 1 {
            "Bet".to_owned()
        } else {
            "Check => Bet".to_owned()
        }
    }

    /// What `player` wins at this terminal node, holding `my_card` against
    /// `opp_card`.
    pub fn payoff(&self, player: usize, my_card: usize, opp_card: usize) -> (r: i64)
        requires
            kuhn_reachable(self@),
            kuhn_terminal(self@),
        ensures
            r == kuhn_payoff(self@, player as int, my_card as int, opp_card as int),
    {
        let h = &self.public_info_set;
        if h.len() == 2 && h[0] == 0 && h[1] == 0 {
            if my_card > opp_card {
                1
            } else {
                -1
            }
        } else if h[h.len() - 1] == 0 {
            if h.len() % 2 == player {
                1
            } else {
                -1
            }
        } else {
            if my_card > opp_card {
                2
            } else {
                -2
            }
        }
    }
}

} // verus!
