//! Heads-up pre-flop play with a small set of bet sizes.
//!
//! Action 0 is fold, 1 is call, 2 raises to three times the current bet, 3 to
//! four times, and 4 goes all-in. A raise never exceeds the effective stack:
//! a bet that would is an all-in. How many of the five actions are open
//! depends on how the stack compares with the current bet. Player 0 posts the
//! small blind, player 1 the big blind, which is twice the small blind.

use crate::game_node::{GameNode, PublicInfoSet};
use crate::payoff::{fold_swing, outcomes_balance, Outcome};
use vstd::prelude::*;

verus! {

/// A node of the pre-flop tree.
#[derive(Debug)]
pub struct PreflopNode {
    small_blind: u64,
    prev_bet: u64,
    cur_bet: u64,
    eff_stack: u64,
    public_info_set: PublicInfoSet,
}

/// Mathematical description of a pre-flop node. Amounts are in chips.
pub struct PreflopState {
    /// The small blind.
    pub small_blind: nat,
    /// What the acting player has put in so far.
    pub prev_bet: nat,
    /// The bet that the acting player faces.
    pub cur_bet: nat,
    /// The effective stack.
    pub eff_stack: nat,
    /// The actions taken so far.
    pub history: Seq<u8>,
}

/// The factor by which an action multiplies the current bet.
pub open spec fn raise_factor(action: nat) -> nat {
    if action == 2 {
        3
    } else if action == 3 {
        4
    } else {
        1
    }
}

/// The bet after `action`, which is not a fold, at a current bet of `cur_bet`.
pub open spec fn bet_after(cur_bet: nat, eff_stack: nat, action: nat) -> nat {
    if action == 4 || cur_bet * raise_factor(action) > eff_stack {
        eff_stack
    } else {
        cur_bet * raise_factor(action)
    }
}

/// Number of actions open at a current bet of `cur_bet`: fold and call, a
/// third action if the stack is more than the bet, a fourth if it is more than
/// three times the bet, a fifth if it is more than four times the bet.
pub open spec fn preflop_fan_out(cur_bet: nat, eff_stack: nat) -> nat {
    let third: nat = if eff_stack > cur_bet {
        1
    } else {
        0
    };
    let fourth: nat = if eff_stack > 3 * cur_bet {
        1
    } else {
        0
    };
    let fifth: nat = if eff_stack > 4 * cur_bet {
        1
    } else {
        0
    };
    2 + third + fourth + fifth
}

/// The game is over after a fold, and after a call that is not the small
/// blind's opening call.
pub open spec fn preflop_terminal(h: Seq<u8>) -> bool {
    h.len() > 0 && (h.last() == 0 || (h.last() == 1 && h.len() >= 2))
}

/// How the hand ends for `player` at a terminal node. The player who acted
/// last and folded loses what that player had put in; at a showdown the
/// current bet is at stake.
pub open spec fn preflop_outcome(m: PreflopState, player: int) -> Outcome {
    if m.history.last() == 0 {
        let folder = (m.history.len() - 1) % 2;
        Outcome::Fold(fold_swing(folder, player, m.prev_bet as int) as i64)
    } else {
        Outcome::Showdown(m.cur_bet as u64)
    }
}

/// The larger of the big blind and the stack: no bet exceeds it.
pub open spec fn bet_limit(eff_stack: nat, small_blind: nat) -> nat {
    if eff_stack > 2 * small_blind {
        eff_stack
    } else {
        2 * small_blind
    }
}

/// At every terminal node the outcomes of the two players balance.
pub proof fn lemma_preflop_zero_sum(m: PreflopState)
    requires
        PreflopNode::valid(m),
        preflop_terminal(m.history),
    ensures
        outcomes_balance(preflop_outcome(m, 0), preflop_outcome(m, 1)),
{
}

/// The highest raise that is open is an all-in, and the player who faces an
/// all-in can only fold or call.
pub proof fn lemma_highest_raise_is_all_in(m: PreflopState, action: nat)
    requires
        PreflopNode::valid(m),
        !preflop_terminal(m.history),
        action >= 2,
        action + 1 == preflop_fan_out(m.cur_bet, m.eff_stack),
    ensures
        PreflopNode::successor(m, action).cur_bet == m.eff_stack,
        PreflopNode::fan_out(PreflopNode::successor(m, action)) == 2,
{
    let s = PreflopNode::successor(m, action);
    assert(s.cur_bet == m.eff_stack);
    assert(s.eff_stack == m.eff_stack);
    assert(preflop_fan_out(m.eff_stack, m.eff_stack) == 2);
}

/// No raise that is open lowers the bet, and none takes it past the stack.
pub proof fn lemma_raise_within_stack(m: PreflopState, action: nat)
    requires
        PreflopNode::valid(m),
        !preflop_terminal(m.history),
        2 <= action < preflop_fan_out(m.cur_bet, m.eff_stack),
    ensures
        m.cur_bet < PreflopNode::successor(m, action).cur_bet <= m.eff_stack,
        PreflopNode::successor(m, action).prev_bet == m.cur_bet,
{
    if action != 4 {
        let factor = raise_factor(action);
        assert(m.cur_bet * factor > m.cur_bet) by (nonlinear_arith)
            requires
                m.cur_bet >= 2,
                factor >= 3,
        ;
    }
}

/// What a chip is worth does not matter to the number of actions: with
/// `scale` times as many chips in the bet and in the stack it is the same.
pub proof fn lemma_fan_out_scales(cur_bet: nat, eff_stack: nat, scale: nat)
    requires
        scale >= 1,
    ensures
        preflop_fan_out(scale * cur_bet, scale * eff_stack) == preflop_fan_out(cur_bet, eff_stack),
{
    assert(scale * eff_stack > scale * cur_bet <==> eff_stack > cur_bet) by (nonlinear_arith)
        requires
            scale >= 1,
    ;
    assert(scale * eff_stack > 3 * (scale * cur_bet) <==> eff_stack > 3 * cur_bet)
        by (nonlinear_arith)
        requires
            scale >= 1,
    ;
    assert(scale * eff_stack > 4 * (scale * cur_bet) <==> eff_stack > 4 * cur_bet)
        by (nonlinear_arith)
        requires
            scale >= 1,
    ;
}

impl View for PreflopNode {
    type V = PreflopState;

    closed spec fn view(&self) -> PreflopState {
        PreflopState {
            small_blind: self.small_blind as nat,
            prev_bet: self.prev_bet as nat,
            cur_bet: self.cur_bet as nat,
            eff_stack: self.eff_stack as nat,
            history: self.public_info_set@,
        }
    }
}

impl Clone for PreflopNode {
    fn clone(&self) -> (r: Self)
        ensures
            r@ == self@,
    {
        PreflopNode {
            small_blind: self.small_blind,
            prev_bet: self.prev_bet,
            cur_bet: self.cur_bet,
            eff_stack: self.eff_stack,
            public_info_set: self.public_info_set.clone(),
        }
    }
}

impl GameNode for PreflopNode {
    open spec fn valid(m: PreflopState) -> bool {
        &&& m.small_blind >= 1
        &&& 2 * m.small_blind <= i64::MAX
        &&& m.eff_stack <= i64::MAX
        &&& m.cur_bet >= 2 * m.small_blind || m.cur_bet == m.eff_stack
        &&& m.cur_bet <= bet_limit(m.eff_stack, m.small_blind)
        &&& m.prev_bet <= bet_limit(m.eff_stack, m.small_blind)
        &&& forall|i: int| 0 <= i < m.history.len() ==> m.history[i] < 5
    }

    open spec fn history(m: PreflopState) -> Seq<u8> {
        m.history
    }

    open spec fn terminal(m: PreflopState) -> bool {
        preflop_terminal(m.history)
    }

    open spec fn to_act(m: PreflopState) -> nat {
        m.history.len() % 2
    }

    open spec fn fan_out(m: PreflopState) -> nat {
        preflop_fan_out(m.cur_bet, m.eff_stack)
    }

    open spec fn hand_count(m: PreflopState) -> nat {
        1326
    }

    open spec fn successor(m: PreflopState, action: nat) -> PreflopState {
        if action == 0 {
            PreflopState { history: m.history.push(0), ..m }
        } else {
            PreflopState {
                prev_bet: m.cur_bet,
                cur_bet: bet_after(m.cur_bet, m.eff_stack, action),
                history: m.history.push(action as u8),
                ..m
            }
        }
    }

    open spec fn depth_left(m: PreflopState) -> nat {
        if preflop_terminal(m.history) {
            0
        } else {
            let room: nat = if m.eff_stack > m.cur_bet {
                (m.eff_stack - m.cur_bet) as nat
            } else {
                0
            };
            let opening: nat = if m.history.len() == 0 {
                2
            } else {
                1
            };
            2 * room + opening
        }
    }

    proof fn lemma_decision_point(m: PreflopState) {
    }

    proof fn lemma_successor(m: PreflopState, action: nat) {
        let s = Self::successor(m, action);
        assert(action < 5);
        assert(s.history == m.history.push(action as u8));
        assert(s.history.last() == action as u8);
        assert forall|i: int| 0 <= i < s.history.len() implies s.history[i] < 5 by {
            if i < m.history.len() {
                assert(s.history[i] == m.history[i]);
            }
        }
        if action == 2 || action == 3 {
            let factor = raise_factor(action);
            assert(m.eff_stack > m.cur_bet);
            assert(m.cur_bet * factor > m.cur_bet) by (nonlinear_arith)
                requires
                    m.cur_bet >= 2,
                    factor >= 3,
            ;
        }
        if action == 1 {
            assert(m.cur_bet * raise_factor(action) == m.cur_bet) by (nonlinear_arith)
                requires
                    raise_factor(action) == 1,
            ;
        }
    }

    fn is_terminal_node(&self) -> (r: bool) {
        let h = &self.public_info_set;
        h.len() > 0 && (h[h.len() - 1] == 0 || (h[h.len() - 1] == 1 && h.len() >= 2))
    }

    fn current_player(&self) -> (r: usize) {
        self.public_info_set.len() % 2
    }

    fn num_actions(&self) -> (r: usize) {
        let stack: u128 = self.eff_stack as u128;
        let bet: u128 = self.cur_bet as u128;
        let mut ret: usize = 2;
        if stack > bet {
            ret = ret + 1;
        }
        if stack > 3 * bet {
            ret = ret + 1;
        }
        if stack > 4 * bet {
            ret = ret + 1;
        }
        ret
    }

    fn actions(&self) -> (r: std::ops::Range<usize>) {
        0..self.num_actions()
    }

    fn play(&self, action: usize) -> (r: Self) {
        proof {
            Self::lemma_successor(self@, action as nat);
        }
        let mut ret = self.clone();
        if action > 0 {
            let factor: u128 = if action == 2 {
                3
            } else if action == 3 {
                4
            } else {
                1
            };
            let raised: u128 = self.cur_bet as u128 * factor;
            ret.prev_bet = self.cur_bet;
            if action == 4 || raised > self.eff_stack as u128 {
                ret.cur_bet = self.eff_stack;
            } else {
                ret.cur_bet = raised as u64;
            }
        }
        ret.public_info_set.push(action as u8);
        ret
    }

    fn public_info_set(&self) -> (r: &PublicInfoSet) {
        &self.public_info_set
    }

    fn private_info_set_len(&self) -> (r: usize) {
        52 * 51 / 2
    }
}

impl PreflopNode {
    /// The root of the game with an effective stack of `eff_stack` chips and
    /// a small blind of `small_blind` chips: the small blind has been posted
    /// and faces the big blind. Neither the stack nor the big blind may be
    /// more than `i64::MAX` chips.
    pub fn new(eff_stack: u64, small_blind: u64) -> (r: Self)
        requires
            small_blind >= 1,
            2 * small_blind <= i64::MAX,
            eff_stack <= i64::MAX,
        ensures
            r@ == (PreflopState {
                small_blind: small_blind as nat,
                prev_bet: small_blind as nat,
                cur_bet: 2 * small_blind as nat,
                eff_stack: eff_stack as nat,
                history: Seq::empty(),
            }),
            Self::valid(r@),
    {
        Self {
            small_blind,
            prev_bet: small_blind,
            cur_bet: 2 * small_blind,
            eff_stack,
            public_info_set: Vec::new(),
        }
    }

    /// The small blind, in chips.
    pub fn small_blind(&self) -> (r: u64)
        ensures
            r == self@.small_blind,
    {
        self.small_blind
    }

    /// How the hand ends for `player` at this terminal node.
    pub fn outcome(&self, player: usize) -> (r: Outcome)
        requires
            Self::valid(self@),
            Self::terminal(self@),
            player < 2,
        ensures
            r == preflop_outcome(self@, player as int),
    {
        let h = &self.public_info_set;
        if h[h.len() - 1] == 0 {
            let committed: i64 = self.prev_bet as i64;
            if player == (h.len() - 1) % 2 {
                Outcome::Fold(-committed)
            } else {
                Outcome::Fold(committed)
            }
        } else {
            Outcome::Showdown(self.cur_bet)
        }
    }
}

} // verus!
