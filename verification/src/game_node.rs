//! The interface between a game and the solver.
//!
//! A game is a tree of nodes. The solver walks it through `GameNode`: it asks
//! a node whether it is terminal, who acts, how many actions there are, and
//! for the node that an action leads to. The view of a node is its
//! mathematical description, and every answer is a function of that view.

use vstd::prelude::*;

verus! {

/// The public action history that identifies a decision point.
pub type PublicInfoSet = Vec<u8>;

/// A node of a two-player game tree.
pub trait GameNode: View + Sized {
    /// Whether `m` describes a node of this game. It holds of the root, and a
    /// legal action keeps it.
    spec fn valid(m: Self::V) -> bool;

    /// The public action history of the node.
    spec fn history(m: Self::V) -> Seq<u8>;

    /// Whether the game is over at the node.
    spec fn terminal(m: Self::V) -> bool;

    /// The player to act at the node, 0 or 1.
    spec fn to_act(m: Self::V) -> nat;

    /// Number of actions open to the acting player.
    spec fn fan_out(m: Self::V) -> nat;

    /// Number of private hands a player can hold.
    spec fn hand_count(m: Self::V) -> nat;

    /// The node that `action` leads to.
    spec fn successor(m: Self::V, action: nat) -> Self::V;

    /// An upper bound on the number of actions left until the game ends.
    spec fn depth_left(m: Self::V) -> nat;

    /// A decision point has between 1 and 256 actions and one of the two
    /// players acts at it.
    proof fn lemma_decision_point(m: Self::V)
        requires
            Self::valid(m),
            !Self::terminal(m),
        ensures
            1 <= Self::fan_out(m) <= 256,
            Self::to_act(m) < 2,
    ;

    /// Playing a legal action leads to a reachable node of the same game,
    /// one step closer to the end, whose history is extended by the action.
    proof fn lemma_successor(m: Self::V, action: nat)
        requires
            Self::valid(m),
            !Self::terminal(m),
            action < Self::fan_out(m),
        ensures
            Self::valid(Self::successor(m, action)),
            Self::history(Self::successor(m, action)) == Self::history(m).push(action as u8),
            Self::hand_count(Self::successor(m, action)) == Self::hand_count(m),
            Self::depth_left(Self::successor(m, action)) < Self::depth_left(m),
    ;

    /// Returns whether the current node is a terminal node.
    fn is_terminal_node(&self) -> (r: bool)
        requires
            Self::valid(self@),
        ensures
            r == Self::terminal(self@),
    ;

    /// Returns the current player's index.
    fn current_player(&self) -> (r: usize)
        requires
            Self::valid(self@),
        ensures
            r == Self::to_act(self@),
    ;

    /// Returns the number of possible actions.
    fn num_actions(&self) -> (r: usize)
        requires
            Self::valid(self@),
        ensures
            r == Self::fan_out(self@),
    ;

    /// Returns the set of valid actions, `0..num_actions()`.
    fn actions(&self) -> (r: std::ops::Range<usize>)
        requires
            Self::valid(self@),
        ensures
            r.start == 0,
            r.end == Self::fan_out(self@),
    ;

    /// Plays `action` and returns the node after it.
    fn play(&self, action: usize) -> (r: Self)
        requires
            Self::valid(self@),
            !Self::terminal(self@),
            action < Self::fan_out(self@),
        ensures
            r@ == Self::successor(self@, action as nat),
            Self::valid(r@),
    ;

    /// Returns the public information set.
    fn public_info_set(&self) -> (r: &PublicInfoSet)
        requires
            Self::valid(self@),
        ensures
            r@ == Self::history(self@),
    ;

    /// Returns the length of the private information set.
    fn private_info_set_len(&self) -> (r: usize)
        requires
            Self::valid(self@),
        ensures
            r == Self::hand_count(self@),
    ;
}

} // verus!
