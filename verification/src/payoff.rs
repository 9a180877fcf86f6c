//! How a hold'em hand ends, and what is at stake when it does.
//!
//! Amounts are whole chips. What a chip is worth is the caller's choice: a
//! game is made with its small blind in chips, and the big blind is twice
//! that. With a small blind of one chip a stack of ten big blinds is twenty
//! chips; with a small blind of two chips a stack of ten and a quarter big
//! blinds is forty-one.

use vstd::prelude::*;

verus! {

/// The end of a hand, seen by one of the two players. Amounts are in chips.
#[derive(Clone, Copy, Debug, PartialEq, Eq, Structural)]
pub enum Outcome {
    /// Somebody folded. The player wins this amount whatever the cards are;
    /// it is negative for the player who folded.
    Fold(i64),
    /// The cards decide. A player who wins the showdown wins this amount, a
    /// player who loses it loses this amount.
    Showdown(u64),
}

/// What the player who stays in wins, and the player who folds loses, when
/// the folder has put `committed` chips in.
pub open spec fn fold_swing(folder: int, player: int, committed: int) -> int {
    if player == folder {
        -committed
    } else {
        committed
    }
}

/// The blind that a player posts: the small blind for player 0, twice that,
/// the big blind, for player 1.
pub open spec fn blind_of(player: int, small_blind: int) -> int {
    if player == 0 {
        small_blind
    } else {
        2 * small_blind
    }
}

/// Whether the outcomes of the two players balance: after a fold one wins
/// what the other loses, and at a showdown both play for the same stake.
pub open spec fn outcomes_balance(first: Outcome, second: Outcome) -> bool {
    match (first, second) {
        (Outcome::Fold(a), Outcome::Fold(b)) => a + b == 0,
        (Outcome::Showdown(a), Outcome::Showdown(b)) => a == b,
        _ => false,
    }
}

} // verus!
