//! Building blocks of a CFR+ solver for small two-player poker games.
//!
//! - `game_node`: the interface between a game and the solver;
//! - `game_kuhn`, `game_push_fold`, `game_preflop`: the trees of Kuhn poker, of
//!   a heads-up push/fold endgame and of a heads-up pre-flop abstraction;
//! - `payoff`: how a hold'em hand ends and what is at stake;
//! - `hands`: the enumeration of the two-card hands, and card removal;
//! - `equity`: the pre-flop equity table and its file format;
//! - `tree`: the decision points of a game, by which the accumulator tables
//!   of the solver are keyed;
//! - `summary`: the grid of ranks in which a strategy is summarised;
//! - `checkpoint`: when a training run saves its running result.
//!
//! Everything here is exact integer logic. Stacks, bets and payoffs are
//! counted in whole chips. A hold'em game is made with its stack and its small
//! blind in chips, so the caller decides what a chip is worth.

pub mod checkpoint;
pub mod equity;
pub mod game_kuhn;
pub mod game_node;
pub mod game_preflop;
pub mod game_push_fold;
pub mod hands;
pub mod payoff;
pub mod summary;
pub mod tree;
