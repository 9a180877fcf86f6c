//! The 13 by 13 grid in which a strategy over all hands is summarised.
//!
//! A card is four times its rank plus its suit. A hand falls into the cell of
//! its two ranks: suited hands above the diagonal, row for the lower rank;
//! pairs on the diagonal; unsuited hands of two ranks below it, row for the
//! higher rank.

use crate::hands::is_hand;
use vstd::prelude::*;

verus! {

/// Ranks of a suit, and rows and columns of the grid.
pub const NUM_RANKS: usize = 13;

/// The cell, as row and column, of the hand `(c1, c2)`.
pub open spec fn cell_of(c1: int, c2: int) -> (int, int) {
    if c1 % 4 == c2 % 4 {
        (c1 / 4, c2 / 4)
    } else {
        (c2 / 4, c1 / 4)
    }
}

/// Number of hands in the cell at `row` and `col`: six pairs of a rank, four
/// suited hands of two ranks, twelve unsuited ones.
pub open spec fn cell_size_of(row: int, col: int) -> int {
    if row == col {
        6
    } else if row < col {
        4
    } else {
        12
    }
}

/// The hands that fall into the cell at `row` and `col`.
pub open spec fn hands_in_cell(row: int, col: int) -> Set<(int, int)> {
    Set::new(|h: (int, int)| is_hand(h.0, h.1) && cell_of(h.0, h.1) == (row, col))
}

/// The cell, as row and column, of the hand made of the cards `c1 < c2`.
pub fn hand_cell(c1: usize, c2: usize) -> (cell: (usize, usize))
    requires
        is_hand(c1 as int, c2 as int),
    ensures
        (cell.0 as int, cell.1 as int) == cell_of(c1 as int, c2 as int),
        cell.0 < NUM_RANKS,
        cell.1 < NUM_RANKS,
{
    if c1 % 4 == c2 % 4 {
        (c1 / 4, c2 / 4)
    } else {
        (c2 / 4, c1 / 4)
    }
}

/// Number of hands in the cell at `row` and `col`.
pub fn cell_size(row: usize, col: usize) -> (n: u32)
    ensures
        n == cell_size_of(row as int, col as int),
{
    if row == col {
        6
    } else if row < col {
        4
    } else {
        12
    }
}

/// Suited hands lie above the diagonal, pairs on it and unsuited hands of two
/// ranks below it.
pub proof fn lemma_cell_position(c1: int, c2: int)
    requires
        is_hand(c1, c2),
    ensures
        0 <= cell_of(c1, c2).0 < 13,
        0 <= cell_of(c1, c2).1 < 13,
        c1 % 4 == c2 % 4 <==> cell_of(c1, c2).0 < cell_of(c1, c2).1,
        c1 / 4 == c2 / 4 <==> cell_of(c1, c2).0 == cell_of(c1, c2).1,
{
}

/// `cell_size_of` is the number of hands in a cell.
pub proof fn lemma_cell_size(row: int, col: int)
    requires
        0 <= row < 13,
        0 <= col < 13,
    ensures
        hands_in_cell(row, col).finite(),
        hands_in_cell(row, col).len() == cell_size_of(row, col),
{
    let a = 4 * row;
    let b = 4 * col;
    let cell = hands_in_cell(row, col);
    if row < col {
        let listed = set![(a, b), (a + 1, b + 1), (a + 2, b + 2), (a + 3, b + 3)];
        assert(cell =~= listed);
    } else if row == col {
        let listed = set![
            (a, a + 1),
            (a, a + 2),
            (a, a + 3),
            (a + 1, a + 2),
            (a + 1, a + 3),
            (a + 2, a + 3),
        ];
        assert(cell =~= listed);
    } else {
        let listed = set![
            (b, a + 1),
            (b, a + 2),
            (b, a + 3),
            (b + 1, a),
            (b + 1, a + 2),
            (b + 1, a + 3),
            (b + 2, a),
            (b + 2, a + 1),
            (b + 2, a + 3),
            (b + 3, a),
            (b + 3, a + 1),
            (b + 3, a + 2),
        ];
        assert(cell =~= listed);
    }
}

} // verus!
