//! Enumeration of the private hands of a 52-card deck.
//!
//! A hand is an unordered pair of distinct cards, written `(c1, c2)` with
//! `c1 < c2 < 52`. Hands are numbered in lexicographic order of that pair,
//! which gives every hand an index below 1326.

use vstd::prelude::*;

verus! {

/// Cards in the deck.
pub const NUM_CARDS: usize = 52;

/// Two-card hands that can be dealt from the deck.
pub const NUM_HANDS: usize = 1326;

/// Number of hands whose lower card is below `c1`.
pub open spec fn hands_before_row(c1: nat) -> nat
    decreases c1,
{
    if c1 == 0 {
        0
    } else {
        hands_before_row((c1 - 1) as nat) + (52 - c1) as nat
    }
}

/// Whether `(c1, c2)` names a hand.
pub open spec fn is_hand(c1: int, c2: int) -> bool {
    0 <= c1 < c2 < 52
}

/// Index of the hand `(c1, c2)`: the number of hands that come before it in
/// lexicographic order.
pub open spec fn hand_index_of(c1: int, c2: int) -> int {
    hands_before_row(c1 as nat) + (c2 - c1 - 1)
}

/// Whether two hands have no card in common.
pub open spec fn hands_disjoint(a: (int, int), b: (int, int)) -> bool {
    a.0 != b.0 && a.0 != b.1 && a.1 != b.0 && a.1 != b.1
}

/// The hand with index `k`, lower card first.
pub open spec fn hand_at(k: int) -> (int, int) {
    choose|h: (int, int)| is_hand(h.0, h.1) && hand_index_of(h.0, h.1) == k
}

/// Closed form of `hands_before_row`.
pub proof fn lemma_hands_before_row(c1: nat)
    requires
        c1 <= 52,
    ensures
        2 * hands_before_row(c1) == c1 * (103 - c1),
        hands_before_row(c1) <= 1326,
    decreases c1,
{
    if c1 > 0 {
        lemma_hands_before_row((c1 - 1) as nat);
        assert((c1 - 1) * (103 - (c1 - 1)) + 2 * (52 - c1) == c1 * (103 - c1))
            by (nonlinear_arith);
    }
    assert(c1 * (103 - c1) <= 2652) by (nonlinear_arith)
        requires
            c1 <= 52,
    ;
}

/// Rows start in increasing order.
pub proof fn lemma_hands_before_row_monotonic(a: nat, b: nat)
    requires
        a <= b <= 52,
    ensures
        hands_before_row(b) >= hands_before_row(a) + (b - a) * (52 - b),
    decreases b,
{
    if a < b {
        lemma_hands_before_row_monotonic(a, (b - 1) as nat);
        assert((b - 1 - a) * (52 - (b - 1)) + (52 - b) >= (b - a) * (52 - b))
            by (nonlinear_arith)
            requires
                a < b <= 52,
        ;
    } else {
        assert((b - a) * (52 - b) == 0) by (nonlinear_arith)
            requires
                a == b,
        ;
    }
}

/// Every hand has an index below 1326.
pub proof fn lemma_hand_index_bounds(c1: int, c2: int)
    requires
        is_hand(c1, c2),
    ensures
        0 <= hand_index_of(c1, c2) < 1326,
{
    lemma_hands_before_row((c1 + 1) as nat);
}

/// The numbering follows the lexicographic order of hands: a hand that comes
/// first as a pair has the smaller index. In particular no two hands share an
/// index.
pub proof fn lemma_hand_index_ordered(a1: int, a2: int, b1: int, b2: int)
    requires
        is_hand(a1, a2),
        is_hand(b1, b2),
        a1 < b1 || (a1 == b1 && a2 < b2),
    ensures
        hand_index_of(a1, a2) < hand_index_of(b1, b2),
{
    if a1 < b1 {
        lemma_hands_before_row_monotonic((a1 + 1) as nat, b1 as nat);
        assert((b1 - (a1 + 1)) * (52 - b1) >= 0) by (nonlinear_arith)
            requires
                a1 < b1 < 52,
        ;
    }
}

/// Two hands with the same index are the same hand.
pub proof fn lemma_hand_index_injective(a1: int, a2: int, b1: int, b2: int)
    requires
        is_hand(a1, a2),
        is_hand(b1, b2),
        hand_index_of(a1, a2) == hand_index_of(b1, b2),
    ensures
        a1 == b1,
        a2 == b2,
{
    if a1 < b1 || (a1 == b1 && a2 < b2) {
        lemma_hand_index_ordered(a1, a2, b1, b2);
    } else if b1 < a1 || (a1 == b1 && b2 < a2) {
        lemma_hand_index_ordered(b1, b2, a1, a2);
    }
}

/// `hand_at` undoes `hand_index_of`.
pub proof fn lemma_hand_at(c1: int, c2: int)
    requires
        is_hand(c1, c2),
    ensures
        hand_at(hand_index_of(c1, c2)) == (c1, c2),
{
    let h = hand_at(hand_index_of(c1, c2));
    assert(is_hand((c1, c2).0, (c1, c2).1) && hand_index_of((c1, c2).0, (c1, c2).1)
        == hand_index_of(c1, c2));
    lemma_hand_index_injective(h.0, h.1, c1, c2);
}

/// Every index below 1326 is the index of a hand, which `hand_at` gives.
pub proof fn lemma_hand_at_index(k: int)
    requires
        0 <= k < 1326,
    ensures
        is_hand(hand_at(k).0, hand_at(k).1),
        hand_index_of(hand_at(k).0, hand_at(k).1) == k,
{
    let c1 = row_of(k, 0);
    lemma_row_of(k, 0);
    let c2 = c1 + 1 + (k - hands_before_row(c1 as nat));
    assert(is_hand((c1, c2).0, (c1, c2).1) && hand_index_of((c1, c2).0, (c1, c2).1) == k);
}

/// The lower card of the hand with index `k`, searched from the row `from` on.
spec fn row_of(k: int, from: int) -> int
    decreases 51 - from,
{
    if from < 50 && k >= hands_before_row((from + 1) as nat) {
        row_of(k, from + 1)
    } else {
        from
    }
}

proof fn lemma_row_of(k: int, from: int)
    requires
        0 <= from <= 50,
        hands_before_row(from as nat) <= k < 1326,
    ensures
        from <= row_of(k, from) <= 50,
        hands_before_row(row_of(k, from) as nat) <= k < hands_before_row(
            (row_of(k, from) + 1) as nat,
        ),
    decreases 51 - from,
{
    if from < 50 && k >= hands_before_row((from + 1) as nat) {
        lemma_row_of(k, from + 1);
    } else if from == 50 {
        lemma_hands_before_row(51);
    }
}

/// The sum of the weights `w[k]` over the hands `k < n` of which `keep` holds.
pub open spec fn weight_of(w: Seq<int>, keep: spec_fn(int) -> bool, n: nat) -> int
    decreases n,
{
    if n == 0 {
        0
    } else {
        weight_of(w, keep, (n - 1) as nat) + if keep(n - 1) {
            w[n - 1]
        } else {
            0
        }
    }
}

/// Whether the hand with index `k` holds the card `c`.
pub open spec fn hand_holds(k: int, c: int) -> bool {
    hand_at(k).0 == c || hand_at(k).1 == c
}

/// Card removal. The weight of the hands that share no card with the hand
/// `(c1, c2)` is the weight of all hands, less that of the hands that hold
/// `c1`, less that of the hands that hold `c2`, plus that of the hand itself,
/// which was taken off twice.
pub proof fn lemma_card_removal(w: Seq<int>, c1: int, c2: int)
    requires
        w.len() == 1326,
        is_hand(c1, c2),
    ensures
        weight_of(w, |k: int| hands_disjoint(hand_at(k), (c1, c2)), 1326) == weight_of(
            w,
            |k: int| true,
            1326,
        ) - weight_of(w, |k: int| hand_holds(k, c1), 1326) - weight_of(
            w,
            |k: int| hand_holds(k, c2),
            1326,
        ) + w[hand_index_of(c1, c2)],
{
    lemma_hand_index_bounds(c1, c2);
    lemma_card_removal_upto(w, c1, c2, 1326);
}

proof fn lemma_card_removal_upto(w: Seq<int>, c1: int, c2: int, n: nat)
    requires
        w.len() == 1326,
        is_hand(c1, c2),
        n <= 1326,
    ensures
        weight_of(w, |k: int| hands_disjoint(hand_at(k), (c1, c2)), n) == weight_of(
            w,
            |k: int| true,
            n,
        ) - weight_of(w, |k: int| hand_holds(k, c1), n) - weight_of(
            w,
            |k: int| hand_holds(k, c2),
            n,
        ) + if hand_index_of(c1, c2) < n {
            w[hand_index_of(c1, c2)]
        } else {
            0
        },
    decreases n,
{
    if n > 0 {
        let k = n - 1;
        lemma_card_removal_upto(w, c1, c2, k as nat);
        lemma_hand_at_index(k);
        lemma_hand_at(c1, c2);
        let h = hand_at(k);
        if hand_holds(k, c1) && hand_holds(k, c2) {
            assert(h == (c1, c2));
        }
        if k == hand_index_of(c1, c2) {
            assert(h == (c1, c2));
        }
    }
}

/// Index of the hand made of the cards `c1 < c2`.
pub fn hand_index(c1: usize, c2: usize) -> (k: usize)
    requires
        is_hand(c1 as int, c2 as int),
    ensures
        k == hand_index_of(c1 as int, c2 as int),
        k < NUM_HANDS,
{
    proof {
        lemma_hands_before_row(c1 as nat);
        lemma_hand_index_bounds(c1 as int, c2 as int);
        assert(c1 * (103 - c1) <= 2652) by (nonlinear_arith)
            requires
                c1 <= 52,
        ;
    }
    c1 * (103 - c1) / 2 + (c2 - c1 - 1)
}

/// The two cards of the hand with index `k`, lower card first.
pub fn hand_cards(k: usize) -> (cards: (usize, usize))
    requires
        k < NUM_HANDS,
    ensures
        (cards.0 as int, cards.1 as int) == hand_at(k as int),
        is_hand(cards.0 as int, cards.1 as int),
        hand_index_of(cards.0 as int, cards.1 as int) == k,
{
    let mut c1: usize = 0;
    let mut start: usize = 0;
    proof {
        lemma_hands_before_row(51);
    }
    while k - start >= 51 - c1
        invariant
            c1 <= 50,
            start == hands_before_row(c1 as nat),
            start <= k < NUM_HANDS,
        decreases 51 - c1,
    {
        proof {
            lemma_hands_before_row((c1 + 1) as nat);
            if c1 == 50 {
                lemma_hands_before_row(51);
            }
        }
        start = start + (51 - c1);
        c1 = c1 + 1;
    }
    let c2 = c1 + 1 + (k - start);
    proof {
        lemma_hand_at(c1 as int, c2 as int);
    }
    (c1, c2)
}

/// Whether the hands `a` and `b`, each given by its two cards, share no card.
pub fn hands_are_disjoint(a: (usize, usize), b: (usize, usize)) -> (r: bool)
    ensures
        r == hands_disjoint((a.0 as int, a.1 as int), (b.0 as int, b.1 as int)),
{
    a.0 != b.0 && a.0 != b.1 && a.1 != b.0 && a.1 != b.1
}

} // verus!
