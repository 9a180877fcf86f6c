use poker_cfr::game_node::GameNode;
use poker_cfr::game_push_fold::PushFoldNode;
use poker_cfr::payoff::Outcome;

#[test]
fn push_fold_root() {
    let root = PushFoldNode::new(20, 1);
    assert!(!root.is_terminal_node());
    assert_eq!(root.current_player(), 0);
    assert_eq!(root.num_actions(), 2);
    assert_eq!(root.actions(), 0..2);
    assert_eq!(root.private_info_set_len(), 1326);
    assert!(root.public_info_set().is_empty());
}

#[test]
fn push_fold_terminal_nodes() {
    let root = PushFoldNode::new(20, 1);
    assert!(root.play(0).is_terminal_node());
    let shove = root.play(1);
    assert!(!shove.is_terminal_node());
    assert_eq!(shove.current_player(), 1);
    assert_eq!(shove.public_info_set(), &vec![1u8]);
    assert!(shove.play(0).is_terminal_node());
    assert!(shove.play(1).is_terminal_node());
}

#[test]
fn push_fold_small_blind_fold_costs_one_chip() {
    let n = PushFoldNode::new(20, 1).play(0);
    assert_eq!(n.outcome(0), Outcome::Fold(-1));
    assert_eq!(n.outcome(1), Outcome::Fold(1));
}

#[test]
fn push_fold_big_blind_fold_costs_two_chips() {
    let n = PushFoldNode::new(20, 1).play(1).play(0);
    assert_eq!(n.outcome(0), Outcome::Fold(2));
    assert_eq!(n.outcome(1), Outcome::Fold(-2));
}

#[test]
fn push_fold_call_puts_the_stack_at_stake() {
    let n = PushFoldNode::new(20, 1).play(1).play(1);
    assert_eq!(n.outcome(0), Outcome::Showdown(20));
    assert_eq!(n.outcome(1), Outcome::Showdown(20));
    let m = PushFoldNode::new(31, 1).play(1).play(1);
    assert_eq!(m.outcome(0), Outcome::Showdown(31));
}

#[test]
fn push_fold_outcomes_balance() {
    let root = PushFoldNode::new(20, 1);
    for n in [root.play(0), root.play(1).play(0), root.play(1).play(1)] {
        match (n.outcome(0), n.outcome(1)) {
            (Outcome::Fold(a), Outcome::Fold(b)) => assert_eq!(a + b, 0),
            (Outcome::Showdown(a), Outcome::Showdown(b)) => assert_eq!(a, b),
            other => panic!("the two players see different ends: {:?}", other),
        }
    }
}

#[test]
fn push_fold_blinds_follow_the_chip_size() {
    // ten and a quarter big blinds, in chips of a quarter big blind
    let root = PushFoldNode::new(41, 2);
    assert_eq!(root.small_blind(), 2);
    assert_eq!(root.play(0).outcome(0), Outcome::Fold(-2));
    assert_eq!(root.play(0).outcome(1), Outcome::Fold(2));
    assert_eq!(root.play(1).play(0).outcome(0), Outcome::Fold(4));
    assert_eq!(root.play(1).play(0).outcome(1), Outcome::Fold(-4));
    assert_eq!(root.play(1).play(1).outcome(0), Outcome::Showdown(41));
}
