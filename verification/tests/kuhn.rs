use poker_cfr::game_kuhn::KuhnNode;
use poker_cfr::game_node::GameNode;

fn kuhn_at(actions: &[usize]) -> KuhnNode {
    let mut n = KuhnNode::new();
    for a in actions {
        n = n.play(*a);
    }
    n
}

#[test]
fn kuhn_root_is_a_decision_of_the_first_player() {
    let root = KuhnNode::new();
    assert!(!root.is_terminal_node());
    assert_eq!(root.current_player(), 0);
    assert_eq!(root.num_actions(), 2);
    assert_eq!(root.actions(), 0..2);
    assert_eq!(root.private_info_set_len(), 3);
    assert!(root.public_info_set().is_empty());
}

#[test]
fn kuhn_play_appends_the_action() {
    let n = kuhn_at(&[0, 1]);
    assert_eq!(n.public_info_set(), &vec![0u8, 1u8]);
    assert_eq!(n.current_player(), 0);
    let m = kuhn_at(&[1]);
    assert_eq!(m.public_info_set(), &vec![1u8]);
    assert_eq!(m.current_player(), 1);
}

#[test]
fn kuhn_play_leaves_the_parent_unchanged() {
    let root = KuhnNode::new();
    let _child = root.play(1);
    assert!(root.public_info_set().is_empty());
}

#[test]
fn kuhn_terminal_nodes() {
    assert!(!kuhn_at(&[]).is_terminal_node());
    assert!(!kuhn_at(&[0]).is_terminal_node());
    assert!(!kuhn_at(&[1]).is_terminal_node());
    assert!(kuhn_at(&[0, 0]).is_terminal_node());
    assert!(!kuhn_at(&[0, 1]).is_terminal_node());
    assert!(kuhn_at(&[1, 0]).is_terminal_node());
    assert!(kuhn_at(&[1, 1]).is_terminal_node());
    assert!(kuhn_at(&[0, 1, 0]).is_terminal_node());
    assert!(kuhn_at(&[0, 1, 1]).is_terminal_node());
}

#[test]
fn kuhn_payoff_after_two_checks_is_one_chip_for_the_higher_card() {
    let n = kuhn_at(&[0, 0]);
    assert_eq!(n.payoff(0, 2, 0), 1);
    assert_eq!(n.payoff(0, 0, 2), -1);
    assert_eq!(n.payoff(1, 1, 0), 1);
    assert_eq!(n.payoff(1, 1, 2), -1);
}

#[test]
fn kuhn_payoff_after_a_fold_goes_to_the_bettor() {
    // bet, fold: the first player bet
    let n = kuhn_at(&[1, 0]);
    assert_eq!(n.payoff(0, 0, 2), 1);
    assert_eq!(n.payoff(1, 2, 0), -1);
    // check, bet, fold: the second player bet
    let m = kuhn_at(&[0, 1, 0]);
    assert_eq!(m.payoff(0, 2, 0), -1);
    assert_eq!(m.payoff(1, 0, 2), 1);
}

#[test]
fn kuhn_payoff_after_a_call_is_two_chips_for_the_higher_card() {
    let n = kuhn_at(&[1, 1]);
    assert_eq!(n.payoff(0, 1, 0), 2);
    assert_eq!(n.payoff(0, 1, 2), -2);
    let m = kuhn_at(&[0, 1, 1]);
    assert_eq!(m.payoff(1, 2, 1), 2);
    assert_eq!(m.payoff(1, 0, 1), -2);
}

#[test]
fn kuhn_payoffs_are_zero_sum() {
    for h in [vec![0, 0], vec![1, 0], vec![1, 1], vec![0, 1, 0], vec![0, 1, 1]] {
        let n = kuhn_at(&h);
        for a in 0..3 {
            for b in 0..3 {
                if a != b {
                    assert_eq!(n.payoff(0, a, b) + n.payoff(1, b, a), 0);
                }
            }
        }
    }
}

#[test]
fn kuhn_info_set_names() {
    assert_eq!(KuhnNode::public_info_set_str(&vec![]), "(Empty)");
    assert_eq!(KuhnNode::public_info_set_str(&vec![0]), "Check");
    assert_eq!(KuhnNode::public_info_set_str(&vec![1]), "Bet");
    assert_eq!(KuhnNode::public_info_set_str(&vec![0, 1]), "Check => Bet");
}

#[test]
fn kuhn_clone_keeps_the_history() {
    let n = kuhn_at(&[0, 1]);
    let c = n.clone();
    assert_eq!(c.public_info_set(), n.public_info_set());
}
