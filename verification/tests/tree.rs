use poker_cfr::game_kuhn::KuhnNode;
use poker_cfr::game_node::GameNode;
use poker_cfr::game_preflop::PreflopNode;
use poker_cfr::game_push_fold::PushFoldNode;
use poker_cfr::tree::{build_tree, DecisionPoint};
use std::collections::HashSet;

fn keys(tree: &[DecisionPoint]) -> Vec<Vec<u8>> {
    tree.iter().map(|d| d.info_set.clone()).collect()
}

#[test]
fn kuhn_has_four_decision_points() {
    let mut tree = Vec::new();
    build_tree(&KuhnNode::new(), &mut tree);
    assert_eq!(keys(&tree), vec![vec![], vec![0], vec![0, 1], vec![1]]);
    for d in &tree {
        assert_eq!(d.num_actions, 2);
        assert_eq!(d.num_hands, 3);
    }
}

#[test]
fn push_fold_has_two_decision_points() {
    let mut tree = Vec::new();
    build_tree(&PushFoldNode::new(20, 1), &mut tree);
    assert_eq!(keys(&tree), vec![vec![], vec![1]]);
    for d in &tree {
        assert_eq!(d.num_actions, 2);
        assert_eq!(d.num_hands, 1326);
    }
}

#[test]
fn build_tree_appends_to_what_is_there() {
    let mut tree = Vec::new();
    build_tree(&PushFoldNode::new(20, 1), &mut tree);
    build_tree(&KuhnNode::new(), &mut tree);
    assert_eq!(keys(&tree), vec![vec![], vec![1], vec![], vec![0], vec![0, 1], vec![1]]);
}

#[test]
fn build_tree_lists_nothing_under_a_terminal_node() {
    let mut tree = Vec::new();
    build_tree(&KuhnNode::new().play(1).play(1), &mut tree);
    assert!(tree.is_empty());
}

#[test]
fn build_tree_starts_at_the_node_it_is_given() {
    let mut tree = Vec::new();
    build_tree(&KuhnNode::new().play(0), &mut tree);
    assert_eq!(keys(&tree), vec![vec![0], vec![0, 1]]);
}

#[test]
fn preflop_root_has_five_rows_of_1326_hands() {
    let mut tree = Vec::new();
    build_tree(&PreflopNode::new(20, 1), &mut tree);
    assert!(tree[0].info_set.is_empty());
    assert_eq!(tree[0].num_actions, 5);
    assert_eq!(tree[0].num_hands, 1326);
}

#[test]
fn preflop_decision_points_have_distinct_keys() {
    let mut tree = Vec::new();
    build_tree(&PreflopNode::new(20, 1), &mut tree);
    let distinct: HashSet<Vec<u8>> = keys(&tree).into_iter().collect();
    assert_eq!(distinct.len(), tree.len());
    assert!(distinct.contains(&vec![1u8]));
    assert!(distinct.contains(&vec![1u8, 2]));
    assert!(distinct.contains(&vec![2u8, 2]));
    assert!(!distinct.contains(&vec![0u8]));
    assert!(!distinct.contains(&vec![1u8, 1]));
}

#[test]
fn preflop_decision_points_match_the_nodes_they_name() {
    let mut tree = Vec::new();
    let root = PreflopNode::new(20, 1);
    build_tree(&root, &mut tree);
    for d in &tree {
        let mut n = PreflopNode::new(20, 1);
        for a in &d.info_set {
            n = n.play(*a as usize);
        }
        assert!(!n.is_terminal_node());
        assert_eq!(n.num_actions(), d.num_actions);
        assert_eq!(n.private_info_set_len(), d.num_hands);
    }
}

#[test]
fn preflop_two_chip_stack_has_two_decision_points() {
    let mut tree = Vec::new();
    build_tree(&PreflopNode::new(2, 1), &mut tree);
    assert_eq!(keys(&tree), vec![vec![], vec![1]]);
}

#[test]
fn decision_tree_of_kuhn() {
    let tree = poker_cfr::tree::DecisionTree::build(&KuhnNode::new());
    assert_eq!(tree.len(), 4);
    assert_eq!(tree.point(0).info_set, Vec::<u8>::new());
    assert_eq!(tree.point(2).info_set, vec![0, 1]);
    assert_eq!(tree.point(2).num_actions, 2);
    assert_eq!(tree.point(2).num_hands, 3);
}

#[test]
fn decision_tree_finds_the_slot_of_a_decision_point() {
    let tree = poker_cfr::tree::DecisionTree::build(&KuhnNode::new());
    assert_eq!(tree.find(&vec![]), Some(0));
    assert_eq!(tree.find(&vec![0]), Some(1));
    assert_eq!(tree.find(&vec![0, 1]), Some(2));
    assert_eq!(tree.find(&vec![1]), Some(3));
}

#[test]
fn decision_tree_finds_nothing_for_other_histories() {
    let tree = poker_cfr::tree::DecisionTree::build(&KuhnNode::new());
    assert_eq!(tree.find(&vec![0, 0]), None);
    assert_eq!(tree.find(&vec![1, 1]), None);
    assert_eq!(tree.find(&vec![0, 1, 1]), None);
    assert_eq!(tree.find(&vec![2]), None);
    assert_eq!(tree.find(&vec![0, 1, 0, 0]), None);
}

#[test]
fn decision_tree_finds_every_decision_point_it_lists() {
    let tree = poker_cfr::tree::DecisionTree::build(&PreflopNode::new(20, 1));
    for slot in 0..tree.len() {
        assert_eq!(tree.find(&tree.point(slot).info_set), Some(slot));
    }
}

#[test]
fn decision_tree_finds_every_node_that_play_reaches() {
    fn walk(tree: &poker_cfr::tree::DecisionTree, node: &PreflopNode, seen: &mut usize) {
        if node.is_terminal_node() {
            assert_eq!(tree.find(node.public_info_set()), None);
            return;
        }
        assert!(tree.find(node.public_info_set()).is_some());
        *seen += 1;
        for a in node.actions() {
            walk(tree, &node.play(a), seen);
        }
    }
    let root = PreflopNode::new(20, 1);
    let tree = poker_cfr::tree::DecisionTree::build(&root);
    let mut seen = 0;
    walk(&tree, &root, &mut seen);
    assert_eq!(seen, tree.len());
}
